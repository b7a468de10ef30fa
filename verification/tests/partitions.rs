use icicle::error::InstallError;
use icicle::partitions::{resolve_boot_device, CustomPartition, PartitionSchema};

fn part(device: &str, mountpoint: Option<&str>) -> CustomPartition {
    CustomPartition {
        format: Some(String::from("ext4")),
        mountpoint: mountpoint.map(String::from),
        device: String::from(device),
    }
}

fn custom(parts: Vec<(&str, CustomPartition)>) -> PartitionSchema {
    PartitionSchema::Custom(parts.into_iter().map(|(id, p)| (String::from(id), p)).collect())
}

#[test]
fn full_disk_boots_from_the_disk() {
    let scheme = PartitionSchema::FullDisk(String::from("/dev/sda"));
    assert_eq!(scheme.boot_device(), Some(String::from("/dev/sda")));
    let scheme = PartitionSchema::FullDisk(String::from("/dev/nvme0n1"));
    assert_eq!(scheme.boot_device(), Some(String::from("/dev/nvme0n1")));
    let scheme = PartitionSchema::FullDisk(String::new());
    assert_eq!(scheme.boot_device(), Some(String::new()));
}

#[test]
fn custom_boots_from_the_root_partition() {
    let scheme = custom(vec![
        ("boot", part("/dev/sda1", Some("/boot/efi"))),
        ("root", part("/dev/sda2", Some("/"))),
        ("home", part("/dev/sda3", Some("/home"))),
    ]);
    assert_eq!(scheme.boot_device(), Some(String::from("/dev/sda2")));
}

#[test]
fn custom_root_partition_may_stand_anywhere() {
    let first = custom(vec![("a", part("/dev/sdb1", Some("/"))), ("b", part("/dev/sdb2", None))]);
    assert_eq!(first.boot_device(), Some(String::from("/dev/sdb1")));
    let last = custom(vec![("a", part("/dev/sdb1", None)), ("b", part("/dev/sdb2", Some("/")))]);
    assert_eq!(last.boot_device(), Some(String::from("/dev/sdb2")));
}

#[test]
fn custom_without_a_root_partition_has_no_boot_device() {
    let scheme = custom(vec![
        ("boot", part("/dev/sda1", Some("/boot"))),
        ("swap", part("/dev/sda2", None)),
        ("almost", part("/dev/sda3", Some("//"))),
    ]);
    assert_eq!(scheme.boot_device(), None);
    assert_eq!(custom(vec![]).boot_device(), None);
}

#[test]
fn custom_with_two_root_partitions_takes_the_last() {
    let scheme = custom(vec![
        ("one", part("/dev/sda1", Some("/"))),
        ("two", part("/dev/sda2", Some("/"))),
        ("three", part("/dev/sda3", Some("/home"))),
    ]);
    assert_eq!(scheme.boot_device(), Some(String::from("/dev/sda2")));
}

#[test]
fn is_root_asks_for_the_root_mountpoint() {
    assert!(part("/dev/sda1", Some("/")).is_root());
    assert!(!part("/dev/sda1", Some("/boot")).is_root());
    assert!(!part("/dev/sda1", Some("")).is_root());
    assert!(!part("/dev/sda1", None).is_root());
}

#[test]
fn resolving_takes_a_layout() {
    let none: Option<PartitionSchema> = None;
    assert_eq!(resolve_boot_device(&none), Err(InstallError::NoPartitions));
    assert_eq!(InstallError::NoPartitions.message(), "No partitions specified");
}

#[test]
fn resolving_a_layout_gives_its_boot_device() {
    let disk = Some(PartitionSchema::FullDisk(String::from("/dev/vda")));
    assert_eq!(resolve_boot_device(&disk), Ok(Some(String::from("/dev/vda"))));
    let parts = Some(custom(vec![("data", part("/dev/vda1", Some("/data")))]));
    assert_eq!(resolve_boot_device(&parts), Ok(None));
}
