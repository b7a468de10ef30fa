use icicle::config::{Choice, ConfigType, UserConfig};
use icicle::error::InstallError;
use icicle::gateway::{completed, Action, AppMsg, DirEntry, Event};
use icicle::install::{InstallAsyncModel, InstallAsyncMsg, Stage};
use icicle::partitions::{CustomPartition, PartitionSchema};

fn words(command: &[&str]) -> Vec<String> {
    command.iter().map(|word| String::from(*word)).collect()
}

fn run(command: &[&str]) -> Action {
    Action::Run { command: words(command) }
}

fn ada(hostname: &str, rootpassword: Option<&str>) -> UserConfig {
    UserConfig {
        name: String::from("Ada Lovelace"),
        username: String::from("ada"),
        hostname: String::from(hostname),
        password: String::from("secret"),
        rootpassword: rootpassword.map(String::from),
        autologin: false,
    }
}

fn install(
    partitions: Option<PartitionSchema>,
    user: Option<UserConfig>,
    configtype: ConfigType,
) -> InstallAsyncMsg {
    InstallAsyncMsg::Install(
        String::from("default"),
        Some(String::from("en_US.UTF-8")),
        Some(String::from("UTC")),
        Some(String::from("us")),
        Box::new(partitions),
        Box::new(user),
        Vec::new(),
        configtype,
    )
}

fn full_disk() -> Option<PartitionSchema> {
    Some(PartitionSchema::FullDisk(String::from("/dev/sda")))
}

/// Stands in for the machine: answers the work that the pipeline hands
/// out and keeps a record of it.
struct Machine {
    efi: bool,
    template: String,
    /// A word that makes a command fail.
    failing: Option<String>,
    /// A word that makes a command impossible to run.
    missing: Option<String>,
    log: Vec<Action>,
}

impl Machine {
    fn new(efi: bool, template: &str) -> Machine {
        Machine { efi, template: String::from(template), failing: None, missing: None, log: Vec::new() }
    }

    fn command(&self, command: &Vec<String>) -> Event {
        if let Some(word) = &self.missing {
            if command.contains(word) {
                return Event::Failed { detail: String::from("No such file or directory") };
            }
        }
        if let Some(word) = &self.failing {
            if command.contains(word) {
                return Event::Exited {
                    success: false,
                    stdout: String::new(),
                    stderr: String::from("it went wrong"),
                };
            }
        }
        let stdout = if command[0] == "uname" {
            "x86_64\n"
        } else if command[0] == "nixos-version" {
            "23.11.20231129.057f9ae (Tapir)\n"
        } else {
            ""
        };
        Event::Exited { success: true, stdout: String::from(stdout), stderr: String::new() }
    }

    fn answer(&mut self, action: &Action) -> Option<Event> {
        self.log.push(action.clone());
        match action {
            Action::Run { command } => Some(self.command(command)),
            Action::Pipe { command, .. } => Some(self.command(command)),
            Action::Partition { command, .. } => Some(self.command(command)),
            Action::DetectFirmware => Some(Event::Firmware { efi: self.efi }),
            Action::ListDirectory { path } => {
                assert_eq!(path, "/etc/icicle/default/");
                Some(Event::Listing {
                    entries: vec![DirEntry { name: String::from("configuration.nix"), is_dir: false }],
                })
            },
            Action::ReadFile { path } => {
                assert_eq!(path, "/etc/icicle/default/configuration.nix");
                Some(Event::Contents { text: self.template.clone() })
            },
            Action::Install { .. } => None,
            Action::Report { .. } => None,
            Action::Nothing => None,
        }
    }

    /// Does the work that the pipeline hands out until it hands out none
    /// that is answered, and gives that last piece.
    fn drive(&mut self, model: &mut InstallAsyncModel, first: Action) -> Action {
        let mut action = first;
        loop {
            match self.answer(&action) {
                Some(event) => action = model.resume(event),
                None => return action,
            }
        }
    }

    fn ran(&self, word: &str) -> bool {
        let word = String::from(word);
        self.log.iter().any(|action| match action {
            Action::Run { command } => command.contains(&word),
            Action::Pipe { command, .. } => command.contains(&word),
            Action::Partition { command, .. } => command.contains(&word),
            Action::Install { command } => command.contains(&word),
            _ => false,
        })
    }
}

fn model() -> InstallAsyncModel {
    InstallAsyncModel::init(String::from("/usr/libexec"), String::from("/etc"))
}

const ERROR: Action = Action::Report { message: AppMsg::Error };

const FINISHED: Action = Action::Report { message: AppMsg::Finished };

#[test]
fn init_is_idle_and_holds_no_credentials() {
    let model = model();
    assert_eq!(model.stage, Stage::Idle);
    assert_eq!(model.username, None);
    assert_eq!(model.password, None);
    assert_eq!(model.rootpassword, None);
    assert_eq!(model.error, None);
    assert_eq!(model.libexecdir, "/usr/libexec");
    assert_eq!(model.sysconfdir, "/etc");
    assert_eq!(model.hostname(), "nixos");
}

#[test]
fn end_to_end_full_disk() {
    let mut model = model();
    let mut machine = Machine::new(false, "@BOOTLOADER@\n@NETWORK@\n");
    let first = model.update(install(full_disk(), Some(ada("icicle-test", None)), ConfigType::Standard));
    assert_eq!(first, run(&["uname", "-m"]));
    assert_eq!(model.stage, Stage::Architecture);
    assert_eq!(model.username, None);
    let last = machine.drive(&mut model, first);
    assert_eq!(
        last,
        Action::Install {
            command: words(&[
                "/usr/bin/env",
                "pkexec",
                "nixos-install",
                "--root",
                "/tmp/icicle",
                "--no-root-passwd",
                "--no-channel-copy",
                "--flake",
                "/tmp/icicle/etc/nixos#icicle-test",
            ]),
        }
    );
    assert_eq!(model.stage, Stage::AwaitInstaller);
    assert_eq!(model.username, Some(String::from("ada")));
    assert_eq!(model.password, Some(String::from("secret")));
    assert_eq!(model.rootpassword, None);
    let contents = "  # Bootloader.\n  boot.loader.grub.enable = true;\n  boot.loader.grub.device = \"/dev/sda\";\n  boot.loader.grub.useOSProber = true;\n  # Define your hostname.\n  networking.hostName = \"icicle-test\";\n\n  # Enable networking\n  networking.networkmanager.enable = true;\n";
    assert_eq!(
        machine.log,
        vec![
            run(&["uname", "-m"]),
            run(&["pkexec", "umount", "-R", "/tmp/icicle"]),
            run(&["pkexec", "rm", "-rf", "/tmp/icicle"]),
            Action::Partition {
                command: words(&["pkexec", "/usr/libexec/icicle-helper", "partition"]),
                layout: PartitionSchema::FullDisk(String::from("/dev/sda")),
            },
            run(&["pkexec", "nixos-generate-config", "--root", "/tmp/icicle"]),
            Action::DetectFirmware,
            run(&["uname", "-m"]),
            Action::ListDirectory { path: String::from("/etc/icicle/default/") },
            Action::ReadFile { path: String::from("/etc/icicle/default/configuration.nix") },
            run(&["nixos-version"]),
            run(&[
                "pkexec",
                "/usr/libexec/icicle-helper",
                "write-file",
                "--path",
                "/tmp/icicle/etc/nixos/configuration.nix",
                "--contents",
                contents,
            ]),
            last.clone(),
        ]
    );
    machine.log.clear();
    let provision = model.update(InstallAsyncMsg::FinishInstall);
    assert_eq!(
        provision,
        Action::Pipe {
            command: words(&["pkexec", "nixos-enter", "--root", "/tmp/icicle", "-c", "chpasswd"]),
            input: String::from("ada:secret"),
        }
    );
    assert_eq!(model.stage, Stage::UserPassword);
    let end = machine.drive(&mut model, provision);
    assert_eq!(end, FINISHED);
    assert_eq!(model.stage, Stage::Finished);
    assert_eq!(model.username, None);
    assert_eq!(model.password, None);
    assert_eq!(model.rootpassword, None);
    assert_eq!(model.error, None);
    assert_eq!(machine.log.len(), 2);
}

#[test]
fn end_to_end_without_partitions() {
    let mut model = model();
    let mut machine = Machine::new(true, "");
    let first = model.update(install(None, Some(ada("icicle-test", None)), ConfigType::Standard));
    let last = machine.drive(&mut model, first);
    assert_eq!(last, ERROR);
    assert_eq!(model.stage, Stage::Failed);
    assert_eq!(model.error, Some(InstallError::NoPartitions));
    assert_eq!(InstallError::NoPartitions.message(), "No partitions specified");
    assert_eq!(
        machine.log,
        vec![
            run(&["uname", "-m"]),
            run(&["pkexec", "umount", "-R", "/tmp/icicle"]),
            run(&["pkexec", "rm", "-rf", "/tmp/icicle"]),
            ERROR,
        ]
    );
    assert!(!machine.ran("nixos-generate-config"));
    assert!(!machine.ran("partition"));
}

#[test]
fn root_gets_its_password_after_the_user() {
    let mut model = model();
    let mut machine = Machine::new(true, "");
    let first = model.update(install(full_disk(), Some(ada("host", Some("toor"))), ConfigType::Standard));
    machine.drive(&mut model, first);
    assert_eq!(model.rootpassword, Some(String::from("toor")));
    machine.log.clear();
    let provision = model.update(InstallAsyncMsg::FinishInstall);
    let end = machine.drive(&mut model, provision);
    assert_eq!(end, FINISHED);
    let command = words(&["pkexec", "nixos-enter", "--root", "/tmp/icicle", "-c", "chpasswd"]);
    assert_eq!(
        machine.log,
        vec![
            Action::Pipe { command: command.clone(), input: String::from("ada:secret") },
            Action::Pipe { command, input: String::from("root:toor") },
            FINISHED,
        ]
    );
    assert_eq!(model.rootpassword, None);
}

#[test]
fn the_structured_layout_relocates_the_hardware_facts() {
    let mut model = model();
    let mut machine = Machine::new(true, "@HOSTNAME@");
    let first = model.update(install(full_disk(), Some(ada("frost", None)), ConfigType::Snowfall));
    let last = machine.drive(&mut model, first);
    assert_eq!(model.stage, Stage::AwaitInstaller);
    assert!(matches!(last, Action::Install { .. }));
    assert_eq!(
        machine.log[4..8],
        [
            run(&["pkexec", "nixos-generate-config", "--root", "/tmp/icicle"]),
            run(&["pkexec", "mkdir", "-p", "/tmp/icicle/etc/nixos/systems/x86_64-linux/frost"]),
            run(&[
                "pkexec",
                "mv",
                "/tmp/icicle/etc/nixos/hardware-configuration.nix",
                "/tmp/icicle/etc/nixos/systems/x86_64-linux/frost/hardware.nix",
            ]),
            run(&["pkexec", "rm", "/tmp/icicle/etc/nixos/configuration.nix"]),
        ]
    );
    assert_eq!(machine.log[8], Action::DetectFirmware);
}

#[test]
fn the_structured_layout_without_user_names_the_default_host() {
    let mut model = model();
    let mut machine = Machine::new(true, "");
    let first = model.update(install(full_disk(), None, ConfigType::Snowfall));
    let last = machine.drive(&mut model, first);
    assert_eq!(
        machine.log[5],
        run(&["pkexec", "mkdir", "-p", "/tmp/icicle/etc/nixos/systems/x86_64-linux/nixos"])
    );
    assert_eq!(last, ERROR);
    assert_eq!(model.error, Some(InstallError::NoHostname));
}

#[test]
fn the_flat_layout_relocates_nothing() {
    let mut model = model();
    let mut machine = Machine::new(true, "");
    let first = model.update(install(full_disk(), Some(ada("frost", None)), ConfigType::Standard));
    machine.drive(&mut model, first);
    assert!(!machine.ran("mkdir"));
    assert!(!machine.ran("mv"));
}

#[test]
fn a_failed_relocation_ends_the_pipeline() {
    let mut model = model();
    let mut machine = Machine::new(true, "");
    machine.failing = Some(String::from("mv"));
    let first = model.update(install(full_disk(), Some(ada("frost", None)), ConfigType::Snowfall));
    assert_eq!(machine.drive(&mut model, first), ERROR);
    assert_eq!(model.stage, Stage::Failed);
    assert!(!machine.ran("/tmp/icicle/etc/nixos/configuration.nix"));
    assert!(!machine.ran("nixos-install"));
}

#[test]
fn clearing_a_workspace_that_is_not_there_is_no_fault() {
    let mut model = model();
    let mut machine = Machine::new(true, "");
    machine.failing = Some(String::from("umount"));
    let first = model.update(install(full_disk(), Some(ada("frost", None)), ConfigType::Standard));
    machine.drive(&mut model, first);
    assert_eq!(model.stage, Stage::AwaitInstaller);
    let mut model = self::model();
    let mut machine = Machine::new(true, "");
    machine.failing = Some(String::from("-rf"));
    let first = model.update(install(full_disk(), Some(ada("frost", None)), ConfigType::Standard));
    machine.drive(&mut model, first);
    assert_eq!(model.stage, Stage::AwaitInstaller);
}

#[test]
fn a_clearing_that_could_not_be_run_ends_the_pipeline() {
    let mut model = model();
    let mut machine = Machine::new(true, "");
    machine.missing = Some(String::from("umount"));
    let first = model.update(install(full_disk(), Some(ada("frost", None)), ConfigType::Standard));
    assert_eq!(machine.drive(&mut model, first), ERROR);
    assert_eq!(
        model.error,
        Some(InstallError::Command {
            command: words(&["pkexec", "umount", "-R", "/tmp/icicle"]),
            detail: String::from("No such file or directory"),
        })
    );
    assert!(!machine.ran("rm"));
}

#[test]
fn a_failed_partitioning_ends_the_pipeline_with_its_diagnostics() {
    let mut model = model();
    let mut machine = Machine::new(true, "");
    machine.failing = Some(String::from("partition"));
    let first = model.update(install(full_disk(), Some(ada("frost", None)), ConfigType::Standard));
    assert_eq!(machine.drive(&mut model, first), ERROR);
    assert_eq!(model.stage, Stage::Failed);
    let error = model.error.clone().unwrap();
    assert_eq!(
        error,
        InstallError::Command {
            command: words(&["pkexec", "/usr/libexec/icicle-helper", "partition"]),
            detail: String::from("it went wrong"),
        }
    );
    assert_eq!(
        error.message(),
        "Command failed: pkexec /usr/libexec/icicle-helper partition: it went wrong"
    );
    assert!(!machine.ran("nixos-generate-config"));
}

#[test]
fn a_failure_at_any_command_ends_the_pipeline() {
    for word in ["uname", "nixos-generate-config", "nixos-version", "write-file"] {
        let mut model = model();
        let mut machine = Machine::new(true, "");
        machine.failing = Some(String::from(word));
        let first = model.update(install(full_disk(), Some(ada("frost", None)), ConfigType::Standard));
        assert_eq!(machine.drive(&mut model, first), ERROR);
        assert_eq!(model.stage, Stage::Failed);
        assert!(matches!(model.error, Some(InstallError::Command { .. })));
        assert!(!machine.ran("nixos-install"));
        assert_eq!(machine.log.iter().filter(|action| **action == ERROR).count(), 1);
    }
}

#[test]
fn without_uefi_and_boot_device_the_pipeline_ends_before_a_file_is_written() {
    let mut model = model();
    let mut machine = Machine::new(false, "@BOOTLOADER@");
    let parts = PartitionSchema::Custom(vec![(
        String::from("data"),
        CustomPartition {
            format: None,
            mountpoint: Some(String::from("/data")),
            device: String::from("/dev/sda1"),
        },
    )]);
    let first = model.update(install(Some(parts), Some(ada("frost", None)), ConfigType::Standard));
    assert_eq!(machine.drive(&mut model, first), ERROR);
    assert_eq!(model.error, Some(InstallError::NoBootDevice));
    assert!(!machine.ran("write-file"));
    assert!(!machine.ran("nixos-version"));
    assert!(!machine.ran("nixos-install"));
}

#[test]
fn a_custom_layout_boots_from_its_root_partition() {
    let mut model = model();
    let mut machine = Machine::new(false, "@BOOTLOADER@");
    let parts = PartitionSchema::Custom(vec![
        (
            String::from("boot"),
            CustomPartition {
                format: Some(String::from("fat32")),
                mountpoint: Some(String::from("/boot")),
                device: String::from("/dev/sdb1"),
            },
        ),
        (
            String::from("root"),
            CustomPartition {
                format: Some(String::from("ext4")),
                mountpoint: Some(String::from("/")),
                device: String::from("/dev/sdb2"),
            },
        ),
    ]);
    let first = model.update(install(Some(parts.clone()), Some(ada("frost", None)), ConfigType::Standard));
    machine.drive(&mut model, first);
    assert_eq!(model.stage, Stage::AwaitInstaller);
    assert!(machine.log.contains(&Action::Partition {
        command: words(&["pkexec", "/usr/libexec/icicle-helper", "partition"]),
        layout: parts,
    }));
    let wrote = machine.log.iter().any(|action| match action {
        Action::Run { command } => {
            command.len() == 7 && command[6].contains("boot.loader.grub.device = \"/dev/sdb2\";")
        },
        _ => false,
    });
    assert!(wrote);
}

#[test]
fn the_installer_takes_a_user() {
    let mut model = model();
    let mut machine = Machine::new(true, "");
    let first = model.update(install(full_disk(), None, ConfigType::Standard));
    assert_eq!(machine.drive(&mut model, first), ERROR);
    assert_eq!(model.stage, Stage::Failed);
    assert_eq!(model.error, Some(InstallError::NoHostname));
    assert_eq!(InstallError::NoHostname.message(), "No hostname found");
    assert!(machine.ran("write-file"));
    assert!(!machine.ran("nixos-install"));
}

#[test]
fn the_installer_takes_a_machine_with_a_name() {
    let mut model = model();
    let mut machine = Machine::new(true, "");
    let first = model.update(install(full_disk(), Some(ada("", None)), ConfigType::Standard));
    assert_eq!(machine.drive(&mut model, first), ERROR);
    assert_eq!(model.error, Some(InstallError::NoHostname));
    assert_eq!(model.username, None);
    assert_eq!(model.password, None);
}

#[test]
fn the_installers_end_without_a_run_fails() {
    let mut model = model();
    assert_eq!(model.update(InstallAsyncMsg::FinishInstall), ERROR);
    assert_eq!(model.stage, Stage::Failed);
    assert_eq!(model.error, Some(InstallError::NoUsername));
    assert_eq!(InstallError::NoUsername.message(), "No username found");
}

#[test]
fn the_installers_end_without_a_password_fails() {
    let mut model = model();
    model.username = Some(String::from("ada"));
    assert_eq!(model.update(InstallAsyncMsg::FinishInstall), ERROR);
    assert_eq!(model.error, Some(InstallError::NoPassword));
    assert_eq!(model.username, None);
    assert_eq!(InstallError::NoPassword.message(), "No password found");
}

#[test]
fn a_failed_password_command_ends_the_pipeline() {
    let mut model = model();
    let mut machine = Machine::new(true, "");
    let first = model.update(install(full_disk(), Some(ada("host", Some("toor"))), ConfigType::Standard));
    machine.drive(&mut model, first);
    machine.failing = Some(String::from("chpasswd"));
    let provision = model.update(InstallAsyncMsg::FinishInstall);
    assert_eq!(machine.drive(&mut model, provision), ERROR);
    assert_eq!(model.stage, Stage::Failed);
    assert_eq!(model.username, None);
    assert_eq!(model.password, None);
    assert_eq!(model.rootpassword, None);
}

#[test]
fn a_message_in_the_middle_of_a_run_ends_it() {
    let mut model = model();
    model.update(install(full_disk(), Some(ada("host", None)), ConfigType::Standard));
    assert_eq!(model.stage, Stage::Architecture);
    assert_eq!(model.update(InstallAsyncMsg::FinishInstall), ERROR);
    assert_eq!(model.error, Some(InstallError::Unexpected));
    assert_eq!(InstallError::Unexpected.message(), "Unexpected message");
    let mut model = self::model();
    let mut machine = Machine::new(true, "");
    let first = model.update(install(full_disk(), Some(ada("host", None)), ConfigType::Standard));
    machine.drive(&mut model, first);
    assert_eq!(model.stage, Stage::AwaitInstaller);
    assert_eq!(model.update(install(full_disk(), None, ConfigType::Standard)), ERROR);
    assert_eq!(model.stage, Stage::Failed);
}

#[test]
fn a_report_that_is_not_awaited_ends_the_run() {
    let exited = Event::Exited { success: true, stdout: String::new(), stderr: String::new() };
    let mut model = model();
    assert_eq!(model.resume(exited.clone()), ERROR);
    assert_eq!(model.error, Some(InstallError::Unexpected));
    let mut model = self::model();
    model.update(install(full_disk(), Some(ada("host", None)), ConfigType::Standard));
    assert_eq!(model.resume(Event::Firmware { efi: true }), ERROR);
    assert_eq!(model.error, Some(InstallError::Unexpected));
}

#[test]
fn nothing_moves_a_pipeline_that_has_ended() {
    let exited = Event::Exited { success: true, stdout: String::new(), stderr: String::new() };
    let mut model = model();
    model.update(InstallAsyncMsg::FinishInstall);
    let failed = model.clone();
    assert_eq!(failed.stage, Stage::Failed);
    assert_eq!(model.update(install(full_disk(), None, ConfigType::Standard)), Action::Nothing);
    assert_eq!(model.update(InstallAsyncMsg::FinishInstall), Action::Nothing);
    assert_eq!(model.resume(exited.clone()), Action::Nothing);
    assert_eq!(model, failed);
    let mut model = self::model();
    let mut machine = Machine::new(true, "");
    let first = model.update(install(full_disk(), Some(ada("host", None)), ConfigType::Standard));
    machine.drive(&mut model, first);
    let provision = model.update(InstallAsyncMsg::FinishInstall);
    machine.drive(&mut model, provision);
    let finished = model.clone();
    assert_eq!(finished.stage, Stage::Finished);
    assert_eq!(model.update(InstallAsyncMsg::FinishInstall), Action::Nothing);
    assert_eq!(model.resume(exited), Action::Nothing);
    assert_eq!(model, finished);
}

#[test]
fn the_selected_features_reach_the_configuration() {
    let mut model = model();
    let mut machine = Machine::new(true, "@apps@|@PACKAGES@");
    let list = vec![(
        String::from("apps"),
        vec![
            (
                String::from("steam"),
                Choice { packages: Some(vec![String::from("pkgA")]), config: Some(String::from("programs.steam.enable = true;")) },
            ),
            (
                String::from("office"),
                Choice { packages: Some(vec![String::from("pkgB"), String::from("pkgC")]), config: None },
            ),
        ],
    )];
    let msg = InstallAsyncMsg::Install(
        String::from("default"),
        None,
        None,
        None,
        Box::new(full_disk()),
        Box::new(Some(ada("host", None))),
        list,
        ConfigType::Standard,
    );
    let first = model.update(msg);
    machine.drive(&mut model, first);
    let contents = "  programs.steam.enable = true;\n|  # List packages installed in system profile.\n  environment.systemPackages = with pkgs; [\n    firefox\n    pkgA\n    pkgB\n    pkgC\n  ];";
    assert!(machine.log.contains(&run(&[
        "pkexec",
        "/usr/libexec/icicle-helper",
        "write-file",
        "--path",
        "/tmp/icicle/etc/nixos/configuration.nix",
        "--contents",
        contents,
    ])));
}

#[test]
fn completed_gives_the_output_of_a_command_that_ended_well() {
    let command = words(&["uname", "-m"]);
    let well = Event::Exited { success: true, stdout: String::from("out"), stderr: String::from("err") };
    assert_eq!(completed(&command, well.clone(), false), Ok(String::from("out")));
    assert_eq!(completed(&command, well, true), Ok(String::from("out")));
}

#[test]
fn completed_fails_a_command_that_ended_in_failure_unless_that_is_tolerated() {
    let command = words(&["uname", "-m"]);
    let badly = Event::Exited { success: false, stdout: String::from("out"), stderr: String::from("err") };
    assert_eq!(
        completed(&command, badly.clone(), false),
        Err(InstallError::Command { command: command.clone(), detail: String::from("err") })
    );
    assert_eq!(completed(&command, badly, true), Ok(String::from("out")));
}

#[test]
fn completed_fails_a_command_that_could_not_be_run() {
    let command = words(&["uname", "-m"]);
    let failed = Event::Failed { detail: String::from("not found") };
    let error = InstallError::Command { command: command.clone(), detail: String::from("not found") };
    assert_eq!(completed(&command, failed.clone(), false), Err(error.clone()));
    assert_eq!(completed(&command, failed, true), Err(error.clone()));
    assert_eq!(error.message(), "Command failed: uname -m: not found");
}

#[test]
fn completed_fails_a_report_of_something_else() {
    let command = words(&["uname", "-m"]);
    assert_eq!(completed(&command, Event::Firmware { efi: true }, true), Err(InstallError::Unexpected));
    assert_eq!(
        completed(&command, Event::Contents { text: String::new() }, false),
        Err(InstallError::Unexpected)
    );
}
