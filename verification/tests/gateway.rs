use icicle::config::{MakeConfig, UserConfig};
use icicle::error::InstallError;
use icicle::gateway::{
    architecture, copy_words, credential, generate, install, joined, make_dir, move_hardware,
    partition, password, push_word, remove, remove_entry, system_directory, unmount, version,
    write_file,
};

fn words(command: &[&str]) -> Vec<String> {
    command.iter().map(|word| String::from(*word)).collect()
}

#[test]
fn commands_that_ask_about_the_machine() {
    assert_eq!(architecture(), words(&["uname", "-m"]));
    assert_eq!(version(), words(&["nixos-version"]));
}

#[test]
fn commands_that_clear_the_workspace() {
    assert_eq!(unmount(), words(&["pkexec", "umount", "-R", "/tmp/icicle"]));
    assert_eq!(remove(), words(&["pkexec", "rm", "-rf", "/tmp/icicle"]));
}

#[test]
fn command_that_partitions() {
    assert_eq!(partition("/usr/libexec"), words(&["pkexec", "/usr/libexec/icicle-helper", "partition"]));
    assert_eq!(partition(""), words(&["pkexec", "/icicle-helper", "partition"]));
}

#[test]
fn command_that_generates_the_base_configuration() {
    assert_eq!(generate(), words(&["pkexec", "nixos-generate-config", "--root", "/tmp/icicle"]));
}

#[test]
fn commands_that_relocate_the_hardware_facts() {
    assert_eq!(system_directory("aarch64", "frost"), "/tmp/icicle/etc/nixos/systems/aarch64-linux/frost");
    assert_eq!(
        make_dir("aarch64", "frost"),
        words(&["pkexec", "mkdir", "-p", "/tmp/icicle/etc/nixos/systems/aarch64-linux/frost"])
    );
    assert_eq!(
        move_hardware("aarch64", "frost"),
        words(&[
            "pkexec",
            "mv",
            "/tmp/icicle/etc/nixos/hardware-configuration.nix",
            "/tmp/icicle/etc/nixos/systems/aarch64-linux/frost/hardware.nix",
        ])
    );
    assert_eq!(remove_entry(), words(&["pkexec", "rm", "/tmp/icicle/etc/nixos/configuration.nix"]));
}

#[test]
fn command_that_writes_a_file() {
    assert_eq!(
        write_file("/usr/libexec", "/tmp/icicle/etc/nixos/flake.nix", "{ }\n"),
        words(&[
            "pkexec",
            "/usr/libexec/icicle-helper",
            "write-file",
            "--path",
            "/tmp/icicle/etc/nixos/flake.nix",
            "--contents",
            "{ }\n",
        ])
    );
}

#[test]
fn command_that_installs() {
    assert_eq!(
        install("icicle-test"),
        words(&[
            "/usr/bin/env",
            "pkexec",
            "nixos-install",
            "--root",
            "/tmp/icicle",
            "--no-root-passwd",
            "--no-channel-copy",
            "--flake",
            "/tmp/icicle/etc/nixos#icicle-test",
        ])
    );
}

#[test]
fn command_that_sets_passwords() {
    assert_eq!(password(), words(&["pkexec", "nixos-enter", "--root", "/tmp/icicle", "-c", "chpasswd"]));
    assert_eq!(credential("ada", "secret"), "ada:secret");
    assert_eq!(credential("root", "a:b"), "root:a:b");
    assert_eq!(credential("", ""), ":");
}

#[test]
fn words_are_pushed_and_copied_as_they_stand() {
    let mut command = words(&["a"]);
    push_word(&mut command, "b c");
    push_word(&mut command, "");
    assert_eq!(command, words(&["a", "b c", ""]));
    assert_eq!(copy_words(&command), command);
    assert_eq!(copy_words(&Vec::new()), Vec::<String>::new());
    assert_eq!(joined("ab", "cd"), "abcd");
}

#[test]
fn hostname_is_the_users_or_the_default() {
    let mut cfg = MakeConfig {
        id: String::from("default"),
        language: None,
        timezone: None,
        keyboard: None,
        user: None,
        list: Vec::new(),
        bootdisk: None,
    };
    assert_eq!(cfg.hostname(), "nixos");
    cfg.user = Some(UserConfig {
        name: String::from("Ada Lovelace"),
        username: String::from("ada"),
        hostname: String::from("frost"),
        password: String::from("secret"),
        rootpassword: None,
        autologin: true,
    });
    assert_eq!(cfg.hostname(), "frost");
}

#[test]
fn errors_in_words() {
    assert_eq!(InstallError::NoPartitions.message(), "No partitions specified");
    assert_eq!(InstallError::NoBootDevice.message(), "Failed to get bootloader disk: no boot device");
    assert_eq!(InstallError::NoVersion.message(), "Failed to get nixos version");
    assert_eq!(InstallError::NoHostname.message(), "No hostname found");
    assert_eq!(InstallError::NoUsername.message(), "No username found");
    assert_eq!(InstallError::NoPassword.message(), "No password found");
    assert_eq!(InstallError::Unexpected.message(), "Unexpected message");
    assert_eq!(
        InstallError::Templates { detail: String::from("gone") }.message(),
        "Failed to read templates: gone"
    );
    assert_eq!(
        InstallError::Command { command: words(&["pkexec", "rm", "-rf", "/tmp/icicle"]), detail: String::from("denied") }
            .message(),
        "Command failed: pkexec rm -rf /tmp/icicle: denied"
    );
    assert_eq!(
        InstallError::Command { command: Vec::new(), detail: String::new() }.message(),
        "Command failed: : "
    );
}
