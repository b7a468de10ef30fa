//! The privileged work that the pipeline asks for, and what is reported
//! back of it: the commands word by word, and the rule by which a command
//! has failed.

use crate::error::{text_result, InstallError, InstallErrorView};
use crate::partitions::{PartitionSchema, PartitionSchemaView};
use crate::stanza::{system, system_name};
use vstd::prelude::*;

verus! {

/// What the presentation layer is told of a run.
#[derive(Clone, Copy, Debug, PartialEq, Eq, Structural)]
pub enum AppMsg {
    Error,
    Finished,
}

/// One entry of a directory of templates.
#[derive(Clone, Debug, PartialEq, Eq)]
pub struct DirEntry {
    pub name: String,
    pub is_dir: bool,
}

/// A `DirEntry` as mathematical data.
pub struct DirEntryView {
    pub name: Seq<char>,
    pub is_dir: bool,
}

impl View for DirEntry {
    type V = DirEntryView;

    open spec fn view(&self) -> DirEntryView {
        DirEntryView { name: self.name@, is_dir: self.is_dir }
    }
}

impl DeepView for DirEntry {
    type V = DirEntryView;

    open spec fn deep_view(&self) -> DirEntryView {
        self.view()
    }
}

/// Work for the caller to do. Every command is to be run with the words as
/// they stand, the program first.
#[derive(Clone, Debug, PartialEq, Eq)]
pub enum Action {
    /// Run the command to its end and report how it ended.
    Run { command: Vec<String> },
    /// Run the command, write `input` to its standard input, follow its
    /// output to its end and report how it ended.
    Pipe { command: Vec<String>, input: String },
    /// As `Pipe`, the input being `layout` in its serial form.
    Partition { command: Vec<String>, layout: PartitionSchema },
    /// Report whether the machine was started by UEFI.
    DetectFirmware,
    /// Report the entries of the directory.
    ListDirectory { path: String },
    /// Report what the file holds.
    ReadFile { path: String },
    /// Hand the command to the installer and come back without waiting:
    /// its end is reported by a message of its own.
    Install { command: Vec<String> },
    /// Tell the presentation layer how the run ended.
    Report { message: AppMsg },
    /// Nothing.
    Nothing,
}

/// An `Action` as mathematical data.
pub enum ActionView {
    Run { command: Seq<Seq<char>> },
    Pipe { command: Seq<Seq<char>>, input: Seq<char> },
    Partition { command: Seq<Seq<char>>, layout: PartitionSchemaView },
    DetectFirmware,
    ListDirectory { path: Seq<char> },
    ReadFile { path: Seq<char> },
    Install { command: Seq<Seq<char>> },
    Report { message: AppMsg },
    Nothing,
}

impl View for Action {
    type V = ActionView;

    open spec fn view(&self) -> ActionView {
        match self {
            Action::Run { command } => ActionView::Run { command: command.deep_view() },
            Action::Pipe { command, input } => ActionView::Pipe {
                command: command.deep_view(),
                input: input@,
            },
            Action::Partition { command, layout } => ActionView::Partition {
                command: command.deep_view(),
                layout: layout@,
            },
            Action::DetectFirmware => ActionView::DetectFirmware,
            Action::ListDirectory { path } => ActionView::ListDirectory { path: path@ },
            Action::ReadFile { path } => ActionView::ReadFile { path: path@ },
            Action::Install { command } => ActionView::Install { command: command.deep_view() },
            Action::Report { message } => ActionView::Report { message: *message },
            Action::Nothing => ActionView::Nothing,
        }
    }
}

/// What the caller reports of the work it was given.
#[derive(Clone, Debug, PartialEq, Eq)]
pub enum Event {
    /// The command ran to its end.
    Exited { success: bool, stdout: String, stderr: String },
    /// The work could not be done: the command not started, a stream or a
    /// file not read or written.
    Failed { detail: String },
    /// Whether the machine was started by UEFI.
    Firmware { efi: bool },
    /// The entries of the directory, in the order in which it gave them.
    Listing { entries: Vec<DirEntry> },
    /// What the file holds.
    Contents { text: String },
}

/// An `Event` as mathematical data.
pub enum EventView {
    Exited { success: bool, stdout: Seq<char>, stderr: Seq<char> },
    Failed { detail: Seq<char> },
    Firmware { efi: bool },
    Listing { entries: Seq<DirEntryView> },
    Contents { text: Seq<char> },
}

impl View for Event {
    type V = EventView;

    open spec fn view(&self) -> EventView {
        match self {
            Event::Exited { success, stdout, stderr } => EventView::Exited {
                success: *success,
                stdout: stdout@,
                stderr: stderr@,
            },
            Event::Failed { detail } => EventView::Failed { detail: detail@ },
            Event::Firmware { efi } => EventView::Firmware { efi: *efi },
            Event::Listing { entries } => EventView::Listing { entries: entries.deep_view() },
            Event::Contents { text } => EventView::Contents { text: text@ },
        }
    }
}

/// What a command has come to, by the report `event` of it: its output, or
/// the failure. It has failed where it could not be run and where it ended
/// in failure, unless `tolerant` says that how it ended does not matter; a
/// report of anything but a command is a failure too.
pub open spec fn outcome(command: Seq<Seq<char>>, event: EventView, tolerant: bool) -> Result<
    Seq<char>,
    InstallErrorView,
> {
    match event {
        EventView::Exited { success, stdout, stderr } => if success || tolerant {
            Ok(stdout)
        } else {
            Err(InstallErrorView::Command { command, detail: stderr })
        },
        EventView::Failed { detail } => Err(InstallErrorView::Command { command, detail }),
        _ => Err(InstallErrorView::Unexpected),
    }
}

/// What the command `command` has come to, by the report `event` of it.
pub fn completed(command: &Vec<String>, event: Event, tolerant: bool) -> (r: Result<
    String,
    InstallError,
>)
    ensures
        text_result(r) == outcome(command.deep_view(), event@, tolerant),
{
    match event {
        Event::Exited { success, stdout, stderr } => if success || tolerant {
            Ok(stdout)
        } else {
            Err(InstallError::Command { command: copy_words(command), detail: stderr })
        },
        Event::Failed { detail } => Err(
            InstallError::Command { command: copy_words(command), detail },
        ),
        _ => Err(InstallError::Unexpected),
    }
}

/// Appends `word` to `command`.
pub fn push_word(command: &mut Vec<String>, word: &str)
    ensures
        final(command).deep_view() == old(command).deep_view().push(word@),
{
    command.push(String::from_str(word));
    proof {
        assert(command.deep_view() =~= old(command).deep_view().push(word@));
    }
}

/// A copy of `command`.
pub fn copy_words(command: &Vec<String>) -> (copy: Vec<String>)
    ensures
        copy.deep_view() == command.deep_view(),
{
    let mut copy: Vec<String> = Vec::new();
    let mut i: usize = 0;
    while i < command.len()
        invariant
            i <= command.len(),
            copy.deep_view() == command.deep_view().take(i as int),
        decreases command.len() - i,
    {
        proof {
            assert(command.deep_view().take(i + 1) =~= command.deep_view().take(i as int).push(
                command@[i as int]@,
            ));
        }
        push_word(&mut copy, command[i].as_str());
        i += 1;
    }
    proof {
        assert(command.deep_view().take(i as int) =~= command.deep_view());
    }
    copy
}

/// The program that runs a command with elevated rights.
pub const PKEXEC: &'static str = "pkexec";

/// The directory on which the new system is assembled.
pub const SCRATCH_ROOT: &'static str = "/tmp/icicle";

/// The directory of the new system's configuration, with the stroke after
/// it.
pub const TARGET_DIR: &'static str = "/tmp/icicle/etc/nixos/";

/// Where the privileged helper lies below the directory of helper
/// programs.
pub const HELPER: &'static str = "/icicle-helper";

/// The file of hardware facts, where it is generated.
pub const HARDWARE_FILE: &'static str = "/tmp/icicle/etc/nixos/hardware-configuration.nix";

/// The flat entry file of the generated configuration.
pub const ENTRY_FILE: &'static str = "/tmp/icicle/etc/nixos/configuration.nix";

/// The directory of the systems in the structured layout, with the stroke after it.
pub const SYSTEMS_DIR: &'static str = "/tmp/icicle/etc/nixos/systems/";

/// The name of the file of hardware facts in the structured layout, with the stroke before it.
pub const HARDWARE_NAME: &'static str = "/hardware.nix";

/// The configuration to install from, up to the name of the machine.
pub const FLAKE: &'static str = "/tmp/icicle/etc/nixos#";

/// Between the parts of a path.
pub const STROKE: &'static str = "/";

/// The name of root.
pub const ROOT_NAME: &'static str = "root";

/// Between a name and its password in what the password command reads.
pub const CREDENTIAL_MARK: &'static str = ":";

/// The path of the privileged helper.
pub open spec fn helper_path(libexecdir: Seq<char>) -> Seq<char> {
    libexecdir + HELPER@
}

/// `a + b`.
pub fn joined(a: &str, b: &str) -> (out: String)
    ensures
        out@ == a@ + b@,
{
    let mut out = String::from_str(a);
    out.append(b);
    out
}

/// Asks for the machine's architecture.
pub open spec fn architecture_command() -> Seq<Seq<char>> {
    seq!["uname"@, "-m"@]
}

/// The command that asks for the machine's architecture.
pub fn architecture() -> (command: Vec<String>)
    ensures
        command.deep_view() == architecture_command(),
{
    let mut command: Vec<String> = Vec::new();
    assert(command.deep_view() =~= Seq::<Seq<char>>::empty());
    push_word(&mut command, "uname");
    push_word(&mut command, "-m");
    command
}

/// Asks for the running system's version.
pub open spec fn version_command() -> Seq<Seq<char>> {
    seq!["nixos-version"@]
}

/// The command that asks for the running system's version.
pub fn version() -> (command: Vec<String>)
    ensures
        command.deep_view() == version_command(),
{
    let mut command: Vec<String> = Vec::new();
    assert(command.deep_view() =~= Seq::<Seq<char>>::empty());
    push_word(&mut command, "nixos-version");
    command
}

/// Unmounts what an earlier run left mounted on the scratch root.
pub open spec fn unmount_command() -> Seq<Seq<char>> {
    seq![PKEXEC@, "umount"@, "-R"@, SCRATCH_ROOT@]
}

/// The command that unmounts the scratch root.
pub fn unmount() -> (command: Vec<String>)
    ensures
        command.deep_view() == unmount_command(),
{
    let mut command: Vec<String> = Vec::new();
    assert(command.deep_view() =~= Seq::<Seq<char>>::empty());
    push_word(&mut command, PKEXEC);
    push_word(&mut command, "umount");
    push_word(&mut command, "-R");
    push_word(&mut command, SCRATCH_ROOT);
    command
}

/// Removes what an earlier run left of the scratch root.
pub open spec fn remove_command() -> Seq<Seq<char>> {
    seq![PKEXEC@, "rm"@, "-rf"@, SCRATCH_ROOT@]
}

/// The command that removes the scratch root.
pub fn remove() -> (command: Vec<String>)
    ensures
        command.deep_view() == remove_command(),
{
    let mut command: Vec<String> = Vec::new();
    assert(command.deep_view() =~= Seq::<Seq<char>>::empty());
    push_word(&mut command, PKEXEC);
    push_word(&mut command, "rm");
    push_word(&mut command, "-rf");
    push_word(&mut command, SCRATCH_ROOT);
    command
}

/// Has the helper partition the storage as the layout on its input says.
pub open spec fn partition_command(libexecdir: Seq<char>) -> Seq<Seq<char>> {
    seq![PKEXEC@, helper_path(libexecdir), "partition"@]
}

/// The command that has the helper partition the storage.
pub fn partition(libexecdir: &str) -> (command: Vec<String>)
    ensures
        command.deep_view() == partition_command(libexecdir@),
{
    let mut command: Vec<String> = Vec::new();
    assert(command.deep_view() =~= Seq::<Seq<char>>::empty());
    push_word(&mut command, PKEXEC);
    push_word(&mut command, joined(libexecdir, HELPER).as_str());
    push_word(&mut command, "partition");
    command
}

/// Generates the hardware's base configuration below the scratch root.
pub open spec fn generate_command() -> Seq<Seq<char>> {
    seq![PKEXEC@, "nixos-generate-config"@, "--root"@, SCRATCH_ROOT@]
}

/// The command that generates the base configuration.
pub fn generate() -> (command: Vec<String>)
    ensures
        command.deep_view() == generate_command(),
{
    let mut command: Vec<String> = Vec::new();
    assert(command.deep_view() =~= Seq::<Seq<char>>::empty());
    push_word(&mut command, PKEXEC);
    push_word(&mut command, "nixos-generate-config");
    push_word(&mut command, "--root");
    push_word(&mut command, SCRATCH_ROOT);
    command
}

/// The directory of the hardware facts in the structured layout.
pub open spec fn system_dir(arch: Seq<char>, hostname: Seq<char>) -> Seq<char> {
    SYSTEMS_DIR@ + system_name(arch) + STROKE@ + hostname
}

/// The directory of the hardware facts in the structured layout.
pub fn system_directory(arch: &str, hostname: &str) -> (out: String)
    ensures
        out@ == system_dir(arch@, hostname@),
{
    let mut out = String::from_str(SYSTEMS_DIR);
    out.append(system(arch).as_str());
    out.append(STROKE);
    out.append(hostname);
    out
}

/// Makes the directory of the hardware facts in the structured layout.
pub open spec fn make_dir_command(arch: Seq<char>, hostname: Seq<char>) -> Seq<Seq<char>> {
    seq![PKEXEC@, "mkdir"@, "-p"@, system_dir(arch, hostname)]
}

/// The command that makes the directory of the hardware facts.
pub fn make_dir(arch: &str, hostname: &str) -> (command: Vec<String>)
    ensures
        command.deep_view() == make_dir_command(arch@, hostname@),
{
    let mut command: Vec<String> = Vec::new();
    assert(command.deep_view() =~= Seq::<Seq<char>>::empty());
    push_word(&mut command, PKEXEC);
    push_word(&mut command, "mkdir");
    push_word(&mut command, "-p");
    push_word(&mut command, system_directory(arch, hostname).as_str());
    command
}

/// Moves the generated hardware facts into their directory in the
/// structured layout.
pub open spec fn move_hardware_command(arch: Seq<char>, hostname: Seq<char>) -> Seq<Seq<char>> {
    seq![PKEXEC@, "mv"@, HARDWARE_FILE@, system_dir(arch, hostname) + HARDWARE_NAME@]
}

/// The command that moves the hardware facts into their directory.
pub fn move_hardware(arch: &str, hostname: &str) -> (command: Vec<String>)
    ensures
        command.deep_view() == move_hardware_command(arch@, hostname@),
{
    let mut command: Vec<String> = Vec::new();
    assert(command.deep_view() =~= Seq::<Seq<char>>::empty());
    push_word(&mut command, PKEXEC);
    push_word(&mut command, "mv");
    push_word(&mut command, HARDWARE_FILE);
    push_word(
        &mut command,
        joined(system_directory(arch, hostname).as_str(), HARDWARE_NAME).as_str(),
    );
    command
}

/// Removes the flat entry file, which the structured layout does not have.
pub open spec fn remove_entry_command() -> Seq<Seq<char>> {
    seq![PKEXEC@, "rm"@, ENTRY_FILE@]
}

/// The command that removes the flat entry file.
pub fn remove_entry() -> (command: Vec<String>)
    ensures
        command.deep_view() == remove_entry_command(),
{
    let mut command: Vec<String> = Vec::new();
    assert(command.deep_view() =~= Seq::<Seq<char>>::empty());
    push_word(&mut command, PKEXEC);
    push_word(&mut command, "rm");
    push_word(&mut command, ENTRY_FILE);
    command
}

/// Has the helper write `contents` to the file `path`.
pub open spec fn write_file_command(
    libexecdir: Seq<char>,
    path: Seq<char>,
    contents: Seq<char>,
) -> Seq<Seq<char>> {
    seq![
        PKEXEC@,
        helper_path(libexecdir),
        "write-file"@,
        "--path"@,
        path,
        "--contents"@,
        contents,
    ]
}

/// The command that has the helper write `contents` to the file `path`.
pub fn write_file(libexecdir: &str, path: &str, contents: &str) -> (command: Vec<String>)
    ensures
        command.deep_view() == write_file_command(libexecdir@, path@, contents@),
{
    let mut command: Vec<String> = Vec::new();
    assert(command.deep_view() =~= Seq::<Seq<char>>::empty());
    push_word(&mut command, PKEXEC);
    push_word(&mut command, joined(libexecdir, HELPER).as_str());
    push_word(&mut command, "write-file");
    push_word(&mut command, "--path");
    push_word(&mut command, path);
    push_word(&mut command, "--contents");
    push_word(&mut command, contents);
    command
}

/// Installs the system that the configuration below the scratch root
/// describes under the name `hostname`.
pub open spec fn install_command(hostname: Seq<char>) -> Seq<Seq<char>> {
    seq![
        "/usr/bin/env"@,
        PKEXEC@,
        "nixos-install"@,
        "--root"@,
        SCRATCH_ROOT@,
        "--no-root-passwd"@,
        "--no-channel-copy"@,
        "--flake"@,
        FLAKE@ + hostname,
    ]
}

/// The command that installs the system under the name `hostname`.
pub fn install(hostname: &str) -> (command: Vec<String>)
    ensures
        command.deep_view() == install_command(hostname@),
{
    let mut command: Vec<String> = Vec::new();
    assert(command.deep_view() =~= Seq::<Seq<char>>::empty());
    push_word(&mut command, "/usr/bin/env");
    push_word(&mut command, PKEXEC);
    push_word(&mut command, "nixos-install");
    push_word(&mut command, "--root");
    push_word(&mut command, SCRATCH_ROOT);
    push_word(&mut command, "--no-root-passwd");
    push_word(&mut command, "--no-channel-copy");
    push_word(&mut command, "--flake");
    push_word(&mut command, joined(FLAKE, hostname).as_str());
    command
}

/// Sets passwords inside the new system, as its input names them.
pub open spec fn password_command() -> Seq<Seq<char>> {
    seq![PKEXEC@, "nixos-enter"@, "--root"@, SCRATCH_ROOT@, "-c"@, "chpasswd"@]
}

/// The command that sets passwords inside the new system.
pub fn password() -> (command: Vec<String>)
    ensures
        command.deep_view() == password_command(),
{
    let mut command: Vec<String> = Vec::new();
    assert(command.deep_view() =~= Seq::<Seq<char>>::empty());
    push_word(&mut command, PKEXEC);
    push_word(&mut command, "nixos-enter");
    push_word(&mut command, "--root");
    push_word(&mut command, SCRATCH_ROOT);
    push_word(&mut command, "-c");
    push_word(&mut command, "chpasswd");
    command
}

/// What the password command reads to give `name` the password `secret`.
pub open spec fn credential_line(name: Seq<char>, secret: Seq<char>) -> Seq<char> {
    name + CREDENTIAL_MARK@ + secret
}

/// What the password command reads to give `name` the password `secret`.
pub fn credential(name: &str, secret: &str) -> (out: String)
    ensures
        out@ == credential_line(name@, secret@),
{
    let mut out = String::from_str(name);
    out.append(CREDENTIAL_MARK);
    out.append(secret);
    out
}

} // verus!

