//! Why an installation was given up.

use vstd::prelude::*;

verus! {

/// The cause of a failed installation.
#[derive(Clone, Debug, PartialEq, Eq)]
pub enum InstallError {
    /// No partition layout was given.
    NoPartitions,
    /// A boot loader without UEFI is wanted and the layout names no device
    /// for it.
    NoBootDevice,
    /// The system's version is too short to take the state version from.
    NoVersion,
    /// No user is configured, or the user's machine has no name.
    NoHostname,
    /// No user name was kept for setting the passwords.
    NoUsername,
    /// No password was kept for the user.
    NoPassword,
    /// A command could not be run, or ended in failure.
    Command {
        /// The command, program first.
        command: Vec<String>,
        /// What it wrote to its error stream, or why it could not be run.
        detail: String,
    },
    /// The templates could not be read.
    Templates {
        /// Why not.
        detail: String,
    },
    /// Something was reported that the pipeline was not waiting for.
    Unexpected,
}

/// An `InstallError` as mathematical data.
pub enum InstallErrorView {
    NoPartitions,
    NoBootDevice,
    NoVersion,
    NoHostname,
    NoUsername,
    NoPassword,
    Command { command: Seq<Seq<char>>, detail: Seq<char> },
    Templates { detail: Seq<char> },
    Unexpected,
}

impl View for InstallError {
    type V = InstallErrorView;

    open spec fn view(&self) -> InstallErrorView {
        match self {
            InstallError::NoPartitions => InstallErrorView::NoPartitions,
            InstallError::NoBootDevice => InstallErrorView::NoBootDevice,
            InstallError::NoVersion => InstallErrorView::NoVersion,
            InstallError::NoHostname => InstallErrorView::NoHostname,
            InstallError::NoUsername => InstallErrorView::NoUsername,
            InstallError::NoPassword => InstallErrorView::NoPassword,
            InstallError::Command { command, detail } => InstallErrorView::Command {
                command: command.deep_view(),
                detail: detail@,
            },
            InstallError::Templates { detail } => InstallErrorView::Templates { detail: detail@ },
            InstallError::Unexpected => InstallErrorView::Unexpected,
        }
    }
}

impl DeepView for InstallError {
    type V = InstallErrorView;

    open spec fn deep_view(&self) -> InstallErrorView {
        self.view()
    }
}

/// A result with its text as mathematical data.
pub open spec fn text_result(r: Result<String, InstallError>) -> Result<
    Seq<char>,
    InstallErrorView,
> {
    match r {
        Ok(text) => Ok(text@),
        Err(e) => Err(e@),
    }
}

/// The words of `InstallError::NoPartitions`.
pub const NO_PARTITIONS: &'static str = "No partitions specified";

/// The words of `InstallError::NoBootDevice`.
pub const NO_BOOT_DEVICE: &'static str = "Failed to get bootloader disk: no boot device";

/// The words of `InstallError::NoVersion`.
pub const NO_VERSION: &'static str = "Failed to get nixos version";

/// The words of `InstallError::NoHostname`.
pub const NO_HOSTNAME: &'static str = "No hostname found";

/// The words of `InstallError::NoUsername`.
pub const NO_USERNAME: &'static str = "No username found";

/// The words of `InstallError::NoPassword`.
pub const NO_PASSWORD: &'static str = "No password found";

/// What stands before a failed command.
pub const COMMAND_FAILED: &'static str = "Command failed: ";

/// What stands before the reason why the templates could not be read.
pub const NO_TEMPLATES: &'static str = "Failed to read templates: ";

/// The words of `InstallError::Unexpected`.
pub const UNEXPECTED: &'static str = "Unexpected message";

/// Between a command and its diagnostic text.
pub const DETAIL_MARK: &'static str = ": ";

/// Between the words of a command.
pub const WORD_GAP: &'static str = " ";

/// The words of `command` with a space between them.
pub open spec fn spelled(command: Seq<Seq<char>>) -> Seq<char>
    decreases command.len(),
{
    if command.len() == 0 {
        Seq::empty()
    } else if command.len() == 1 {
        command[0]
    } else {
        spelled(command.drop_last()) + WORD_GAP@ + command.last()
    }
}

impl InstallErrorView {
    /// The error in words: for a failed command, the command and its
    /// diagnostic text.
    pub open spec fn message(self) -> Seq<char> {
        match self {
            InstallErrorView::NoPartitions => NO_PARTITIONS@,
            InstallErrorView::NoBootDevice => NO_BOOT_DEVICE@,
            InstallErrorView::NoVersion => NO_VERSION@,
            InstallErrorView::NoHostname => NO_HOSTNAME@,
            InstallErrorView::NoUsername => NO_USERNAME@,
            InstallErrorView::NoPassword => NO_PASSWORD@,
            InstallErrorView::Command { command, detail } => COMMAND_FAILED@ + spelled(command)
                + DETAIL_MARK@ + detail,
            InstallErrorView::Templates { detail } => NO_TEMPLATES@ + detail,
            InstallErrorView::Unexpected => UNEXPECTED@,
        }
    }
}

impl InstallError {
    /// The error in words.
    pub fn message(&self) -> (out: String)
        ensures
            out@ == self@.message(),
    {
        match self {
            InstallError::NoPartitions => String::from_str(NO_PARTITIONS),
            InstallError::NoBootDevice => String::from_str(NO_BOOT_DEVICE),
            InstallError::NoVersion => String::from_str(NO_VERSION),
            InstallError::NoHostname => String::from_str(NO_HOSTNAME),
            InstallError::NoUsername => String::from_str(NO_USERNAME),
            InstallError::NoPassword => String::from_str(NO_PASSWORD),
            InstallError::Command { command, detail } => {
                let mut out = String::from_str(COMMAND_FAILED);
                let mut i: usize = 0;
                while i < command.len()
                    invariant
                        i <= command.len(),
                        out@ == COMMAND_FAILED@ + spelled(command.deep_view().take(i as int)),
                    decreases command.len() - i,
                {
                    proof {
                        let all = command.deep_view();
                        assert(all.take(i + 1).drop_last() =~= all.take(i as int));
                        assert(all.take(i + 1).last() == command@[i as int]@);
                        assert(all.take(i + 1)[0] == all[0]);
                        assert(COMMAND_FAILED@ + Seq::<char>::empty() =~= COMMAND_FAILED@);
                    }
                    if i > 0 {
                        out.append(WORD_GAP);
                    }
                    out.append(command[i].as_str());
                    i += 1;
                }
                proof {
                    assert(command.deep_view().take(i as int) =~= command.deep_view());
                }
                out.append(DETAIL_MARK);
                out.append(detail.as_str());
                out
            },
            InstallError::Templates { detail } => {
                let mut out = String::from_str(NO_TEMPLATES);
                out.append(detail.as_str());
                out
            },
            InstallError::Unexpected => String::from_str(UNEXPECTED),
        }
    }
}

} // verus!
