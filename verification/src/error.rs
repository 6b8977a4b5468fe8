//! The errors of this crate, and their English wording.
use crate::text::{decimal, decimal_chars, push_all, push_str, string_of, trim, trim_str};
use std::io;
use vstd::prelude::*;

verus! {

/// `std::io::Error`, carried through unchanged.
#[verifier::external_type_specification]
#[verifier::external_body]
pub struct ExIoError(io::Error);

/// Validation / configuration problems that get shown to the user.
/// Kept as a key (not a message) so `i18n` can word it in either language.
#[derive(Debug, Clone, Copy, PartialEq, Eq, Structural)]
pub enum Invalid {
    KubeUser,
    SavedCredentials,
    SetupPrerequisite,
    UnsupportedPlatform,
    DownloadVerification,
    PodName,
    CpuValue,
    MemoryValue,
    NoReleaseLabel,
    ReleaseChanged,
}

#[derive(Debug)]
pub enum ThumedError {
    Io(io::Error),
    /// Executable not found on PATH (kubectl / helm).
    MissingTool(String),
    /// kubeconfig itself is absent.
    MissingKubeconfig(String),
    CommandFailed { cmd: String, stderr: String },
    PodNotFound(String),
    PodStartupFailed { release: String, detail: String },
    PodStartupTimeout { seconds: u64, detail: String },
    Invalid(Invalid),
}

pub type Result<T> = std::result::Result<T, ThumedError>;

/// The English sentence for each kind of invalid input.
pub open spec fn invalid_message(kind: Invalid) -> Seq<char> {
    match kind {
        Invalid::KubeUser => "The active kubeconfig context has no valid username."@,
        Invalid::SavedCredentials => "Invalid saved account or password. Update user information."@,
        Invalid::SetupPrerequisite => "Skipped because a prerequisite check failed."@,
        Invalid::UnsupportedPlatform => "Automatic installation supports macOS, Linux and Windows on x86_64/arm64."@,
        Invalid::DownloadVerification => "Download verification failed; no tool was installed."@,
        Invalid::PodName => "Pod name must contain only lowercase letters and numbers."@,
        Invalid::CpuValue => "CPU cores must be a whole number between 1 and 255."@,
        Invalid::MemoryValue => "Memory GB must be a whole number between 1 and 255."@,
        Invalid::NoReleaseLabel => "Pod has no Helm release label."@,
        Invalid::ReleaseChanged => "Pod Helm release changed; select the pod again."@,
    }
}

impl Invalid {
    /// English fallback; `i18n::error_text` provides the localized version.
    pub fn as_str(self) -> (s: &'static str)
        ensures
            s@ == invalid_message(self),
    {
        match self {
            Self::KubeUser => "The active kubeconfig context has no valid username.",
            Self::SavedCredentials => "Invalid saved account or password. Update user information.",
            Self::SetupPrerequisite => "Skipped because a prerequisite check failed.",
            Self::UnsupportedPlatform => "Automatic installation supports macOS, Linux and Windows on x86_64/arm64.",
            Self::DownloadVerification => "Download verification failed; no tool was installed.",
            Self::PodName => "Pod name must contain only lowercase letters and numbers.",
            Self::CpuValue => "CPU cores must be a whole number between 1 and 255.",
            Self::MemoryValue => "Memory GB must be a whole number between 1 and 255.",
            Self::NoReleaseLabel => "Pod has no Helm release label.",
            Self::ReleaseChanged => "Pod Helm release changed; select the pod again.",
        }
    }
}

/// The message of an I/O error (`io::Error`'s `Display`). What it says comes
/// from the error and, for errors of the operating system, from the system:
/// nothing is stated of it.
#[verifier::external_body]
pub(crate) fn io_error_text(e: &io::Error) -> String {
    e.to_string()
}

/// The I/O error of kind `InvalidData` with the message `msg`
/// (`io::Error::new`). The value is opaque here: nothing is stated of it.
#[verifier::external_body]
pub(crate) fn invalid_data_error(msg: &str) -> io::Error {
    io::Error::new(io::ErrorKind::InvalidData, msg)
}

/// The I/O error of kind `AlreadyExists` with the message `msg`
/// (`io::Error::new`). The value is opaque here: nothing is stated of it.
#[verifier::external_body]
pub(crate) fn already_exists_error(msg: &str) -> io::Error {
    io::Error::new(io::ErrorKind::AlreadyExists, msg)
}

/// The English message of each error;
/// for an I/O error, the part after the prefix is the I/O error's own message.
pub open spec fn error_message(e: &ThumedError, io_text: Seq<char>) -> Seq<char> {
    match e {
        ThumedError::Io(_) => "IO error: "@ + io_text,
        ThumedError::MissingTool(tool) => "'"@ + tool@ + "' was not found on PATH"@,
        ThumedError::MissingKubeconfig(path) => "kubeconfig '"@ + path@ + "' was not found"@,
        ThumedError::CommandFailed { cmd, stderr } => "Command '"@ + cmd@ + "' failed: "@ + trim(
            stderr@,
        ),
        ThumedError::PodNotFound(name) => "Pod '"@ + name@ + "' not found"@,
        ThumedError::PodStartupFailed { release, detail } => "Pod startup failed for release '"@
            + release@ + "': "@ + detail@,
        ThumedError::PodStartupTimeout { seconds, detail } => "Pod Running was not confirmed within "@
            + decimal(*seconds as nat) + " seconds: "@ + detail@,
        ThumedError::Invalid(kind) => invalid_message(*kind),
    }
}

impl ThumedError {
    /// The English message of the error.
    pub fn to_string(&self) -> (s: String)
        ensures
            exists|io_text: Seq<char>| s@ == error_message(self, io_text),
            !(self is Io) ==> s@ == error_message(self, Seq::empty()),
    {
        let mut out: Vec<char> = Vec::new();
        let ghost mut io_text: Seq<char> = Seq::empty();
        match self {
            ThumedError::Io(e) => {
                let text = io_error_text(e);
                push_str(&mut out, "IO error: ");
                push_str(&mut out, text.as_str());
                proof {
                    io_text = text@;
                }
            },
            ThumedError::MissingTool(tool) => {
                push_str(&mut out, "'");
                push_str(&mut out, tool.as_str());
                push_str(&mut out, "' was not found on PATH");
            },
            ThumedError::MissingKubeconfig(path) => {
                push_str(&mut out, "kubeconfig '");
                push_str(&mut out, path.as_str());
                push_str(&mut out, "' was not found");
            },
            ThumedError::CommandFailed { cmd, stderr } => {
                push_str(&mut out, "Command '");
                push_str(&mut out, cmd.as_str());
                push_str(&mut out, "' failed: ");
                let t = trim_str(stderr.as_str());
                push_str(&mut out, t.as_str());
            },
            ThumedError::PodNotFound(name) => {
                push_str(&mut out, "Pod '");
                push_str(&mut out, name.as_str());
                push_str(&mut out, "' not found");
            },
            ThumedError::PodStartupFailed { release, detail } => {
                push_str(&mut out, "Pod startup failed for release '");
                push_str(&mut out, release.as_str());
                push_str(&mut out, "': ");
                push_str(&mut out, detail.as_str());
            },
            ThumedError::PodStartupTimeout { seconds, detail } => {
                push_str(&mut out, "Pod Running was not confirmed within ");
                let n = decimal_chars(*seconds);
                push_all(&mut out, n.as_slice());
                push_str(&mut out, " seconds: ");
                push_str(&mut out, detail.as_str());
            },
            ThumedError::Invalid(kind) => {
                push_str(&mut out, kind.as_str());
            },
        }
        assert(out@ == error_message(self, io_text));
        string_of(out.as_slice())
    }

    /// The underlying I/O error, for an I/O error.
    pub fn source(&self) -> (r: Option<&io::Error>)
        ensures
            r is Some <==> self is Io,
            self matches ThumedError::Io(e) ==> r == Some(e),
    {
        match self {
            ThumedError::Io(e) => Some(e),
            _ => None,
        }
    }
}

impl From<io::Error> for ThumedError {
    fn from(e: io::Error) -> (r: Self) {
        ThumedError::Io(e)
    }
}

impl vstd::std_specs::convert::FromSpecImpl<io::Error> for ThumedError {
    open spec fn obeys_from_spec() -> bool {
        true
    }

    open spec fn from_spec(v: io::Error) -> Self {
        ThumedError::Io(v)
    }
}

impl From<Invalid> for ThumedError {
    fn from(kind: Invalid) -> (r: Self) {
        ThumedError::Invalid(kind)
    }
}

impl vstd::std_specs::convert::FromSpecImpl<Invalid> for ThumedError {
    open spec fn obeys_from_spec() -> bool {
        true
    }

    open spec fn from_spec(v: Invalid) -> Self {
        ThumedError::Invalid(v)
    }
}

} // verus!
