use vstd::prelude::*;
use vstd::string::StringExecFns;

verus! {

/// Error taxonomy of the backup core. Every fallible operation returns one of
/// these; no error kind is swallowed or retried internally.
#[derive(Debug)]
pub enum BackupError {
    /// A filesystem read, write, copy or directory operation failed.
    IoError(String),
    /// The in-process delta codec rejected its input: the delta does not fit
    /// the supplied base, or is truncated or corrupt.
    CodecError(String),
    /// The out-of-process delta tool exited with a non-zero status.
    ExternalToolError { exit_code: i32, stderr: String },
    /// Chain resolution exhausted every naming heuristic; the field holds the
    /// base name that was guessed from the delta's file name.
    MissingBaseError { guessed_name: String },
    /// The working file path has no file-name component.
    InvalidNameError,
}

/// The rendering of an error, distinguishing every kind by a fixed prefix.
pub open spec fn message_chars(e: BackupError) -> Seq<char> {
    match e {
        BackupError::IoError(m) => "io error: "@ + m@,
        BackupError::CodecError(m) => "codec error (delta does not fit base, or corrupt): "@ + m@,
        BackupError::ExternalToolError { exit_code: _, stderr } => "external tool error: "@
            + stderr@,
        BackupError::MissingBaseError { guessed_name } => "base file (.base) not found: "@
            + guessed_name@,
        BackupError::InvalidNameError => "invalid work file name"@,
    }
}

impl BackupError {
    /// Renders the error for the caller to display; each kind is visibly
    /// distinct, so a wrong base reads differently from a disk failure.
    pub fn message(&self) -> (r: String)
        ensures
            r@ == message_chars(*self),
    {
        match self {
            BackupError::IoError(m) => String::from_str("io error: ").concat(m.as_str()),
            BackupError::CodecError(m) => String::from_str(
                "codec error (delta does not fit base, or corrupt): ",
            ).concat(m.as_str()),
            BackupError::ExternalToolError { exit_code: _, stderr } => String::from_str(
                "external tool error: ",
            ).concat(stderr.as_str()),
            BackupError::MissingBaseError { guessed_name } => String::from_str(
                "base file (.base) not found: ",
            ).concat(guessed_name.as_str()),
            BackupError::InvalidNameError => String::from_str("invalid work file name"),
        }
    }
}

} // verus!
