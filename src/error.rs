//! The ways an installation can fail.
use vstd::prelude::*;

verus! {

/// Why an installation step failed.
#[derive(Clone, Debug, PartialEq, Eq)]
pub enum InstallError {
    /// The archive to install does not exist.
    ArchiveNotFound,
    /// The decompression tool did not exit cleanly.
    ExtractionFailed,
    /// Extraction produced no entries.
    EmptyArchive,
    /// No directory of the install root could be taken for the application.
    FolderNotFound,
    /// The scanned directory holds no executable file.
    NoExecutableFound,
    /// A selected number is outside the offered range.
    InvalidSelection,
    /// A selection holds something that is not a number.
    InvalidInput,
    /// A path yields no usable file or directory name.
    InvalidName,
    /// A filesystem operation failed; the text describes the cause.
    IoError(String),
}

} // verus!
