//! What can go wrong.
use vstd::prelude::*;
use vstd::string::*;

verus! {

/// The kinds of failed input or output that are told apart.
#[derive(Debug, Clone, Copy, PartialEq, Eq, Structural)]
pub enum IoErrorKind {
    /// Something does not exist.
    NotFound,
    /// Data is not what it should be.
    InvalidData,
    /// A parameter is not what it should be.
    InvalidInput,
    /// A stream ended too early.
    UnexpectedEof,
    /// Anything else.
    Other,
}

/// A failed input or output.
#[derive(Debug, Clone, PartialEq, Eq)]
pub struct IoError {
    /// What kind of failure it is.
    pub kind: IoErrorKind,
    /// What happened.
    pub message: String,
}

impl IoError {
    /// A failure of the given kind.
    pub fn new(kind: IoErrorKind, message: &str) -> (e: Self)
        ensures
            e.kind == kind,
            e.message@ == message@,
    {
        IoError { kind, message: message.to_owned() }
    }

    /// Whether this is the failure of the given kind with the given message.
    pub open spec fn says(self, kind: IoErrorKind, message: Seq<char>) -> bool {
        self.kind == kind && self.message@ == message
    }
}

/// Errors of linking a package into an environment.
#[derive(Debug, Clone, PartialEq, Eq)]
pub enum InstallError {
    /// The target prefix is not UTF-8.
    TargetPrefixIsNotUtf8,
    /// The operation was cancelled.
    Cancelled,
    /// Linking failed for the reason given.
    LinkFailed(String),
}

/// Errors of installing a wheel.
#[derive(Debug, Clone, PartialEq, Eq)]
pub enum WheelInstallError {
    /// The wheel at the given URL could not be downloaded, cached or
    /// extracted, for the reason given.
    FailedToFetch(String, String),
    /// The wheel's `RECORD` file could not be read.
    FailedToReadRecord(IoError),
    /// The wheel's `entry_points.txt` file could not be read.
    FailedToReadEntryPoints(IoError),
    /// The wheel's files could not be linked into the environment.
    Install(InstallError),
    /// Input or output failed.
    Io(IoError),
}

impl From<InstallError> for WheelInstallError {
    fn from(e: InstallError) -> Self {
        WheelInstallError::Install(e)
    }
}

impl vstd::std_specs::convert::FromSpecImpl<InstallError> for WheelInstallError {
    open spec fn obeys_from_spec() -> bool {
        true
    }

    open spec fn from_spec(e: InstallError) -> Self {
        WheelInstallError::Install(e)
    }
}

impl From<IoError> for WheelInstallError {
    fn from(e: IoError) -> Self {
        WheelInstallError::Io(e)
    }
}

impl vstd::std_specs::convert::FromSpecImpl<IoError> for WheelInstallError {
    open spec fn obeys_from_spec() -> bool {
        true
    }

    open spec fn from_spec(e: IoError) -> Self {
        WheelInstallError::Io(e)
    }
}

/// Errors of reading a zip archive.
#[derive(Debug, Clone, PartialEq, Eq)]
pub enum ZipError {
    /// The archive needs something that is not supported, such as a stream that
    /// could be read in any order.
    UnsupportedArchive(String),
    /// Anything else, with what happened.
    Other(String),
}

/// What an error of reading a zip archive says.
#[verifier::ext_equal]
pub enum ZipErrorView {
    /// The archive needs something that is not supported.
    UnsupportedArchive(Seq<char>),
    /// Anything else.
    Other(Seq<char>),
}

impl View for ZipError {
    type V = ZipErrorView;

    open spec fn view(&self) -> ZipErrorView {
        match self {
            ZipError::UnsupportedArchive(reason) => ZipErrorView::UnsupportedArchive(reason@),
            ZipError::Other(message) => ZipErrorView::Other(message@),
        }
    }
}

/// Errors of reading or extracting a package archive.
#[derive(Debug, Clone, PartialEq, Eq)]
pub enum ExtractError {
    /// Input or output failed.
    IoError(IoError),
    /// The directory to extract to could not be made.
    CouldNotCreateDestination(IoError),
    /// The zip archive could not be read.
    ZipError(ZipError),
    /// A part of the archive is compressed in a way that is not supported.
    UnsupportedCompressionMethod,
    /// A part that the archive should have is missing.
    MissingComponent,
    /// The file is no package archive.
    UnsupportedArchiveType,
    /// The file at the given path in the archive could not be understood.
    ArchiveMemberParseError(String, IoError),
}

/// Errors of describing a local package file.
#[derive(Debug, Clone, PartialEq, Eq)]
pub enum LocalPackageRecordError {
    /// The package archive could not be read.
    Extract(ExtractError),
    /// The size or the hash of the file could not be computed.
    Io(IoError),
    /// The archive's `index.json` does not describe a package.
    Convert(String),
    /// The path is not that of a package archive, or makes no URL.
    InvalidPath(String),
    /// The operation was cancelled.
    Cancelled,
}

impl From<ExtractError> for LocalPackageRecordError {
    fn from(e: ExtractError) -> Self {
        LocalPackageRecordError::Extract(e)
    }
}

impl vstd::std_specs::convert::FromSpecImpl<ExtractError> for LocalPackageRecordError {
    open spec fn obeys_from_spec() -> bool {
        true
    }

    open spec fn from_spec(e: ExtractError) -> Self {
        LocalPackageRecordError::Extract(e)
    }
}

impl From<IoError> for LocalPackageRecordError {
    fn from(e: IoError) -> Self {
        LocalPackageRecordError::Io(e)
    }
}

impl vstd::std_specs::convert::FromSpecImpl<IoError> for LocalPackageRecordError {
    open spec fn obeys_from_spec() -> bool {
        true
    }

    open spec fn from_spec(e: IoError) -> Self {
        LocalPackageRecordError::Io(e)
    }
}

} // verus!
