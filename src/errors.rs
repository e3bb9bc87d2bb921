//! The failures that end a run.
use vstd::prelude::*;

use crate::toolchain::OwnedToolchainSpec;
use crate::version::{BareVersion, Version};

verus! {

/// Why a run could not produce an answer.
///
/// A toolchain that simply fails the check is no error: it is reported as
/// incompatible and the search goes on.
#[derive(Clone, Debug, PartialEq)]
pub enum CargoMSRVError {
    DefaultHostTripleNotFound,
    GenericMessage(String),
    /// A file system or process operation failed; the text is the cause.
    Io(String, IoErrorSource),
    InvalidConfig(String),
    NoCrateRootFound,
    NoVersionMatchesManifestMSRV(BareVersion, Vec<Version>),
    NoMSRVKeyInCargoToml(String),
    RustReleasesEmptyReleaseSet,
    RustReleasesSourceParseError(String),
    RustupInstallFailed(OwnedToolchainSpec),
    RustupRunWithCommandFailed,
    ToolchainNotInstalled,
    UnknownTarget,
    UnableToAccessLogFolder,
    UnableToCacheChannelManifest,
    UnableToFindAnyGoodVersion { command: String },
    UnableToInitTracing,
    UnableToParseCliArgs,
    UnableToParseRustVersion,
    UnableToRunCheck,
}

/// The operation behind an `Io` error, with the path or program it concerned.
#[derive(Clone, Debug, PartialEq)]
pub enum IoErrorSource {
    CurrentDir,
    ReadFile { path: String },
    WriteFile { path: String },
    RemoveFile { path: String },
    RenameFile { path: String },
    SpawnProcess { name: String },
    WaitForProcessAndCollectOutput { name: String },
}

pub type TResult<T> = Result<T, CargoMSRVError>;

impl From<String> for CargoMSRVError {
    fn from(msg: String) -> (r: CargoMSRVError) {
        CargoMSRVError::GenericMessage(msg)
    }
}

impl vstd::std_specs::convert::FromSpecImpl<String> for CargoMSRVError {
    open spec fn obeys_from_spec() -> bool {
        true
    }

    open spec fn from_spec(msg: String) -> CargoMSRVError {
        CargoMSRVError::GenericMessage(msg)
    }
}

} // verus!
