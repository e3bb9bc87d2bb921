//! The typed events that describe every observable step of a run.
use vstd::prelude::*;

use crate::config::Config;
use crate::errors::CargoMSRVError;
use crate::search::SearchMethod;
use crate::toolchain::OwnedToolchainSpec;
use crate::version::{BareVersion, Version};

verus! {

/// Whether an event opens or closes a scope of work.
#[derive(Clone, Copy, Debug, PartialEq, Eq, Structural)]
pub enum EventScope {
    Start,
    End,
}

/// One event: a message, and for a scoped event, which end of the scope it is.
#[derive(Clone, Debug, PartialEq)]
pub struct Event {
    pub message: Message,
    pub scope: Option<EventScope>,
}

/// Every kind of step a run reports.
#[derive(Clone, Debug, PartialEq)]
pub enum Message {
    Meta(Meta),
    FetchIndex(FetchIndex),
    SetupToolchain(SetupToolchain),
    NewCompatibilityCheck(NewCompatibilityCheck),
    CompatibilityCheckMethod(CompatibilityCheckMethod),
    Compatibility(Compatibility),
    MsrvResult(MsrvResult),
    Search(Search),
    Progress(Progress),
    CheckToolchain(CheckToolchain),
    TerminateWithFailure(TerminateWithFailure),
}

impl Event {
    /// A single-shot event.
    pub fn new(message: Message) -> (r: Event)
        ensures
            r == (Event { message, scope: None }),
    {
        Event { message, scope: None }
    }

    /// One end of a scoped event.
    pub fn scoped(message: Message, scope: EventScope) -> (r: Event)
        ensures
            r == (Event { message, scope: Some(scope) }),
    {
        Event { message, scope: Some(scope) }
    }

    pub fn message(&self) -> (r: &Message)
        ensures
            *r == self.message,
    {
        &self.message
    }

    pub fn scope(&self) -> (r: Option<EventScope>)
        ensures
            r == self.scope,
    {
        self.scope
    }

    /// `true` for the start of a scope, and for an event without a scope.
    pub fn is_scope_start(&self) -> (r: bool)
        ensures
            r == (self.scope != Some(EventScope::End)),
    {
        match self.scope {
            None => true,
            Some(EventScope::Start) => true,
            Some(EventScope::End) => false,
        }
    }
}

impl From<Message> for Event {
    fn from(message: Message) -> (r: Event) {
        Event { message, scope: None }
    }
}

impl vstd::std_specs::convert::FromSpecImpl<Message> for Event {
    open spec fn obeys_from_spec() -> bool {
        true
    }

    open spec fn from_spec(message: Message) -> Event {
        Event { message, scope: None }
    }
}

/// The tool and the context it runs in.
#[derive(Clone, Debug, PartialEq)]
pub struct Meta {
    pub instance: String,
    pub version: String,
}

/// Where the release index was fetched from.
#[derive(Clone, Copy, Debug, PartialEq, Eq, Structural)]
pub enum ReleaseSource {
    RustChangelog,
    RustDist,
}

/// Fetching the release index.
#[derive(Clone, Debug, PartialEq)]
pub struct FetchIndex {
    pub from_source: ReleaseSource,
}

impl FetchIndex {
    pub fn new(source: ReleaseSource) -> (r: FetchIndex)
        ensures
            r.from_source == source,
    {
        FetchIndex { from_source: source }
    }
}

/// Installing a toolchain.
#[derive(Clone, Debug, PartialEq)]
pub struct SetupToolchain {
    pub toolchain: OwnedToolchainSpec,
}

/// Probing one candidate release.
#[derive(Clone, Debug, PartialEq)]
pub struct NewCompatibilityCheck {
    pub toolchain: OwnedToolchainSpec,
}

/// Checking one toolchain: preparing it, running the command, reporting.
#[derive(Clone, Debug, PartialEq)]
pub struct CheckToolchain {
    pub toolchain: OwnedToolchainSpec,
}

impl CheckToolchain {
    pub fn new(toolchain: OwnedToolchainSpec) -> (r: CheckToolchain)
        ensures
            r.toolchain == toolchain,
    {
        CheckToolchain { toolchain }
    }
}

/// How a toolchain is checked.
#[derive(Clone, Debug, PartialEq)]
pub struct CompatibilityCheckMethod {
    pub toolchain: OwnedToolchainSpec,
    pub method: Method,
}

impl CompatibilityCheckMethod {
    pub fn new(toolchain: OwnedToolchainSpec, method: Method) -> (r: CompatibilityCheckMethod)
        ensures
            r.toolchain == toolchain,
            r.method == method,
    {
        CompatibilityCheckMethod { toolchain, method }
    }
}

/// The way the verification command is run.
#[derive(Clone, Debug, PartialEq)]
pub enum Method {
    /// Through the toolchain manager's "run under this toolchain" command.
    RustupRun { args: Vec<String>, path: Option<String> },
}

impl Method {
    pub fn rustup_run(args: Vec<String>, path: Option<String>) -> (r: Method)
        ensures
            r == (Method::RustupRun { args, path }),
    {
        Method::RustupRun { args, path }
    }
}

/// The verdict on one toolchain.
#[derive(Clone, Debug, PartialEq)]
pub struct Compatibility {
    pub toolchain: OwnedToolchainSpec,
    pub decision: bool,
    pub compatibility_report: CompatibilityReport,
}

/// Whether a toolchain passed the check, with the captured error output if not.
#[derive(Clone, Debug, PartialEq)]
pub enum CompatibilityReport {
    Compatible,
    Incompatible { error: Option<String> },
}

impl Compatibility {
    pub fn compatible(toolchain: OwnedToolchainSpec) -> (r: Compatibility)
        ensures
            r.toolchain == toolchain,
            r.decision,
            r.compatibility_report == CompatibilityReport::Compatible,
    {
        Compatibility {
            toolchain,
            decision: true,
            compatibility_report: CompatibilityReport::Compatible,
        }
    }

    pub fn incompatible(toolchain: OwnedToolchainSpec, error: Option<String>) -> (r: Compatibility)
        ensures
            r.toolchain == toolchain,
            !r.decision,
            r.compatibility_report == (CompatibilityReport::Incompatible { error }),
    {
        Compatibility {
            toolchain,
            decision: false,
            compatibility_report: CompatibilityReport::Incompatible { error },
        }
    }
}

/// Where a search stands: the release being probed and how many probes so far.
#[derive(Clone, Debug, PartialEq)]
pub struct Progress {
    pub current: Version,
    pub search_space_size: u64,
    pub iteration: u64,
}

/// The search method a run uses.
#[derive(Clone, Debug, PartialEq)]
pub struct Search {
    pub search_method: SearchMethod,
}

/// The run ends with an error.
#[derive(Clone, Debug, PartialEq)]
pub struct TerminateWithFailure {
    pub error: CargoMSRVError,
}

/// Whether a search determined a version.
#[derive(Clone, Debug, PartialEq)]
pub enum ResultDetails {
    Determined { version: Version },
    Undetermined,
}

/// The outcome of a search, with the window it searched.
#[derive(Clone, Debug, PartialEq)]
pub struct MsrvResult {
    pub target: String,
    pub minimum_version: BareVersion,
    pub maximum_version: BareVersion,
    pub search_method: SearchMethod,
    pub result: ResultDetails,
}

/// A configured bound, or else the one the releases give.
pub open spec fn bound_or(configured: Option<BareVersion>, fallback: BareVersion) -> BareVersion {
    match configured {
        Some(b) => b,
        None => fallback,
    }
}

impl MsrvResult {
    /// A search that determined `version`. A configured bound is reported in
    /// place of the one the searched releases give.
    pub fn new_msrv(version: Version, config: &Config, min: BareVersion, max: BareVersion) -> (r:
        MsrvResult)
        ensures
            r.target@ == config.target@,
            r.minimum_version == bound_or(config.minimum_version, min),
            r.maximum_version == bound_or(config.maximum_version, max),
            r.search_method == config.search_method,
            r.result == (ResultDetails::Determined { version }),
    {
        MsrvResult {
            target: String::from_str(config.target()),
            minimum_version: match config.minimum_version() {
                Some(b) => b,
                None => min,
            },
            maximum_version: match config.maximum_version() {
                Some(b) => b,
                None => max,
            },
            search_method: config.search_method(),
            result: ResultDetails::Determined { version },
        }
    }

    /// A search that determined no version.
    pub fn none(config: &Config, min: BareVersion, max: BareVersion) -> (r: MsrvResult)
        ensures
            r.target@ == config.target@,
            r.minimum_version == bound_or(config.minimum_version, min),
            r.maximum_version == bound_or(config.maximum_version, max),
            r.search_method == config.search_method,
            r.result == ResultDetails::Undetermined,
    {
        MsrvResult {
            target: String::from_str(config.target()),
            minimum_version: match config.minimum_version() {
                Some(b) => b,
                None => min,
            },
            maximum_version: match config.maximum_version() {
                Some(b) => b,
                None => max,
            },
            search_method: config.search_method(),
            result: ResultDetails::Undetermined,
        }
    }

    /// The version determined, if any.
    pub fn msrv(&self) -> (r: Option<&Version>)
        ensures
            match self.result {
                ResultDetails::Determined { version } => r == Some(&version),
                ResultDetails::Undetermined => r == None::<&Version>,
            },
    {
        match &self.result {
            ResultDetails::Determined { version } => Some(version),
            ResultDetails::Undetermined => None,
        }
    }

    /// The `success` flag of the result: whether a version was determined.
    pub fn success(&self) -> (r: bool)
        ensures
            r == (self.result != ResultDetails::Undetermined),
    {
        match &self.result {
            ResultDetails::Determined { .. } => true,
            ResultDetails::Undetermined => false,
        }
    }
}

} // verus!
