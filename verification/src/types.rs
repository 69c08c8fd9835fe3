//! Data model: package records, snapshots, progress messages, sandbox
//! installations, job categories and the error taxonomy.

use vstd::prelude::*;
use vstd::string::StringExecFns;

verus! {

/// How a package depends on the ecosystem's core library.
#[derive(Debug, Clone, PartialEq, Eq)]
pub struct RatatuiDependency {
    pub version: String,
    pub optional: bool,
    pub dev_dependency: bool,
}

/// One package record of the primary registry. Immutable once a fetch job
/// has produced it.
#[derive(Debug, Clone, PartialEq, Eq)]
pub struct CratePackage {
    pub id: String,
    pub name: String,
    pub description: String,
    pub version: String,
    pub created_at: String,
    pub updated_at: String,
    pub downloads: u64,
    pub recent_downloads: u64,
    pub categories: Option<Vec<String>>,
    pub repository: Option<String>,
    pub homepage: Option<String>,
    pub documentation: Option<String>,
    pub ratatui_dependency: RatatuiDependency,
    pub is_core_library: bool,
    pub retracted: Option<bool>,
}

impl CratePackage {
    /// A record counts as retracted only when the flag is present and set.
    pub open spec fn spec_is_retracted(self) -> bool {
        self.retracted == Some(true)
    }

    /// Executable form of `spec_is_retracted`.
    pub fn is_retracted(&self) -> (b: bool)
        ensures
            b == self.spec_is_retracted(),
    {
        match self.retracted {
            Some(f) => f,
            None => false,
        }
    }
}

/// One record of the secondary repository index.
#[derive(Debug, Clone, PartialEq, Eq)]
pub struct RepoRecord {
    pub name: String,
    pub full_name: String,
    pub description: String,
    pub url: String,
    pub stars: u64,
    pub forks: u64,
    pub language: Option<String>,
    pub updated_at: String,
    pub topics: Vec<String>,
}

/// Counters about how the published data set was assembled.
#[derive(Debug, Clone, PartialEq, Eq)]
pub struct Statistics {
    pub etag_cache_hits: usize,
    pub etag_cache_misses: usize,
}

/// Header of a published data set.
#[derive(Debug, Clone, PartialEq, Eq)]
pub struct Metadata {
    pub version: String,
    pub generated_at: String,
    pub total_crates: usize,
    pub core_libraries: usize,
    pub community_packages: usize,
    pub data_sources: Vec<String>,
    pub statistics: Statistics,
}

/// A full data set: header plus the ordered package list.
#[derive(Debug, Clone, PartialEq, Eq)]
pub struct CratesData {
    pub metadata: Metadata,
    pub crates: Vec<CratePackage>,
}

/// A disposable installation: the identity that was installed, the ephemeral
/// root it lives under, the redirected tool-home below that root, and the
/// resolved binary, also below the root.
#[derive(Debug, Clone, PartialEq, Eq)]
pub struct SandboxInstallation {
    pub identity: String,
    pub root: String,
    pub tool_home: String,
    pub binary_path: String,
}

impl SandboxInstallation {
    /// The tool-home is derived from the root, and the binary lies under the
    /// root.
    pub open spec fn wf(self) -> bool {
        &&& self.tool_home@ == self.root@ + "/tool_home"@
        &&& self.root@.is_prefix_of(self.binary_path@)
    }
}

/// A message from the sandboxed install manager to the application state.
#[derive(Debug, Clone, PartialEq, Eq)]
pub enum ProgressMessage {
    Starting,
    Downloading(u8),
    Compiling(u8),
    Finished,
    Error(String),
    SandboxReady(SandboxInstallation),
}

impl ProgressMessage {
    /// Terminal messages end the install job; draining one frees the slot.
    pub open spec fn spec_is_terminal(self) -> bool {
        match self {
            ProgressMessage::Finished => true,
            ProgressMessage::Error(_) => true,
            ProgressMessage::SandboxReady(_) => true,
            _ => false,
        }
    }

    /// Executable form of `spec_is_terminal`.
    pub fn is_terminal(&self) -> (b: bool)
        ensures
            b == self.spec_is_terminal(),
    {
        match self {
            ProgressMessage::Finished => true,
            ProgressMessage::Error(_) => true,
            ProgressMessage::SandboxReady(_) => true,
            _ => false,
        }
    }
}

/// The three kinds of background job, each with its own slot on the bus.
#[derive(Debug, Clone, Copy, PartialEq, Eq, Structural)]
pub enum JobCategory {
    FetchPrimary,
    FetchSecondary,
    Install,
}

/// A message drained from the bus: what a background job of some category
/// reported.
#[derive(Debug, Clone, PartialEq, Eq)]
pub enum BusMessage {
    /// Full replacement snapshot from the primary fetch job.
    PrimarySnapshot(Vec<CratePackage>),
    /// Full replacement snapshot from the secondary fetch job.
    SecondarySnapshot(Vec<RepoRecord>),
    /// A fetch job failed; the reason is surfaced as status text.
    FetchFailed(String),
    /// Progress from the install job.
    Install(ProgressMessage),
}

impl BusMessage {
    /// A terminal message ends its job; draining one frees the slot.
    pub open spec fn spec_is_terminal(self) -> bool {
        match self {
            BusMessage::PrimarySnapshot(_) => true,
            BusMessage::SecondarySnapshot(_) => true,
            BusMessage::FetchFailed(_) => true,
            BusMessage::Install(p) => p.spec_is_terminal(),
        }
    }

    /// Executable form of `spec_is_terminal`.
    pub fn is_terminal(&self) -> (b: bool)
        ensures
            b == self.spec_is_terminal(),
    {
        match self {
            BusMessage::PrimarySnapshot(_) => true,
            BusMessage::SecondarySnapshot(_) => true,
            BusMessage::FetchFailed(_) => true,
            BusMessage::Install(p) => p.is_terminal(),
        }
    }
}

/// What a non-blocking look at a job's channel found.
#[derive(Debug, Clone, PartialEq, Eq)]
pub enum ChannelPoll {
    /// Nothing waiting; the job is still running.
    Empty,
    /// One message was waiting.
    Received(BusMessage),
    /// The sending side is gone.
    Disconnected,
}

/// The error taxonomy. Background-job failures travel as channel messages;
/// `Busy` and `AlreadyInstalled` are returned synchronously.
#[derive(Debug, Clone, PartialEq, Eq)]
pub enum AppError {
    NetworkError(String),
    ParseError(String),
    Busy,
    AlreadyInstalled,
    InstallFailure(String),
    ExecutionFailure(String),
    TerminalStateError(String),
}

impl AppError {
    /// The status text an error surfaces as.
    pub open spec fn spec_message(self) -> Seq<char> {
        match self {
            AppError::NetworkError(m) => "Network error: "@ + m@,
            AppError::ParseError(m) => "Parse error: "@ + m@,
            AppError::Busy => "A job of this category is already running"@,
            AppError::AlreadyInstalled => "Already installed in a sandbox"@,
            AppError::InstallFailure(m) => "Install failed: "@ + m@,
            AppError::ExecutionFailure(m) => m@,
            AppError::TerminalStateError(m) => "Terminal state error: "@ + m@,
        }
    }

    /// Renders the error as status text, exactly as `spec_message` says.
    pub fn message(&self) -> (s: String)
        ensures
            s@ == self.spec_message(),
    {
        match self {
            AppError::NetworkError(m) => {
                let mut s = String::from_str("Network error: ");
                s.append(m.as_str());
                s
            },
            AppError::ParseError(m) => {
                let mut s = String::from_str("Parse error: ");
                s.append(m.as_str());
                s
            },
            AppError::Busy => String::from_str("A job of this category is already running"),
            AppError::AlreadyInstalled => String::from_str("Already installed in a sandbox"),
            AppError::InstallFailure(m) => {
                let mut s = String::from_str("Install failed: ");
                s.append(m.as_str());
                s
            },
            AppError::ExecutionFailure(m) => m.clone(),
            AppError::TerminalStateError(m) => {
                let mut s = String::from_str("Terminal state error: ");
                s.append(m.as_str());
                s
            },
        }
    }
}

/// What a directory scan found for one entry: its file name and whether it
/// is a regular file.
#[derive(Debug, Clone, PartialEq, Eq)]
pub struct FsEntry {
    pub name: String,
    pub is_file: bool,
}

} // verus!
