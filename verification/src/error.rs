//! The error taxonomy of the linkage resolver.

use vstd::prelude::*;

verus! {

/// Every failure the resolver, the plan loader, the binding generator and
/// the command runner can report. The build aborts on the first error; no
/// component retries or recovers.
#[derive(Clone, Copy, Debug, PartialEq, Eq, Structural)]
pub enum LinkError {
    /// An external toolchain command could not be found or started.
    SpawnError,
    /// An external toolchain command produced output that is not valid UTF-8.
    EncodingError,
    /// The plan document is missing or unreadable.
    PlanReadError,
    /// The plan document does not match the expected schema.
    PlanParseError,
    /// No plan entry of the configured kind exists, or the configured entry
    /// has no distribution directory.
    MissingConfiguredEntry,
    /// Static linking of the foreign runtime is not supported.
    UnsupportedLinkMode,
    /// The plan's compiler identifier does not name a supported toolchain.
    UnsupportedCompiler,
    /// A dependency directory does not form a valid filesystem path string.
    InvalidPath,
    /// The header handed to the binding generator does not exist.
    HeaderNotFound,
    /// The header is malformed or an include could not be resolved.
    ParseError,
    /// The header-parsing front end failed internally.
    GenerationError,
    /// The generated declaration set could not be written out.
    WriteError,
}

} // verus!
