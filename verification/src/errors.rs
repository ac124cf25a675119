//! Error taxonomy of the core: every operation reports success or one of
//! these specific kinds; nothing is swallowed silently.

use vstd::prelude::*;

verus! {

/// The distinct failure kinds of the comparison core.
///
/// `ToolInvocationFailed` and `ToolExitedUnsuccessfully` describe the
/// external symbol-dump utility (it could not be started, or it ran and
/// signalled failure); they are produced by the caller that invokes the
/// utility, never by the core itself. `SymbolNotFound` covers a name
/// absent from the debug metadata, or a length that no source supplies.
/// `IOFailure` covers reading image bytes out of range and translating an
/// address that falls inside no section. `DecodeFailure` means the
/// decoding capability rejected the byte stream before producing a single
/// instruction.
#[derive(Clone, Copy, Debug, PartialEq, Eq, Structural)]
pub enum CoreError {
    ToolInvocationFailed,
    ToolExitedUnsuccessfully,
    SymbolNotFound,
    IOFailure,
    DecodeFailure,
}

} // verus!
