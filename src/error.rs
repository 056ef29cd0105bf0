use vstd::prelude::*;

verus! {

/// Why an operation failed.
#[derive(Debug, Clone, PartialEq, Eq)]
pub enum SlatusError {
    /// No credential has been saved.
    NotConfigured,
    /// The preset file holds something other than a mapping of presets.
    CorruptStore,
    /// No preset has the requested name.
    NotFound(String),
    /// The remote endpoint could not be reached.
    TransportFailure,
    /// The remote response was not in the expected format.
    DecodeFailure,
    /// The remote service answered with a failure and this message.
    RemoteRejected(String),
    /// An argument was malformed.
    InvalidInput,
}

} // verus!
