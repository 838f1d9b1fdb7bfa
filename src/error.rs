use vstd::prelude::*;

verus! {

/// The failures that end the processing of one inbound message.
#[derive(Clone, Copy, Debug, PartialEq, Eq, Structural)]
pub enum WorkerError {
    /// The message body could not be decoded, or named both or neither request form.
    MalformedMessage,
    /// The auditing backend could not be reached or answered with a failure status.
    BackendUnavailable,
    /// A sampling run produced no attempt that could be selected.
    InsufficientSamples,
    /// A document could not be read from or written to the store.
    PersistenceFailure,
    /// No run identifier could be allocated for the site.
    SequencingFailure,
}

} // verus!
