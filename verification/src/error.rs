use vstd::prelude::*;

verus! {

/// Every way an operation of this library can fail.
#[derive(Clone, Copy, Debug, PartialEq, Eq, Structural)]
pub enum Error {
    /// The transport could not be opened or has been torn down.
    ConnectionError,
    /// A malformed frame, or an opcode the interface does not have.
    ProtocolViolation,
    /// The bounded outgoing buffer has no room for the frame.
    Backpressure,
    /// The object already has a handler.
    DuplicateBinding,
    /// The object id is not live.
    UnknownObject,
    /// The requested version exceeds the advertised one.
    VersionMismatch,
    /// An event was addressed to a live object that has no handler.
    DispatchError,
    /// No object id is left to hand out.
    ResourceExhausted,
}

impl Error {
    /// Whether the connection is torn down when this error occurs.
    pub open spec fn spec_is_fatal(self) -> bool {
        self == Error::ConnectionError || self == Error::ProtocolViolation
            || self == Error::ResourceExhausted
    }

    /// Transport, framing and exhaustion failures are fatal; failures of the
    /// binding and dispatch tables are not.
    #[verifier::when_used_as_spec(spec_is_fatal)]
    pub fn is_fatal(self) -> (r: bool)
        ensures
            r == self.spec_is_fatal(),
    {
        match self {
            Error::ConnectionError => true,
            Error::ProtocolViolation => true,
            Error::ResourceExhausted => true,
            _ => false,
        }
    }
}

} // verus!
