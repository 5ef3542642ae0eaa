use vstd::prelude::*;

verus! {

/// Errors surfaced by the connection-state core.
///
/// Every failure of a state operation is reported to the immediate caller
/// as one of these values; nothing is retried or swallowed internally.
#[derive(Clone, Copy, Debug, PartialEq, Eq, Structural)]
pub enum Error {
    /// An operation that needs a negotiated cipher suite found none.
    CipherSuiteUnset,
    /// A snapshot restore referenced a cipher-suite id this build cannot construct.
    UnsupportedCipherSuiteId,
    /// Keying-material export was attempted before the handshake completed.
    HandshakeInProgress,
    /// Keying-material export was given a non-empty context, which is unsupported.
    ContextUnsupported,
    /// Keying-material export was given a label reserved for internal TLS use.
    ReservedExportLabel,
    /// A persisted snapshot blob is malformed.
    DecodeError,
    /// An encoded handshake random is not exactly the fixed length.
    RandomLengthMismatch,
}

impl Error {
    /// A short, stable description of the error, for callers that log failures.
    pub fn message(&self) -> (r: &'static str)
    {
        match self {
            Error::CipherSuiteUnset => "cipher suite has not been negotiated",
            Error::UnsupportedCipherSuiteId => "unsupported cipher suite id in snapshot",
            Error::HandshakeInProgress => "handshake is not complete",
            Error::ContextUnsupported => "export context is not supported",
            Error::ReservedExportLabel => "export label is reserved for internal use",
            Error::DecodeError => "malformed snapshot encoding",
            Error::RandomLengthMismatch => "encoded random has the wrong length",
        }
    }
}

} // verus!
