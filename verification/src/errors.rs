use vstd::prelude::*;

verus! {

/// Error taxonomy of the protocol core.  Every operation is fail-closed: an
/// error means no state was changed.
#[derive(Clone, Copy, Debug, PartialEq, Eq, Structural)]
pub enum ProtoError {
    /// A required identity, session, group or sender key is missing.
    NotFound,
    /// A wire field is missing, has the wrong size, or is badly encoded.
    Malformed,
    /// An AEAD authentication, signature or key-agreement step failed.
    Crypto,
    /// A protocol rule was broken, e.g. too many messages to skip.
    Protocol,
    /// The continuity hash sent by the peer does not match our record.
    ContinuityBreak,
}

impl ProtoError {
    /// Stable tag for surfacing to a host user interface.
    pub fn tag(&self) -> (r: &'static str)
        ensures
            r == match self {
                ProtoError::NotFound => "NOT_FOUND",
                ProtoError::Malformed => "MALFORMED",
                ProtoError::Crypto => "CRYPTO",
                ProtoError::Protocol => "PROTOCOL",
                ProtoError::ContinuityBreak => "CONTINUITY_BREAK",
            },
    {
        match self {
            ProtoError::NotFound => "NOT_FOUND",
            ProtoError::Malformed => "MALFORMED",
            ProtoError::Crypto => "CRYPTO",
            ProtoError::Protocol => "PROTOCOL",
            ProtoError::ContinuityBreak => "CONTINUITY_BREAK",
        }
    }
}

} // verus!
