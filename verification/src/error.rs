//! Why a message or a request is refused.

use vstd::prelude::*;

verus! {

/// Why a message or a request is refused.
#[non_exhaustive]
#[derive(Clone, Debug, PartialEq, Eq)]
pub enum MacpError {
    /// The envelope is malformed or does not belong to the session.
    InvalidEnvelope,
    /// The session accepts no messages in its state.
    SessionNotOpen,
    /// The session has outlived its time to live.
    TtlExpired,
    /// The time to live is out of range.
    InvalidTtl,
    /// The session identifier is not acceptable.
    InvalidSessionId,
    /// The recorded state of the mode cannot be read.
    InvalidModeState,
    /// The payload is malformed, or out of place in the state of the session.
    InvalidPayload,
    /// The sender may not do this.
    Forbidden,
    /// The caller could not be identified.
    Unauthenticated,
    /// The sender has sent too much in too short a time.
    RateLimited,
    /// The governance policy denies the commitment.
    PolicyDenied { reasons: Vec<String> },
}

impl MacpError {
    /// The name of the error.
    pub open spec fn name(self) -> Seq<char> {
        match self {
            MacpError::InvalidEnvelope => "InvalidEnvelope"@,
            MacpError::SessionNotOpen => "SessionNotOpen"@,
            MacpError::TtlExpired => "TtlExpired"@,
            MacpError::InvalidTtl => "InvalidTtl"@,
            MacpError::InvalidSessionId => "InvalidSessionId"@,
            MacpError::InvalidModeState => "InvalidModeState"@,
            MacpError::InvalidPayload => "InvalidPayload"@,
            MacpError::Forbidden => "Forbidden"@,
            MacpError::Unauthenticated => "Unauthenticated"@,
            MacpError::RateLimited => "RateLimited"@,
            MacpError::PolicyDenied { .. } => "PolicyDenied"@,
        }
    }

    /// The code of the error on the wire.
    pub open spec fn code(self) -> Seq<char> {
        match self {
            MacpError::InvalidEnvelope => "INVALID_ENVELOPE"@,
            MacpError::SessionNotOpen => "SESSION_NOT_OPEN"@,
            MacpError::TtlExpired => "SESSION_NOT_OPEN"@,
            MacpError::InvalidTtl => "INVALID_ENVELOPE"@,
            MacpError::InvalidSessionId => "INVALID_SESSION_ID"@,
            MacpError::InvalidModeState => "INVALID_ENVELOPE"@,
            MacpError::InvalidPayload => "INVALID_ENVELOPE"@,
            MacpError::Forbidden => "FORBIDDEN"@,
            MacpError::Unauthenticated => "UNAUTHENTICATED"@,
            MacpError::RateLimited => "RATE_LIMITED"@,
            MacpError::PolicyDenied { .. } => "POLICY_DENIED"@,
        }
    }

    /// The name of the error.
    pub fn to_string(&self) -> (r: String)
        ensures
            r@ == self.name(),
    {
        let name: &str = match self {
            MacpError::InvalidEnvelope => "InvalidEnvelope",
            MacpError::SessionNotOpen => "SessionNotOpen",
            MacpError::TtlExpired => "TtlExpired",
            MacpError::InvalidTtl => "InvalidTtl",
            MacpError::InvalidSessionId => "InvalidSessionId",
            MacpError::InvalidModeState => "InvalidModeState",
            MacpError::InvalidPayload => "InvalidPayload",
            MacpError::Forbidden => "Forbidden",
            MacpError::Unauthenticated => "Unauthenticated",
            MacpError::RateLimited => "RateLimited",
            MacpError::PolicyDenied { .. } => "PolicyDenied",
        };
        name.to_owned()
    }

    /// The code of the error on the wire.
    pub fn error_code(&self) -> (r: &'static str)
        ensures
            r@ == self.code(),
    {
        match self {
            MacpError::InvalidEnvelope => "INVALID_ENVELOPE",
            MacpError::SessionNotOpen => "SESSION_NOT_OPEN",
            MacpError::TtlExpired => "SESSION_NOT_OPEN",
            MacpError::InvalidTtl => "INVALID_ENVELOPE",
            MacpError::InvalidSessionId => "INVALID_SESSION_ID",
            MacpError::InvalidModeState => "INVALID_ENVELOPE",
            MacpError::InvalidPayload => "INVALID_ENVELOPE",
            MacpError::Forbidden => "FORBIDDEN",
            MacpError::Unauthenticated => "UNAUTHENTICATED",
            MacpError::RateLimited => "RATE_LIMITED",
            MacpError::PolicyDenied { .. } => "POLICY_DENIED",
        }
    }
}

} // verus!
