//! What a resolver of credentials finds.

use crate::security::AuthIdentity;
use crate::text_map::TextSet;
use vstd::prelude::*;
use vstd::string::*;

verus! {

/// Why a resolver refuses a credential that is its own to judge.
#[derive(Debug)]
pub enum AuthError {
    InvalidCredential(String),
    Expired,
    MissingClaim(String),
    FetchFailed(String),
}

impl AuthError {
    /// What the error says.
    pub open spec fn message(self) -> Seq<char> {
        match self {
            AuthError::InvalidCredential(msg) => "invalid credential: "@ + msg@,
            AuthError::Expired => "credential expired"@,
            AuthError::MissingClaim(claim) => "missing required claim: "@ + claim@,
            AuthError::FetchFailed(msg) => "key fetch failed: "@ + msg@,
        }
    }

    /// What the error says.
    pub fn to_string(&self) -> (r: String)
        ensures
            r@ == self.message(),
    {
        match self {
            AuthError::InvalidCredential(msg) => "invalid credential: ".to_owned().concat(
                msg.as_str(),
            ),
            AuthError::Expired => "credential expired".to_owned(),
            AuthError::MissingClaim(claim) => "missing required claim: ".to_owned().concat(
                claim.as_str(),
            ),
            AuthError::FetchFailed(msg) => "key fetch failed: ".to_owned().concat(msg.as_str()),
        }
    }
}

/// The identity that a resolver found behind a credential.
#[derive(Clone, Debug)]
pub struct ResolvedIdentity {
    pub sender: String,
    pub allowed_modes: Option<TextSet>,
    pub can_start_sessions: bool,
    pub max_open_sessions: Option<usize>,
    pub can_manage_mode_registry: bool,
    pub is_observer: bool,
    /// The name of the resolver.
    pub resolver: String,
}

impl vstd::std_specs::convert::FromSpecImpl<ResolvedIdentity> for AuthIdentity {
    open spec fn obeys_from_spec() -> bool {
        true
    }

    open spec fn from_spec(resolved: ResolvedIdentity) -> AuthIdentity {
        AuthIdentity {
            sender: resolved.sender,
            allowed_modes: resolved.allowed_modes,
            can_start_sessions: resolved.can_start_sessions,
            max_open_sessions: resolved.max_open_sessions,
            can_manage_mode_registry: resolved.can_manage_mode_registry,
            is_observer: resolved.is_observer,
        }
    }
}

impl From<ResolvedIdentity> for AuthIdentity {
    fn from(resolved: ResolvedIdentity) -> (r: Self) {
        let ResolvedIdentity {
            sender,
            allowed_modes,
            can_start_sessions,
            max_open_sessions,
            can_manage_mode_registry,
            is_observer,
            resolver: _,
        } = resolved;
        AuthIdentity {
            sender,
            allowed_modes,
            can_start_sessions,
            max_open_sessions,
            can_manage_mode_registry,
            is_observer,
        }
    }
}

} // verus!
