//! `macp` — the coordination core of the Multi-Agent Coordination Protocol.

use vstd::prelude::*;

pub mod arithmetic;
pub mod auth;
pub mod calls;
pub mod codec;
pub mod commitment_hash;
pub mod decision;
pub mod double;
pub mod error;
pub mod json;
pub mod json_text;
pub mod mode;
pub mod pb;
pub mod policy;
pub mod rate_limit;
pub mod security;
pub mod session;
pub mod session_id;
pub mod session_start;
pub mod step;
pub mod suspension;
pub mod text;
pub mod text_map;
pub mod wire;

pub use crate::error::MacpError;
pub use crate::mode::ModeResponse;
pub use crate::policy::{PolicyDecision, PolicyDefinition, PolicyError, PolicyEvaluator};
pub use crate::session::{Session, SessionState};

verus! {

/// The protocol version that envelopes carry and peers negotiate.
pub const MACP_VERSION: &'static str = "1.0";

} // verus!
