//! The messages of the protocol and their binary form.

pub mod by_tag;
pub mod commitment;
pub mod envelope;
pub mod handoff;
pub mod multi_round;
pub mod quorum;
pub mod session_start;
