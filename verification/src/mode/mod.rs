//! Coordination modes.

pub mod descriptors;
pub mod handoff;
pub mod handoff_state;
pub mod multi_round;
pub mod multi_round_state;
pub mod passthrough;
pub mod quorum;
pub mod quorum_state;
pub mod recorded;
pub mod util;

pub use crate::mode::descriptors::{
    all_mode_descriptors, extension_mode_descriptors, extension_mode_names,
    standard_mode_descriptors, standard_mode_names, EXTENSION_MODE_NAMES, STANDARD_MODE_NAMES,
};

use crate::error::MacpError;
use crate::pb::envelope::Envelope;
use crate::session::Session;
use crate::text::{among, texts};
use vstd::prelude::*;

verus! {

/// What a mode makes of a message, for the session to take over.
#[non_exhaustive]
#[derive(Debug)]
pub enum ModeResponse {
    /// Nothing changes.
    NoOp,
    /// The mode state is replaced.
    PersistState(Vec<u8>),
    /// The session is resolved.
    Resolve(Vec<u8>),
    /// The mode state is replaced and the session resolved.
    PersistAndResolve { state: Vec<u8>, resolution: Vec<u8> },
}

/// Whether the two answers of a mode are the same, byte for byte.
pub open spec fn same_answer(
    a: Result<ModeResponse, MacpError>,
    b: Result<ModeResponse, MacpError>,
) -> bool {
    match (a, b) {
        (Ok(ModeResponse::NoOp), Ok(ModeResponse::NoOp)) => true,
        (Ok(ModeResponse::PersistState(x)), Ok(ModeResponse::PersistState(y))) => x@ == y@,
        (Ok(ModeResponse::Resolve(x)), Ok(ModeResponse::Resolve(y))) => x@ == y@,
        (
            Ok(ModeResponse::PersistAndResolve { state: x, resolution: p }),
            Ok(ModeResponse::PersistAndResolve { state: y, resolution: q }),
        ) => x@ == y@ && p@ == q@,
        (Err(x), Err(y)) => x == y,
        _ => false,
    }
}

/// What the runtime knows of a message that it accepted.
#[non_exhaustive]
#[derive(Debug, Clone, Copy)]
pub struct MessageContext {
    /// The runtime's clock when it accepted the message.
    pub accepted_at_ms: i64,
}

impl MessageContext {
    /// The context of a message accepted at that time.
    pub fn new(accepted_at_ms: i64) -> (r: Self)
        ensures
            r.accepted_at_ms == accepted_at_ms,
    {
        MessageContext { accepted_at_ms }
    }
}

/// Whether the roster of the session lets the sender through: an empty one lets
/// everyone.
pub open spec fn on_roster(session: Session, sender: Seq<char>) -> bool {
    session.participants@.len() == 0 || texts(session.participants@).contains(sender)
}

/// Refuses a sender that the roster of the session does not let through.
pub fn authorize_by_roster(session: &Session, env: &Envelope) -> (r: Result<(), MacpError>)
    ensures
        r == if on_roster(*session, env.sender@) {
            Ok::<(), MacpError>(())
        } else {
            Err(MacpError::Forbidden)
        },
{
    if session.participants.len() > 0 && !among(
        session.participants.as_slice(),
        env.sender.as_str(),
    ) {
        return Err(MacpError::Forbidden);
    }
    Ok(())
}

/// A coordination mode: it looks at the session and a message and says what is
/// to change. The kernel applies it.
pub trait Mode: Send + Sync {
    /// Opens a session.
    fn on_session_start(&self, session: &Session, env: &Envelope) -> Result<
        ModeResponse,
        MacpError,
    >;

    /// Handles a message.
    fn on_message(&self, session: &Session, env: &Envelope) -> Result<ModeResponse, MacpError>;

    /// Handles a message that the runtime accepted at a known time. A mode that
    /// needs a clock overrides this, since the time in an envelope is what the
    /// sender says.
    fn on_message_at(&self, session: &Session, env: &Envelope, ctx: &MessageContext) -> (r: Result<
        ModeResponse,
        MacpError,
    >)
        default_ensures
            call_ensures(Self::on_message, (self, session, env), r),
    {
        let _ = ctx;
        self.on_message(session, env)
    }

    /// Checks a message that a client submitted, before it is handled. It is not
    /// for messages that the runtime makes itself or reads from its records:
    /// these may be what no client may submit.
    fn validate_client_envelope(&self, session: &Session, env: &Envelope) -> (r: Result<
        (),
        MacpError,
    >)
        default_ensures
            r == Ok::<(), MacpError>(()),
    {
        let _ = session;
        let _ = env;
        Ok(())
    }

    /// The message, if any, that must enter the history of the session before
    /// any other is handled at that time.
    fn due_synthetic_envelope(&self, session: &Session, now_ms: i64) -> (r: Option<Envelope>)
        default_ensures
            r is None,
    {
        let _ = session;
        let _ = now_ms;
        None
    }

    /// Whether the sender may send this message.
    fn authorize_sender(&self, session: &Session, env: &Envelope) -> (r: Result<(), MacpError>)
        default_ensures
            r == if on_roster(*session, env.sender@) {
                Ok::<(), MacpError>(())
            } else {
                Err(MacpError::Forbidden)
            },
    {
        authorize_by_roster(session, env)
    }
}

/// Where a session has participants, the roster lets these through and no one else;
/// where it has none it lets everyone through.
pub proof fn the_roster_lets_its_own_through(session: Session, sender: Seq<char>)
    ensures
        on_roster(session, sender) <==> session.participants@.len() == 0 || exists|i: int|
            0 <= i < session.participants@.len() && #[trigger] session.participants@[i]@ == sender,
{
    let names = texts(session.participants@);
    if names.contains(sender) {
        let i = names.index_of(sender);
        assert(session.participants@[i]@ == sender);
    }
    if exists|i: int|
        0 <= i < session.participants@.len() && #[trigger] session.participants@[i]@ == sender {
        let i = choose|i: int|
            0 <= i < session.participants@.len() && #[trigger] session.participants@[i]@ == sender;
        assert(names[i] == sender);
    }
}

} // verus!
