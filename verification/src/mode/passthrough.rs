//! A mode without rules of its own, for modes that are registered at run time.

use crate::codec::Codec;
use crate::error::MacpError;
use crate::json::{distinct_keys, json_text, print, JsonView, Members};
use crate::mode::util::{fitting_commitment, validate_commitment_payload_for_session};
use crate::mode::{authorize_by_roster, on_roster, Mode, ModeResponse};
use crate::pb::commitment::{CommitmentPayload, CommitmentPayloadView};
use crate::pb::envelope::Envelope;
use crate::session::{applied, Session, SessionState};
use crate::step::{steps, the_mode_has_to_agree, StepOutcome};
use crate::text::{among, copy_bytes, same, texts};
use vstd::prelude::*;

verus! {

/// A mode that takes the messages it is told to take. Every payload becomes the
/// mode state, and a commitment resolves the session.
pub struct PassthroughMode {
    /// The message types that it takes; all where there are none.
    pub allowed_message_types: Vec<String>,
}

/// Whether the mode takes messages of the type.
pub open spec fn takes(mode: PassthroughMode, message_type: Seq<char>) -> bool {
    mode.allowed_message_types@.len() == 0 || texts(mode.allowed_message_types@).contains(
        message_type,
    )
}

/// What resolves the session.
pub open spec fn resolution(c: CommitmentPayloadView) -> JsonView {
    JsonView::Object(
        seq![
            ("action"@, JsonView::Text(c.action)),
            ("commitment_id"@, JsonView::Text(c.commitment_id)),
        ],
    )
}

/// What the mode makes of a message.
pub open spec fn handles(
    mode: PassthroughMode,
    session: Session,
    env: Envelope,
    r: Result<ModeResponse, MacpError>,
) -> bool {
    if !takes(mode, env.message_type@) {
        r == Err::<ModeResponse, MacpError>(MacpError::InvalidPayload)
    } else if env.message_type@ == "Commitment"@ {
        match fitting_commitment(session, env.payload@) {
            None => r == Err::<ModeResponse, MacpError>(MacpError::InvalidPayload),
            Some(c) => {
                &&& r is Ok
                &&& r->Ok_0 is Resolve
                &&& r->Ok_0->Resolve_0@ == json_text(resolution(c))
            },
        }
    } else {
        &&& r is Ok
        &&& r->Ok_0 is PersistState
        &&& r->Ok_0->PersistState_0@ == env.payload@
    }
}

/// Who may send which message: commitments come from the initiator, the rest from
/// the roster.
pub open spec fn sender_admitted(session: Session, env: Envelope) -> bool {
    if env.message_type@ == "Commitment"@ {
        env.sender@ == session.initiator_sender@
    } else {
        on_roster(session, env.sender@)
    }
}

fn resolution_bytes(commitment: &CommitmentPayload) -> (r: Vec<u8>)
    ensures
        r@ == json_text(resolution(commitment.deep_view())),
{
    let members: Members = Members::new()
        .with("action", commitment.action.to_json())
        .with("commitment_id", commitment.commitment_id.to_json());
    assert(members@ =~= resolution(commitment.deep_view())->Object_0);
    proof {
        reveal_strlit("action");
        reveal_strlit("commitment_id");
        assert("action"@.len() == 6);
        assert("commitment_id"@.len() == 13);
        assert(distinct_keys(members@));
    }
    print(&members.finish())
}

impl Mode for PassthroughMode {
    fn on_session_start(&self, session: &Session, env: &Envelope) -> (r: Result<
        ModeResponse,
        MacpError,
    >)
        ensures
            r == Ok::<ModeResponse, MacpError>(ModeResponse::NoOp),
    {
        let _ = session;
        let _ = env;
        Ok(ModeResponse::NoOp)
    }

    fn on_message(&self, session: &Session, env: &Envelope) -> (r: Result<ModeResponse, MacpError>)
        ensures
            handles(*self, *session, *env, r),
    {
        if self.allowed_message_types.len() > 0 && !among(
            self.allowed_message_types.as_slice(),
            env.message_type.as_str(),
        ) {
            return Err(MacpError::InvalidPayload);
        }
        if same(env.message_type.as_str(), "Commitment") {
            let commitment: CommitmentPayload = match validate_commitment_payload_for_session(
                session,
                env.payload.as_slice(),
            ) {
                Ok(commitment) => commitment,
                Err(e) => return Err(e),
            };
            return Ok(ModeResponse::Resolve(resolution_bytes(&commitment)));
        }
        Ok(ModeResponse::PersistState(copy_bytes(env.payload.as_slice())))
    }

    fn authorize_sender(&self, session: &Session, env: &Envelope) -> (r: Result<(), MacpError>)
        ensures
            r == if sender_admitted(*session, *env) {
                Ok::<(), MacpError>(())
            } else {
                Err(MacpError::Forbidden)
            },
    {
        if same(env.message_type.as_str(), "Commitment") {
            if !same(env.sender.as_str(), session.initiator_sender.as_str()) {
                return Err(MacpError::Forbidden);
            }
            return Ok(());
        }
        authorize_by_roster(session, env)
    }
}

// ---------------------------------------------------------------------------
// What always holds
// ---------------------------------------------------------------------------

/// A mode without a list takes messages of every type, and one with a list exactly
/// those on it. What it does not take it refuses, commitments too.
pub proof fn the_list_says_what_is_taken(
    mode: PassthroughMode,
    session: Session,
    env: Envelope,
    r: Result<ModeResponse, MacpError>,
)
    requires
        handles(mode, session, env, r),
    ensures
        mode.allowed_message_types@.len() > 0 && (forall|i: int|
            0 <= i < mode.allowed_message_types@.len()
                ==> #[trigger] mode.allowed_message_types@[i]@ != env.message_type@) ==> r == Err::<
            ModeResponse,
            MacpError,
        >(MacpError::InvalidPayload),
        env.message_type@ != "Commitment"@ && (mode.allowed_message_types@.len() == 0 || exists|
            i: int,
        |
            0 <= i < mode.allowed_message_types@.len()
                && #[trigger] mode.allowed_message_types@[i]@ == env.message_type@) ==> r is Ok,
{
    let types = texts(mode.allowed_message_types@);
    if types.contains(env.message_type@) {
        let i = types.index_of(env.message_type@);
        assert(mode.allowed_message_types@[i]@ == env.message_type@);
    }
    if exists|i: int|
        0 <= i < mode.allowed_message_types@.len() && #[trigger] mode.allowed_message_types@[i]@
            == env.message_type@ {
        let i = choose|i: int|
            0 <= i < mode.allowed_message_types@.len()
                && #[trigger] mode.allowed_message_types@[i]@ == env.message_type@;
        assert(types[i] == env.message_type@);
    }
}

/// The payload of a message that is taken becomes the mode state as it is, and the
/// session stays open.
pub proof fn payloads_become_the_state(
    mode: PassthroughMode,
    session: Session,
    env: Envelope,
    response: ModeResponse,
)
    requires
        env.message_type@ != "Commitment"@,
        handles(mode, session, env, Ok(response)),
    ensures
        applied(session, response).mode_state@ == env.payload@,
        applied(session, response).state == session.state,
        applied(session, response).resolution == session.resolution,
{
}

/// A commitment that is taken resolves the session where it fits, and only then,
/// with its action and its identifier; the mode state stays as it was.
pub proof fn commitments_resolve(
    mode: PassthroughMode,
    session: Session,
    env: Envelope,
    r: Result<ModeResponse, MacpError>,
)
    requires
        env.message_type@ == "Commitment"@,
        mode.allowed_message_types@.len() == 0 || exists|i: int|
            0 <= i < mode.allowed_message_types@.len()
                && #[trigger] mode.allowed_message_types@[i]@ == env.message_type@,
        handles(mode, session, env, r),
    ensures
        r is Ok <==> fitting_commitment(session, env.payload@) is Some,
        r is Err ==> r->Err_0 == MacpError::InvalidPayload,
        r is Ok ==> ({
            let c = CommitmentPayload::from_bytes(env.payload@)->0;
            let after = applied(session, r->Ok_0);
            &&& after.state is Resolved
            &&& after.mode_state == session.mode_state
            &&& after.resolution is Some
            &&& after.resolution->0@ == json_text(
                JsonView::Object(
                    seq![
                        ("action"@, JsonView::Text(c.action)),
                        ("commitment_id"@, JsonView::Text(c.commitment_id)),
                    ],
                ),
            )
        }),
{
    let types = texts(mode.allowed_message_types@);
    if mode.allowed_message_types@.len() > 0 {
        let i = choose|i: int|
            0 <= i < mode.allowed_message_types@.len()
                && #[trigger] mode.allowed_message_types@[i]@ == env.message_type@;
        assert(types[i] == env.message_type@);
    }
}

/// Commitments may be sent by the initiator and by no one else; everything else by
/// the participants and, where there are some, by no one else.
pub proof fn who_may_send_what(session: Session, env: Envelope)
    ensures
        env.message_type@ == "Commitment"@ ==> (sender_admitted(session, env) <==> env.sender@
            == session.initiator_sender@),
        env.message_type@ != "Commitment"@ ==> (sender_admitted(session, env)
            <==> session.participants@.len() == 0 || exists|i: int|
            0 <= i < session.participants@.len() && #[trigger] session.participants@[i]@
                == env.sender@),
{
    let names = texts(session.participants@);
    if names.contains(env.sender@) {
        let i = names.index_of(env.sender@);
        assert(session.participants@[i]@ == env.sender@);
    }
    if exists|i: int|
        0 <= i < session.participants@.len() && #[trigger] session.participants@[i]@
            == env.sender@ {
        let i = choose|i: int|
            0 <= i < session.participants@.len() && #[trigger] session.participants@[i]@
                == env.sender@;
        assert(names[i] == env.sender@);
    }
}

/// A message is accepted only from a sender who may send it, and is handled as the
/// list says.
pub proof fn accepted_senders_may_send(
    mode: &PassthroughMode,
    before: Session,
    env: Envelope,
    now_ms: i64,
    after: Session,
    state: SessionState,
)
    requires
        steps(before, env, mode, now_ms, after, Ok(StepOutcome::Accepted { state })),
    ensures
        sender_admitted(before, env),
        env.message_type@ != "Commitment"@ ==> after.mode_state@ == env.payload@ && state is Open,
        env.message_type@ == "Commitment"@ ==> after.mode_state == before.mode_state
            && state is Resolved,
{
    the_mode_has_to_agree(before, env, mode, now_ms, after, state);
    let response = choose|response: ModeResponse|
        #[trigger] call_ensures(PassthroughMode::on_message, (mode, &before, &env), Ok(response))
            && after.mode_state == applied(before, response).mode_state && after.resolution
            == applied(before, response).resolution && after.state == applied(
            before,
            response,
        ).state;
    assert(handles(*mode, before, env, Ok(response)));
}

} // verus!
