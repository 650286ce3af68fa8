//! What happens to a session when a message arrives.
//!
//! Every message goes through the same checks: it must be new, be meant for the
//! mode of the session, and find the session open and in time. The mode then
//! looks at it, and only what the mode accepts changes the session. There is no
//! clock and no storage here. [`step`] does it all at once. A kernel that keeps a
//! durable log calls [`check_preconditions`], [`validate_message`] and [`commit`]
//! itself and writes to the log before it commits.

use crate::error::MacpError;
use crate::mode::{Mode, ModeResponse};
use crate::pb::envelope::Envelope;
use crate::session::{applied, same_terms, Session, SessionState};
use crate::text::same;
use vstd::prelude::*;

verus! {

/// What the checks that are the same for every mode come to.
#[derive(Debug, Clone, PartialEq, Eq, Structural)]
pub enum Precheck {
    /// The message has been accepted before.
    Duplicate,
    /// The time to live of the session is over; it must expire.
    Expired,
    /// The mode may look at the message.
    Proceed,
}

/// What became of a message.
#[derive(Debug, Clone, PartialEq, Structural)]
pub enum StepOutcome {
    /// The message had been accepted before, and nothing changed.
    Duplicate,
    /// The message was accepted, and this is the state it left behind.
    Accepted { state: SessionState },
}

/// What the checks that are the same for every mode come to, the first that
/// applies: a message that was accepted before is a duplicate, one for another
/// mode is no message for this session, an open session past its deadline
/// expires, and one that is not open takes no message.
pub open spec fn precheck(session: Session, env: Envelope, now_ms: i64) -> Result<
    Precheck,
    MacpError,
> {
    if session.seen_message_ids@.contains(env.message_id@) {
        Ok(Precheck::Duplicate)
    } else if env.mode@ != session.mode@ {
        Err(MacpError::InvalidEnvelope)
    } else if session.state is Open && now_ms > session.ttl_expiry {
        Ok(Precheck::Expired)
    } else if session.state !is Open {
        Err(MacpError::SessionNotOpen)
    } else {
        Ok(Precheck::Proceed)
    }
}

/// Whether `r` is what the mode makes of a message of a client: it answers for
/// the sender first, for what clients may submit next, and handles the message
/// last.
pub open spec fn validates<M: Mode + ?Sized>(
    session: &Session,
    env: &Envelope,
    mode: &M,
    r: Result<ModeResponse, MacpError>,
) -> bool {
    exists|sender: Result<(), MacpError>|
        {
            &&& #[trigger] call_ensures(M::authorize_sender, (mode, session, env), sender)
            &&& match sender {
                Err(e) => r == Err::<ModeResponse, MacpError>(e),
                Ok(()) => admits(session, env, mode, r),
            }
        }
}

/// Whether `r` is what the mode makes of a message of a client whose sender it
/// lets through.
pub open spec fn admits<M: Mode + ?Sized>(
    session: &Session,
    env: &Envelope,
    mode: &M,
    r: Result<ModeResponse, MacpError>,
) -> bool {
    exists|client: Result<(), MacpError>|
        {
            &&& #[trigger] call_ensures(M::validate_client_envelope, (mode, session, env), client)
            &&& match client {
                Err(e) => r == Err::<ModeResponse, MacpError>(e),
                Ok(()) => call_ensures(M::on_message, (mode, session, env), r),
            }
        }
}

/// Whether `after` is the session once the message has been committed: the
/// message is remembered and counted, and what the mode made of it taken over.
pub open spec fn commits(
    before: Session,
    env: Envelope,
    response: ModeResponse,
    now_ms: i64,
    after: Session,
) -> bool {
    &&& after.seen_message_ids@ == before.seen_message_ids@.insert(env.message_id@)
    &&& after.participant_message_counts@ == before.participant_message_counts@.insert(
        env.sender@,
        (before.message_count(env.sender@) + 1) as u32,
    )
    &&& after.participant_last_seen@ == before.participant_last_seen@.insert(env.sender@, now_ms)
    &&& after == applied(
        Session {
            seen_message_ids: after.seen_message_ids,
            participant_message_counts: after.participant_message_counts,
            participant_last_seen: after.participant_last_seen,
            ..before
        },
        response,
    )
}

/// Whether a message that arrives at `now_ms` turns the session `before` into
/// `after` and is answered with `r`.
pub open spec fn steps<M: Mode + ?Sized>(
    before: Session,
    env: Envelope,
    mode: &M,
    now_ms: i64,
    after: Session,
    r: Result<StepOutcome, MacpError>,
) -> bool {
    match precheck(before, env, now_ms) {
        Err(e) => {
            &&& r == Err::<StepOutcome, MacpError>(e)
            &&& after == before
        },
        Ok(Precheck::Duplicate) => {
            &&& r == Ok::<StepOutcome, MacpError>(StepOutcome::Duplicate)
            &&& after == before
        },
        Ok(Precheck::Expired) => {
            &&& r == Err::<StepOutcome, MacpError>(MacpError::TtlExpired)
            &&& after == (Session { state: SessionState::Expired, ..before })
        },
        Ok(Precheck::Proceed) => exists|v: Result<ModeResponse, MacpError>|
            {
                &&& #[trigger] validates(&before, &env, mode, v)
                &&& match v {
                    Err(e) => {
                        &&& r == Err::<StepOutcome, MacpError>(e)
                        &&& after == before
                    },
                    Ok(response) => {
                        &&& r == Ok::<StepOutcome, MacpError>(
                            StepOutcome::Accepted { state: after.state },
                        )
                        &&& commits(before, env, response, now_ms, after)
                    },
                }
            },
    }
}

/// Runs the checks that are the same for every mode.
pub fn check_preconditions(session: &Session, env: &Envelope, now_ms: i64) -> (r: Result<
    Precheck,
    MacpError,
>)
    ensures
        r == precheck(*session, *env, now_ms),
{
    if session.seen_message_ids.contains(env.message_id.as_str()) {
        return Ok(Precheck::Duplicate);
    }
    if !same(env.mode.as_str(), session.mode.as_str()) {
        return Err(MacpError::InvalidEnvelope);
    }
    if session.state == SessionState::Open && now_ms > session.ttl_expiry {
        return Ok(Precheck::Expired);
    }
    if session.state != SessionState::Open {
        return Err(MacpError::SessionNotOpen);
    }
    Ok(Precheck::Proceed)
}

/// Has the mode look at a message of a client. It is for messages that may
/// proceed by [`check_preconditions`], and not for messages from the records of
/// the runtime, which may be what no client may submit.
pub fn validate_message<M: Mode + ?Sized>(session: &Session, env: &Envelope, mode: &M) -> (r:
    Result<ModeResponse, MacpError>)
    ensures
        validates(session, env, mode, r),
{
    let sender: Result<(), MacpError> = mode.authorize_sender(session, env);
    assert(call_ensures(M::authorize_sender, (mode, session, env), sender));
    match sender {
        Ok(()) => {},
        Err(e) => return Err(e),
    }
    let client: Result<(), MacpError> = mode.validate_client_envelope(session, env);
    assert(call_ensures(M::validate_client_envelope, (mode, session, env), client));
    match client {
        Ok(()) => {},
        Err(e) => return Err(e),
    }
    mode.on_message(session, env)
}

/// Commits a message that the mode has accepted, and returns the state that the
/// session is in. Where there is a durable log, the message must be in it first.
pub fn commit(session: &mut Session, env: &Envelope, response: ModeResponse, now_ms: i64) -> (r:
    SessionState)
    requires
        old(session).message_count(env.sender@) < u32::MAX,
    ensures
        commits(*old(session), *env, response, now_ms, *final(session)),
        r == final(session).state,
{
    let _ = session.seen_message_ids.insert(env.message_id.clone());
    session.record_participant_activity(env.sender.as_str(), now_ms);
    session.apply_mode_response(response);
    session.state.copied()
}

/// Takes a message from its arrival to its outcome. A session whose time is over
/// expires; a message that is refused changes nothing else.
pub fn step<M: Mode + ?Sized>(session: &mut Session, env: &Envelope, mode: &M, now_ms: i64) -> (r:
    Result<StepOutcome, MacpError>)
    requires
        precheck(*old(session), *env, now_ms) == Ok::<Precheck, MacpError>(Precheck::Proceed)
            ==> old(session).message_count(env.sender@) < u32::MAX,
    ensures
        steps(*old(session), *env, mode, now_ms, *final(session), r),
{
    match check_preconditions(session, env, now_ms) {
        Err(e) => Err(e),
        Ok(Precheck::Duplicate) => Ok(StepOutcome::Duplicate),
        Ok(Precheck::Expired) => {
            session.state = SessionState::Expired;
            Err(MacpError::TtlExpired)
        },
        Ok(Precheck::Proceed) => {
            let verdict: Result<ModeResponse, MacpError> = validate_message(session, env, mode);
            assert(validates(old(session), env, mode, verdict));
            match verdict {
                Err(e) => Err(e),
                Ok(response) => {
                    let state: SessionState = commit(session, env, response, now_ms);
                    Ok(StepOutcome::Accepted { state })
                },
            }
        },
    }
}

/// A message that has been accepted before changes nothing.
pub proof fn duplicate_changes_nothing<M: Mode + ?Sized>(
    before: Session,
    env: Envelope,
    mode: &M,
    now_ms: i64,
    after: Session,
    r: Result<StepOutcome, MacpError>,
)
    requires
        before.seen_message_ids@.contains(env.message_id@),
        steps(before, env, mode, now_ms, after, r),
    ensures
        after == before,
        r == Ok::<StepOutcome, MacpError>(StepOutcome::Duplicate),
{
}

/// A message that is refused leaves the session as it was, but that one whose
/// time is over expires. In particular its identifier stays free.
pub proof fn refused_message_changes_nothing<M: Mode + ?Sized>(
    before: Session,
    env: Envelope,
    mode: &M,
    now_ms: i64,
    after: Session,
    r: Result<StepOutcome, MacpError>,
)
    requires
        r is Err,
        steps(before, env, mode, now_ms, after, r),
    ensures
        after == before || (before.state is Open && now_ms > before.ttl_expiry && r->Err_0
            == MacpError::TtlExpired && after == (Session {
            state: SessionState::Expired,
            ..before
        })),
        after.seen_message_ids == before.seen_message_ids,
{
}

/// A message that was accepted is remembered: another one under its identifier
/// changes nothing, whatever it holds, whenever it comes, whichever mode handles
/// it and whatever state the session is in by then.
pub proof fn accepted_once<M: Mode + ?Sized, N: Mode + ?Sized>(
    before: Session,
    env: Envelope,
    mode: &M,
    now_ms: i64,
    after: Session,
    state: SessionState,
    later: Envelope,
    later_mode: &N,
    later_ms: i64,
    again: Session,
    r: Result<StepOutcome, MacpError>,
)
    requires
        steps(before, env, mode, now_ms, after, Ok(StepOutcome::Accepted { state })),
        later.message_id@ == env.message_id@,
        steps(after, later, later_mode, later_ms, again, r),
    ensures
        again == after,
        r == Ok::<StepOutcome, MacpError>(StepOutcome::Duplicate),
{
}

/// No message changes a session that is not open, be it paused or over.
pub proof fn only_open_sessions_change<M: Mode + ?Sized>(
    before: Session,
    env: Envelope,
    mode: &M,
    now_ms: i64,
    after: Session,
    r: Result<StepOutcome, MacpError>,
)
    requires
        before.state !is Open,
        steps(before, env, mode, now_ms, after, r),
    ensures
        after == before,
        !(r matches Ok(StepOutcome::Accepted { .. })),
{
}

/// A message is accepted only by a session that is in time, and leaves it open or
/// resolved. The deadline itself is still in time.
pub proof fn accepted_in_time<M: Mode + ?Sized>(
    before: Session,
    env: Envelope,
    mode: &M,
    now_ms: i64,
    after: Session,
    state: SessionState,
)
    requires
        steps(before, env, mode, now_ms, after, Ok(StepOutcome::Accepted { state })),
    ensures
        now_ms <= before.ttl_expiry,
        state is Open || state is Resolved,
        after.state == state,
{
}

/// The phases, one after the other, are a step.
pub proof fn phases_make_a_step<M: Mode + ?Sized>(
    before: Session,
    env: Envelope,
    mode: &M,
    now_ms: i64,
    response: ModeResponse,
    after: Session,
)
    requires
        precheck(before, env, now_ms) == Ok::<Precheck, MacpError>(Precheck::Proceed),
        validates(&before, &env, mode, Ok(response)),
        commits(before, env, response, now_ms, after),
    ensures
        steps(before, env, mode, now_ms, after, Ok(StepOutcome::Accepted { state: after.state })),
{
}

/// What comes first: a message that was accepted before is a duplicate, whatever
/// else is wrong with it; one for another mode is malformed, and lets no session
/// expire; an open session expires exactly when its deadline is past; and one that
/// is not open takes nothing.
pub proof fn checks_come_in_order(session: Session, env: Envelope, now_ms: i64)
    ensures
        session.seen_message_ids@.contains(env.message_id@) <==> precheck(session, env, now_ms)
            == Ok::<Precheck, MacpError>(Precheck::Duplicate),
        !session.seen_message_ids@.contains(env.message_id@) ==> {
            let for_it = env.mode@ == session.mode@;
            &&& !for_it <==> precheck(session, env, now_ms) == Err::<Precheck, MacpError>(
                MacpError::InvalidEnvelope,
            )
            &&& for_it && session.state == SessionState::Open && now_ms > session.ttl_expiry
                <==> precheck(session, env, now_ms) == Ok::<Precheck, MacpError>(Precheck::Expired)
            &&& for_it && session.state != SessionState::Open <==> precheck(session, env, now_ms)
                == Err::<Precheck, MacpError>(MacpError::SessionNotOpen)
            &&& for_it && session.state == SessionState::Open && now_ms <= session.ttl_expiry
                <==> precheck(session, env, now_ms) == Ok::<Precheck, MacpError>(Precheck::Proceed)
        },
{
}

/// What a message is answered does not depend on what else the session has seen,
/// how often its senders have sent, or when it began.
pub proof fn checks_look_at_nothing_else(a: Session, b: Session, env: Envelope, now_ms: i64)
    requires
        a.seen_message_ids@.contains(env.message_id@) == b.seen_message_ids@.contains(
            env.message_id@,
        ),
        a.mode@ == b.mode@,
        a.state == b.state,
        a.ttl_expiry == b.ttl_expiry,
    ensures
        precheck(a, env, now_ms) == precheck(b, env, now_ms),
{
}

/// A message that is accepted is one that the mode admits three times over: its
/// sender, its being submitted by a client, and itself.
pub proof fn the_mode_has_to_agree<M: Mode + ?Sized>(
    before: Session,
    env: Envelope,
    mode: &M,
    now_ms: i64,
    after: Session,
    state: SessionState,
)
    requires
        steps(before, env, mode, now_ms, after, Ok(StepOutcome::Accepted { state })),
    ensures
        call_ensures(M::authorize_sender, (mode, &before, &env), Ok(())),
        call_ensures(M::validate_client_envelope, (mode, &before, &env), Ok(())),
        exists|response: ModeResponse|
            #[trigger] call_ensures(M::on_message, (mode, &before, &env), Ok(response))
                && after.mode_state == applied(before, response).mode_state && after.resolution
                == applied(before, response).resolution && after.state == applied(
                before,
                response,
            ).state,
{
    let v = choose|v: Result<ModeResponse, MacpError>|
        {
            &&& #[trigger] validates(&before, &env, mode, v)
            &&& v is Ok
            &&& commits(before, env, v->Ok_0, now_ms, after)
        };
    let sender = choose|sender: Result<(), MacpError>|
        {
            &&& #[trigger] call_ensures(M::authorize_sender, (mode, &before, &env), sender)
            &&& match sender {
                Err(e) => v == Err::<ModeResponse, MacpError>(e),
                Ok(()) => admits(&before, &env, mode, v),
            }
        };
    assert(sender is Ok);
    assert(sender == Ok::<(), MacpError>(sender->Ok_0));
    let client = choose|client: Result<(), MacpError>|
        {
            &&& #[trigger] call_ensures(
                M::validate_client_envelope,
                (mode, &before, &env),
                client,
            )
            &&& match client {
                Err(e) => v == Err::<ModeResponse, MacpError>(e),
                Ok(()) => call_ensures(M::on_message, (mode, &before, &env), v),
            }
        };
    assert(client is Ok);
    assert(client == Ok::<(), MacpError>(client->Ok_0));
    assert(call_ensures(M::on_message, (mode, &before, &env), Ok(v->Ok_0)));
}

/// A sender that the mode refuses, and nothing but refuses, gets that answer, and the
/// session stays as it was.
pub proof fn refused_senders_get_nowhere<M: Mode + ?Sized>(
    before: Session,
    env: Envelope,
    mode: &M,
    now_ms: i64,
    after: Session,
    r: Result<StepOutcome, MacpError>,
    e: MacpError,
)
    requires
        steps(before, env, mode, now_ms, after, r),
        precheck(before, env, now_ms) == Ok::<Precheck, MacpError>(Precheck::Proceed),
        forall|answer: Result<(), MacpError>| #[trigger]
            call_ensures(M::authorize_sender, (mode, &before, &env), answer) ==> answer == Err::<
                (),
                MacpError,
            >(e),
    ensures
        r == Err::<StepOutcome, MacpError>(e),
        after == before,
{
}

/// What is accepted is noted: the identifier joins those that were seen, the sender
/// has sent one more and was last seen now. Nothing is noted of any other message or
/// sender, and nothing else of the session changes but what the mode makes of it.
pub proof fn accepted_messages_are_noted<M: Mode + ?Sized>(
    before: Session,
    env: Envelope,
    mode: &M,
    now_ms: i64,
    after: Session,
    state: SessionState,
    other: Seq<char>,
)
    requires
        steps(before, env, mode, now_ms, after, Ok(StepOutcome::Accepted { state })),
        before.message_count(env.sender@) < u32::MAX,
    ensures
        after.seen_message_ids@ == before.seen_message_ids@.insert(env.message_id@),
        after.participant_message_counts@.dom() == before.participant_message_counts@.dom().insert(
            env.sender@,
        ),
        after.participant_message_counts@[env.sender@] == (
        if before.participant_message_counts@.dom().contains(env.sender@) {
            before.participant_message_counts@[env.sender@] + 1
        } else {
            1
        }),
        other != env.sender@ && before.participant_message_counts@.dom().contains(other)
            ==> after.participant_message_counts@[other]
            == before.participant_message_counts@[other],
        after.participant_last_seen@.dom() == before.participant_last_seen@.dom().insert(
            env.sender@,
        ),
        after.participant_last_seen@[env.sender@] == now_ms,
        other != env.sender@ && before.participant_last_seen@.dom().contains(other)
            ==> after.participant_last_seen@[other] == before.participant_last_seen@[other],
        after.ttl_expiry == before.ttl_expiry,
        after.suspended_at_ms == before.suspended_at_ms,
        after.accumulated_suspended_ms == before.accumulated_suspended_ms,
        after.suspension_intervals == before.suspension_intervals,
        same_terms(
            after,
            (Session {
                mode_state: after.mode_state,
                resolution: after.resolution,
                seen_message_ids: after.seen_message_ids,
                participant_message_counts: after.participant_message_counts,
                participant_last_seen: after.participant_last_seen,
                ..before
            }),
        ),
{
    assert(after.participant_message_counts@.dom() =~= before.participant_message_counts@.dom()
        .insert(env.sender@));
    assert(after.participant_last_seen@.dom() =~= before.participant_last_seen@.dom().insert(
        env.sender@,
    ));
}

/// A session whose deadline is past when a message arrives for it has expired, and
/// nothing else of it has changed.
pub proof fn late_messages_let_sessions_expire<M: Mode + ?Sized>(
    before: Session,
    env: Envelope,
    mode: &M,
    now_ms: i64,
    after: Session,
    r: Result<StepOutcome, MacpError>,
)
    requires
        steps(before, env, mode, now_ms, after, r),
        !before.seen_message_ids@.contains(env.message_id@),
        env.mode@ == before.mode@,
        before.state is Open,
        now_ms > before.ttl_expiry,
    ensures
        r == Err::<StepOutcome, MacpError>(MacpError::TtlExpired),
        after.state is Expired,
        after.ttl_expiry == before.ttl_expiry,
        after.suspended_at_ms == before.suspended_at_ms,
        after.accumulated_suspended_ms == before.accumulated_suspended_ms,
        after.suspension_intervals == before.suspension_intervals,
        same_terms(after, before),
{
}

/// A message that clients may not submit, though its sender may send, is refused as the
/// mode says before the mode looks any further, and the session stays as it was.
pub proof fn what_clients_may_not_submit_gets_nowhere<M: Mode + ?Sized>(
    before: Session,
    env: Envelope,
    mode: &M,
    now_ms: i64,
    after: Session,
    r: Result<StepOutcome, MacpError>,
    e: MacpError,
)
    requires
        steps(before, env, mode, now_ms, after, r),
        precheck(before, env, now_ms) == Ok::<Precheck, MacpError>(Precheck::Proceed),
        forall|answer: Result<(), MacpError>| #[trigger]
            call_ensures(M::authorize_sender, (mode, &before, &env), answer) ==> answer is Ok,
        forall|answer: Result<(), MacpError>| #[trigger]
            call_ensures(M::validate_client_envelope, (mode, &before, &env), answer) ==> answer
                == Err::<(), MacpError>(e),
    ensures
        r == Err::<StepOutcome, MacpError>(e),
        after == before,
{
}

} // verus!
