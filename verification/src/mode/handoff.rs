//! The handoff mode: the owner of a responsibility offers it to a participant,
//! who takes it or declines.

use crate::arithmetic::{clamp, larger, max, saturating_difference};
use crate::codec::recorded_in;
use crate::error::MacpError;
use crate::json::{json_of, json_text};
use crate::mode::handoff_state::{
    HandoffContextRecord, HandoffContextRecordView, HandoffDisposition, HandoffOfferRecord,
    HandoffOfferRecordView, HandoffState, HandoffStateView,
};
use crate::mode::util::{
    check_commitment_authority, decode_mode_state, encode_mode_state, enforce_commitment_policy,
    fitting_commitment, is_declared_participant, may_commit, policy_verdict,
    validate_commitment_payload_for_session,
};
use crate::mode::{same_answer, MessageContext, Mode, ModeResponse};
use crate::pb::commitment::CommitmentPayload;
use crate::pb::envelope::Envelope;
use crate::pb::handoff::{
    HandoffAcceptPayload, HandoffAcceptPayloadView, HandoffContextPayload,
    HandoffContextPayloadView, HandoffDeclinePayload, HandoffDeclinePayloadView,
    HandoffOfferPayload, HandoffOfferPayloadView,
};
use crate::policy::rules::{HandoffPolicyRules, HandoffPolicyRulesView};
use crate::policy::{
    CommitmentContext, CommitmentMode, PolicyDecision, PolicyDefinition, PolicyEvaluator,
};
use crate::session::{applied, Session, SessionState};
use crate::step::{
    commits as commits_message, steps, the_mode_has_to_agree, validates, StepOutcome,
};
use crate::text::{copy_bytes, has_prefix, same, starts_with, texts};
use crate::text_map::{in_order, lists, map_of, map_of_entry, map_of_key, map_of_next, TextMap};
use crate::wire::{signed, to_signed};
use std::sync::Arc;
use vstd::prelude::*;

verus! {

/// How the identifiers of the acceptances begin that the runtime makes where an
/// offer times out. No client may use them.
pub const IMPLICIT_ACCEPT_MESSAGE_ID_PREFIX: &'static str = "implicit-accept:";

// ---------------------------------------------------------------------------
// What the messages do to the state
// ---------------------------------------------------------------------------

/// The state of a session without offers.
pub open spec fn no_offers() -> HandoffStateView {
    HandoffStateView { offers: Map::empty(), contexts: Map::empty() }
}

/// Whether an offer of the state has the disposition.
pub open spec fn any_offer(s: HandoffStateView, d: HandoffDisposition) -> bool {
    exists|k: Seq<char>| #[trigger] s.offers.dom().contains(k) && s.offers[k].disposition == d
}

/// The state with the offer on record.
pub open spec fn with_offer(
    s: HandoffStateView,
    id: Seq<char>,
    offer: HandoffOfferRecordView,
) -> HandoffStateView {
    HandoffStateView { offers: s.offers.insert(id, offer), ..s }
}

/// An offer: to another participant, under an identifier of its own, and only
/// where no other is outstanding or accepted.
pub open spec fn offer_made(
    session: Session,
    sender: Seq<char>,
    p: HandoffOfferPayloadView,
    offered_at: i64,
    s: HandoffStateView,
) -> Result<HandoffStateView, MacpError> {
    if p.handoff_id.len() == 0 || p.target_participant.len() == 0 || s.offers.dom().contains(
        p.handoff_id,
    ) || !texts(session.participants@).contains(p.target_participant) || p.target_participant
        == sender || any_offer(s, HandoffDisposition::Offered) || any_offer(
        s,
        HandoffDisposition::Accepted,
    ) {
        Err(MacpError::InvalidPayload)
    } else {
        Ok(
            with_offer(
                s,
                p.handoff_id,
                HandoffOfferRecordView {
                    handoff_id: p.handoff_id,
                    target_participant: p.target_participant,
                    scope: p.scope,
                    reason: p.reason,
                    offered_by: sender,
                    disposition: HandoffDisposition::Offered,
                    accepted_by: None,
                    declined_by: None,
                    outcome_reason: None,
                    offered_at_ms: offered_at,
                    suspended_ms_at_offer: session.accumulated_suspended_ms,
                },
            ),
        )
    }
}

/// The context attached to an offer.
pub open spec fn contexts_of(s: HandoffStateView, id: Seq<char>) -> Seq<HandoffContextRecordView> {
    if s.contexts.dom().contains(id) {
        s.contexts[id]
    } else {
        seq![]
    }
}

/// Context: by the one who made the offer, at any time.
pub open spec fn context_added(
    sender: Seq<char>,
    p: HandoffContextPayloadView,
    s: HandoffStateView,
) -> Result<
    HandoffStateView,
    MacpError,
> {
    if !s.offers.dom().contains(p.handoff_id) {
        Err(MacpError::InvalidPayload)
    } else if s.offers[p.handoff_id].offered_by != sender {
        Err(MacpError::Forbidden)
    } else {
        Ok(
            HandoffStateView {
                contexts: s.contexts.insert(
                    p.handoff_id,
                    contexts_of(s, p.handoff_id).push(
                        HandoffContextRecordView {
                            content_type: p.content_type,
                            context: p.context,
                            sender,
                        },
                    ),
                ),
                ..s
            },
        )
    }
}

/// Who may answer an outstanding offer: the target, in its own name.
pub open spec fn answer_refused(
    sender: Seq<char>,
    id: Seq<char>,
    answered_by: Seq<char>,
    s: HandoffStateView,
) -> Option<MacpError> {
    if !s.offers.dom().contains(id) {
        Some(MacpError::InvalidPayload)
    } else if s.offers[id].target_participant != sender {
        Some(MacpError::Forbidden)
    } else if answered_by.len() > 0 && answered_by != sender {
        Some(MacpError::InvalidPayload)
    } else if s.offers[id].disposition != HandoffDisposition::Offered {
        Some(MacpError::InvalidPayload)
    } else {
        None
    }
}

/// An acceptance by the target. One marked as implicit is not for a sender to
/// make.
pub open spec fn offer_accepted(
    sender: Seq<char>,
    p: HandoffAcceptPayloadView,
    s: HandoffStateView,
) -> Result<
    HandoffStateView,
    MacpError,
> {
    if p.implicit {
        Err(MacpError::InvalidPayload)
    } else {
        match answer_refused(sender, p.handoff_id, p.accepted_by, s) {
            Some(e) => Err(e),
            None => Ok(
                with_offer(
                    s,
                    p.handoff_id,
                    HandoffOfferRecordView {
                        disposition: HandoffDisposition::Accepted,
                        accepted_by: Some(sender),
                        outcome_reason: Some(p.reason),
                        ..s.offers[p.handoff_id]
                    },
                ),
            ),
        }
    }
}

/// A refusal by the target.
pub open spec fn offer_declined(
    sender: Seq<char>,
    p: HandoffDeclinePayloadView,
    s: HandoffStateView,
) -> Result<
    HandoffStateView,
    MacpError,
> {
    match answer_refused(sender, p.handoff_id, p.declined_by, s) {
        Some(e) => Err(e),
        None => Ok(
            with_offer(
                s,
                p.handoff_id,
                HandoffOfferRecordView {
                    disposition: HandoffDisposition::Declined,
                    declined_by: Some(sender),
                    outcome_reason: Some(p.reason),
                    ..s.offers[p.handoff_id]
                },
            ),
        ),
    }
}

/// The difference in the arithmetic of 64 bits, which wraps around.
pub open spec fn wrapped(i: int) -> int {
    if i > i64::MAX {
        i - 0x1_0000_0000_0000_0000
    } else if i < i64::MIN {
        i + 0x1_0000_0000_0000_0000
    } else {
        i
    }
}

/// How long an offer has been waiting. From revision 2 on, the time that the
/// session was suspended since does not count.
pub open spec fn waited(session: Session, offer: HandoffOfferRecordView, now_ms: i64) -> int {
    if session.semantics_rev >= 2 {
        waited_unsuspended(session, offer, now_ms)
    } else {
        wrapped(now_ms - offer.offered_at_ms)
    }
}

/// How long an offer has been waiting, without the time that the session was
/// suspended since.
pub open spec fn waited_unsuspended(
    session: Session,
    offer: HandoffOfferRecordView,
    now_ms: i64,
) -> int {
    let suspended = larger(
        clamp(session.accumulated_suspended_ms - offer.suspended_ms_at_offer),
        0,
    );
    clamp(clamp(now_ms - offer.offered_at_ms) - suspended)
}

/// Whether an outstanding offer counts as accepted for want of an answer.
pub open spec fn timed_out(
    session: Session,
    offer: HandoffOfferRecordView,
    timeout: i64,
    now_ms: i64,
) -> bool {
    &&& offer.disposition == HandoffDisposition::Offered
    &&& offer.offered_at_ms > 0
    &&& waited(session, offer, now_ms) >= timeout
}

/// An offer, once it is seen to that it has timed out.
pub open spec fn settled(
    session: Session,
    offer: HandoffOfferRecordView,
    timeout: i64,
    now_ms: i64,
) -> HandoffOfferRecordView {
    if timed_out(session, offer, timeout, now_ms) {
        HandoffOfferRecordView {
            disposition: HandoffDisposition::Accepted,
            accepted_by: Some(offer.target_participant),
            outcome_reason: Some("implicit accept (timeout)"@),
            ..offer
        }
    } else {
        offer
    }
}

/// The rules that the policy of the session states; the default where it states
/// none that can be read.
pub open spec fn handoff_rules(policy: PolicyDefinition) -> HandoffPolicyRulesView {
    match HandoffPolicyRules::from_view(json_of(policy.rules)) {
        Some(rules) => rules,
        None => HandoffPolicyRules::default_view(),
    }
}

/// After how long an unanswered offer counts as accepted, where the policy says
/// so.
pub open spec fn implicit_timeout(session: Session) -> Option<i64> {
    match session.policy_definition {
        Some(policy) => {
            let timeout = handoff_rules(policy).acceptance.implicit_accept_timeout_ms;
            if timeout > 0 {
                Some(signed(timeout))
            } else {
                None
            }
        },
        None => None,
    }
}

/// The state, once it is seen to that offers have timed out.
pub open spec fn settled_state(
    session: Session,
    now_ms: i64,
    s: HandoffStateView,
) -> HandoffStateView {
    match implicit_timeout(session) {
        Some(timeout) => HandoffStateView {
            offers: Map::new(
                |k: Seq<char>| s.offers.dom().contains(k),
                |k: Seq<char>| settled(session, s.offers[k], timeout, now_ms),
            ),
            ..s
        },
        None => s,
    }
}

/// Whether the session can be committed: an offer has been answered.
pub open spec fn answered(s: HandoffStateView) -> bool {
    any_offer(s, HandoffDisposition::Accepted) || any_offer(s, HandoffDisposition::Declined)
}

/// The recorded state of a session; a session without a record has no offers.
pub open spec fn recorded_state(session: Session) -> Option<HandoffStateView> {
    if session.mode_state@.len() == 0 {
        Some(no_offers())
    } else {
        recorded_in::<HandoffState>(session.mode_state@)
    }
}

/// When an offer counts as made: by the runtime's clock, and in a session of
/// revision 0 by the sender's.
pub open spec fn offer_clock(session: Session, env: Envelope, clock_ms: i64) -> i64 {
    if session.semantics_rev >= 1 {
        clock_ms
    } else {
        env.timestamp_unix_ms
    }
}

/// What a message other than a commitment makes of the state.
pub open spec fn after_message(
    session: Session,
    env: Envelope,
    clock_ms: i64,
    s: HandoffStateView,
) -> Result<
    HandoffStateView,
    MacpError,
> {
    let sender = env.sender@;
    if env.message_type@ == "HandoffOffer"@ {
        match HandoffOfferPayload::from_bytes(env.payload@) {
            Some(p) => offer_made(session, sender, p, offer_clock(session, env, clock_ms), s),
            None => Err(MacpError::InvalidPayload),
        }
    } else if env.message_type@ == "HandoffContext"@ {
        match HandoffContextPayload::from_bytes(env.payload@) {
            Some(p) => context_added(sender, p, s),
            None => Err(MacpError::InvalidPayload),
        }
    } else if env.message_type@ == "HandoffAccept"@ {
        match HandoffAcceptPayload::from_bytes(env.payload@) {
            Some(p) => offer_accepted(sender, p, s),
            None => Err(MacpError::InvalidPayload),
        }
    } else if env.message_type@ == "HandoffDecline"@ {
        match HandoffDeclinePayload::from_bytes(env.payload@) {
            Some(p) => offer_declined(sender, p, s),
            None => Err(MacpError::InvalidPayload),
        }
    } else {
        Err(MacpError::InvalidPayload)
    }
}

/// Whether the bytes record the state.
pub open spec fn records(bytes: Seq<u8>, s: HandoffStateView) -> bool {
    &&& bytes.len() > 0
    &&& bytes == json_text(<HandoffState as crate::codec::Codec>::json(s))
    &&& recorded_in::<HandoffState>(bytes) == Some(s)
}

/// Whether the response records the next state, or the message is refused with
/// its error.
pub open spec fn persists(
    next: Result<HandoffStateView, MacpError>,
    r: Result<ModeResponse, MacpError>,
) -> bool {
    match next {
        Ok(s) => r is Ok && r->Ok_0 is PersistState && records(r->Ok_0->PersistState_0@, s),
        Err(e) => r == Err::<ModeResponse, MacpError>(e),
    }
}

/// What a commitment makes of the session: once offers that have timed out are
/// accepted, an answer is there, and the policy lets it through, it resolves the
/// session.
pub open spec fn commits<E: PolicyEvaluator + ?Sized>(
    evaluator: &E,
    session: Session,
    env: Envelope,
    clock_ms: i64,
    s: HandoffStateView,
    r: Result<ModeResponse, MacpError>,
) -> bool {
    let next = settled_state(session, clock_ms, s);
    match fitting_commitment(session, env.payload@) {
        None => r == Err::<ModeResponse, MacpError>(MacpError::InvalidPayload),
        Some(c) => if !answered(next) {
            r == Err::<ModeResponse, MacpError>(MacpError::InvalidPayload)
        } else {
            exists|verdict: Result<(), MacpError>|
                {
                    &&& #[trigger] policy_verdict(
                        session,
                        CommitmentMode::Handoff,
                        c.outcome_positive,
                        evaluator,
                        verdict,
                    )
                    &&& match verdict {
                        Ok(()) => {
                            &&& r is Ok
                            &&& r->Ok_0 is PersistAndResolve
                            &&& records(r->Ok_0->state@, next)
                            &&& r->Ok_0->resolution@ == env.payload@
                        },
                        Err(e) => r == Err::<ModeResponse, MacpError>(e),
                    }
                }
        },
    }
}

/// What the mode makes of a message at the given time.
pub open spec fn handles<E: PolicyEvaluator + ?Sized>(
    evaluator: &E,
    session: Session,
    env: Envelope,
    clock_ms: i64,
    r: Result<ModeResponse, MacpError>,
) -> bool {
    match recorded_state(session) {
        None => r == Err::<ModeResponse, MacpError>(MacpError::InvalidModeState),
        Some(s) => if env.message_type@ == "Commitment"@ {
            commits(evaluator, session, env, clock_ms, s, r)
        } else {
            persists(after_message(session, env, clock_ms, s), r)
        },
    }
}

/// The clock of a message: the runtime's, and in a session of revision 0 the
/// sender's.
pub open spec fn message_clock(session: Session, env: Envelope, ctx: MessageContext) -> i64 {
    if session.semantics_rev >= 1 {
        ctx.accepted_at_ms
    } else {
        env.timestamp_unix_ms
    }
}

/// What is said to a client that submits the message: from revision 2 on, the
/// identifiers and the acceptances that are the runtime's own are refused.
pub open spec fn client_verdict(session: Session, env: Envelope) -> Result<(), MacpError> {
    if session.semantics_rev < 2 {
        Ok(())
    } else if has_prefix(env.message_id@, IMPLICIT_ACCEPT_MESSAGE_ID_PREFIX@) {
        Err(MacpError::InvalidEnvelope)
    } else if env.message_type@ == "HandoffAccept"@ && HandoffAcceptPayload::from_bytes(
        env.payload@,
    ) is Some && HandoffAcceptPayload::from_bytes(env.payload@)->0.implicit {
        Err(MacpError::InvalidPayload)
    } else {
        Ok(())
    }
}

/// Who may send which message: offers come from the initiator, commitments from
/// whoever the policy says, and the rest from participants.
pub open spec fn sender_admitted(session: Session, env: Envelope) -> bool {
    if env.message_type@ == "Commitment"@ {
        may_commit(session, env.sender@)
    } else if env.message_type@ == "HandoffOffer"@ {
        env.sender@ == session.initiator_sender@
    } else {
        texts(session.participants@).contains(env.sender@)
    }
}

/// Whether a session may be opened: its owner and someone else take part.
pub open spec fn roster_fits(session: Session) -> bool {
    &&& session.participants@.len() >= 2
    &&& texts(session.participants@).contains(session.initiator_sender@)
}

// ---------------------------------------------------------------------------
// The mode
// ---------------------------------------------------------------------------

/// The handoff mode.
pub struct HandoffMode<E: PolicyEvaluator + ?Sized> {
    evaluator: Arc<E>,
}

impl<E: PolicyEvaluator + ?Sized> HandoffMode<E> {
    /// The evaluator that gates commitments.
    pub closed spec fn evaluator(&self) -> &E {
        &*self.evaluator
    }

    /// The mode with the evaluator that gates its commitments.
    pub fn new(evaluator: Arc<E>) -> (r: Self)
        ensures
            r.evaluator() == &*evaluator,
    {
        HandoffMode { evaluator }
    }

    /// Records a state.
    pub fn encode_state(state: &HandoffState) -> (r: Vec<u8>)
        ensures
            records(r@, state.deep_view()),
    {
        encode_mode_state(state)
    }

    /// Reads a recorded state.
    pub fn decode_state(data: &[u8]) -> (r: Result<HandoffState, MacpError>)
        ensures
            r is Ok <==> recorded_in::<HandoffState>(data@) is Some,
            r is Ok ==> r->Ok_0.deep_view() == recorded_in::<HandoffState>(data@)->0,
            r is Err ==> r->Err_0 == MacpError::InvalidModeState,
    {
        decode_mode_state::<HandoffState>(data)
    }

    fn load(session: &Session) -> (r: Result<HandoffState, MacpError>)
        ensures
            r is Ok <==> recorded_state(*session) is Some,
            r is Ok ==> r->Ok_0.deep_view() == recorded_state(*session)->0,
            r is Err ==> r->Err_0 == MacpError::InvalidModeState,
    {
        if session.mode_state.len() == 0 {
            let state = HandoffState { offers: TextMap::new(), contexts: TextMap::new() };
            assert(state.deep_view() == no_offers());
            Ok(state)
        } else {
            Self::decode_state(session.mode_state.as_slice())
        }
    }

    /// How long the offer has been waiting.
    fn implicit_accept_elapsed_ms(
        session: &Session,
        offer: &HandoffOfferRecord,
        now_ms: i64,
    ) -> (r: i64)
        ensures
            r == waited(*session, offer.deep_view(), now_ms),
    {
        if session.semantics_rev >= 2 {
            Self::rev2_elapsed_ms(session, offer, now_ms)
        } else {
            now_ms.wrapping_sub(offer.offered_at_ms)
        }
    }

    /// How long the offer has been waiting, without the time that the session
    /// was suspended since.
    pub fn rev2_elapsed_ms(session: &Session, offer: &HandoffOfferRecord, now_ms: i64) -> (r: i64)
        ensures
            r == waited_unsuspended(*session, offer.deep_view(), now_ms),
    {
        let suspended_since_offer: i64 = max(
            saturating_difference(session.accumulated_suspended_ms, offer.suspended_ms_at_offer),
            0,
        );
        saturating_difference(
            saturating_difference(now_ms, offer.offered_at_ms),
            suspended_since_offer,
        )
    }

    fn any_with(offers: &TextMap<HandoffOfferRecord>, d: HandoffDisposition) -> (r: bool)
        ensures
            r == exists|k: Seq<char>| #[trigger]
                offers@.dom().contains(k) && offers@[k].disposition == d,
    {
        let ghost entries = in_order(offers@);
        let n: usize = offers.len();
        let mut i: usize = 0;
        while i < n
            invariant
                i <= n,
                entries == in_order(offers@),
                n == entries.len(),
                lists(entries, offers@),
                forall|j: int| 0 <= j < i ==> (#[trigger] entries[j]).1.disposition != d,
            decreases n - i,
        {
            if offers.value_at(i).disposition == d {
                proof {
                    map_of_entry(entries, i as int);
                    assert(offers@.dom().contains(entries[i as int].0));
                }
                return true;
            }
            i = i + 1;
        }
        proof {
            if exists|k: Seq<char>| #[trigger]
                offers@.dom().contains(k) && offers@[k].disposition == d {
                let k = choose|k: Seq<char>| #[trigger]
                    offers@.dom().contains(k) && offers@[k].disposition == d;
                let j = map_of_key(entries, k);
            }
        }
        false
    }

    fn commitment_ready(state: &HandoffState) -> (r: bool)
        ensures
            r == answered(state.deep_view()),
    {
        Self::any_with(&state.offers, HandoffDisposition::Accepted) || Self::any_with(
            &state.offers,
            HandoffDisposition::Declined,
        )
    }

    fn answer(
        offer: &HandoffOfferRecord,
        disposition: HandoffDisposition,
        accepted_by: Option<String>,
        declined_by: Option<String>,
        reason: String,
    ) -> (r: HandoffOfferRecord)
        ensures
            r.deep_view() == (HandoffOfferRecordView {
                disposition,
                accepted_by: accepted_by.deep_view(),
                declined_by: declined_by.deep_view(),
                outcome_reason: Some(reason@),
                ..offer.deep_view()
            }),
    {
        HandoffOfferRecord {
            handoff_id: offer.handoff_id.clone(),
            target_participant: offer.target_participant.clone(),
            scope: offer.scope.clone(),
            reason: offer.reason.clone(),
            offered_by: offer.offered_by.clone(),
            disposition,
            accepted_by,
            declined_by,
            outcome_reason: Some(reason),
            offered_at_ms: offer.offered_at_ms,
            suspended_ms_at_offer: offer.suspended_ms_at_offer,
        }
    }

    fn copy_optional(text: &Option<String>) -> (r: Option<String>)
        ensures
            r.deep_view() == text.deep_view(),
    {
        match text {
            Some(s) => Some(s.clone()),
            None => None,
        }
    }

    fn settle_offer(
        session: &Session,
        offer: &HandoffOfferRecord,
        timeout: i64,
        now_ms: i64,
    ) -> (r: HandoffOfferRecord)
        ensures
            r.deep_view() == settled(*session, offer.deep_view(), timeout, now_ms),
    {
        if offer.disposition == HandoffDisposition::Offered && offer.offered_at_ms > 0
            && Self::implicit_accept_elapsed_ms(session, offer, now_ms) >= timeout {
            Self::answer(
                offer,
                HandoffDisposition::Accepted,
                Some(offer.target_participant.clone()),
                Self::copy_optional(&offer.declined_by),
                "implicit accept (timeout)".to_owned(),
            )
        } else {
            HandoffOfferRecord {
                handoff_id: offer.handoff_id.clone(),
                target_participant: offer.target_participant.clone(),
                scope: offer.scope.clone(),
                reason: offer.reason.clone(),
                offered_by: offer.offered_by.clone(),
                disposition: offer.disposition,
                accepted_by: Self::copy_optional(&offer.accepted_by),
                declined_by: Self::copy_optional(&offer.declined_by),
                outcome_reason: Self::copy_optional(&offer.outcome_reason),
                offered_at_ms: offer.offered_at_ms,
                suspended_ms_at_offer: offer.suspended_ms_at_offer,
            }
        }
    }

    fn settle_offers(
        session: &Session,
        offers: &TextMap<HandoffOfferRecord>,
        timeout: i64,
        now_ms: i64,
    ) -> (r: TextMap<HandoffOfferRecord>)
        ensures
            r@ == Map::new(
                |k: Seq<char>| offers@.dom().contains(k),
                |k: Seq<char>| settled(*session, offers@[k], timeout, now_ms),
            ),
    {
        let ghost entries = in_order(offers@);
        let ghost next = Seq::new(
            entries.len(),
            |j: int| (entries[j].0, settled(*session, entries[j].1, timeout, now_ms)),
        );
        let n: usize = offers.len();
        let mut r: TextMap<HandoffOfferRecord> = TextMap::new();
        let mut i: usize = 0;
        proof {
            assert(map_of(next.take(0)) =~= Map::empty());
            assert(crate::text_map::ascending(next)) by {
                assert forall|a: int, b: int| 0 <= a < b < next.len() implies crate::text::text_before(
                    #[trigger] next[a].0,
                    #[trigger] next[b].0,
                ) by {
                    assert(crate::text::text_before(entries[a].0, entries[b].0));
                }
            }
        }
        while i < n
            invariant
                i <= n,
                entries == in_order(offers@),
                n == entries.len(),
                next == Seq::new(
                    entries.len(),
                    |j: int| (entries[j].0, settled(*session, entries[j].1, timeout, now_ms)),
                ),
                crate::text_map::ascending(next),
                r@ == map_of(next.take(i as int)),
            decreases n - i,
        {
            proof {
                map_of_next(next, i as int);
            }
            r.insert(
                offers.key_at(i).to_owned(),
                Self::settle_offer(session, offers.value_at(i), timeout, now_ms),
            );
            i = i + 1;
        }
        proof {
            assert(next.take(i as int) =~= next);
            let want = Map::new(
                |k: Seq<char>| offers@.dom().contains(k),
                |k: Seq<char>| settled(*session, offers@[k], timeout, now_ms),
            );
            assert forall|k: Seq<char>| r@.dom().contains(k) == want.dom().contains(k) by {
                if r@.dom().contains(k) {
                    let j = map_of_key(next, k);
                    map_of_entry(entries, j);
                }
                if want.dom().contains(k) {
                    let j = map_of_key(entries, k);
                    map_of_entry(next, j);
                }
            }
            assert forall|k: Seq<char>| r@.dom().contains(k) implies r@[k] == want[k] by {
                let j = map_of_key(next, k);
                map_of_entry(entries, j);
            }
            assert(r@ =~= want);
        }
        r
    }

    /// Accepts the offers that have timed out.
    fn settle(session: &Session, state: HandoffState, now_ms: i64) -> (r: HandoffState)
        ensures
            r.deep_view() == settled_state(*session, now_ms, state.deep_view()),
    {
        if let Some(policy) = &session.policy_definition {
            let rules: HandoffPolicyRules = match HandoffPolicyRules::from_json(&policy.rules) {
                Some(rules) => rules,
                None => HandoffPolicyRules::default(),
            };
            if rules.acceptance.implicit_accept_timeout_ms > 0 {
                let timeout: i64 = to_signed(rules.acceptance.implicit_accept_timeout_ms);
                return HandoffState {
                    offers: Self::settle_offers(session, &state.offers, timeout, now_ms),
                    contexts: state.contexts,
                };
            }
        }
        state
    }

    fn handle_offer(session: &Session, env: &Envelope, clock_ms: i64, state: HandoffState) -> (r:
        Result<ModeResponse, MacpError>)
        requires
            env.message_type@ == "HandoffOffer"@,
        ensures
            persists(after_message(*session, *env, clock_ms, state.deep_view()), r),
    {
        let payload: HandoffOfferPayload = match HandoffOfferPayload::decode(
            env.payload.as_slice(),
        ) {
            Some(payload) => payload,
            None => return Err(MacpError::InvalidPayload),
        };
        if payload.handoff_id.as_str().is_empty() || payload.target_participant.as_str().is_empty()
            || state.offers.contains_key(payload.handoff_id.as_str()) || !is_declared_participant(
            session.participants.as_slice(),
            payload.target_participant.as_str(),
        ) || same(payload.target_participant.as_str(), env.sender.as_str()) || Self::any_with(
            &state.offers,
            HandoffDisposition::Offered,
        ) || Self::any_with(&state.offers, HandoffDisposition::Accepted) {
            return Err(MacpError::InvalidPayload);
        }
        let offered_at_ms: i64 = if session.semantics_rev >= 1 {
            clock_ms
        } else {
            env.timestamp_unix_ms
        };
        let id: String = payload.handoff_id.clone();
        let record = HandoffOfferRecord {
            handoff_id: payload.handoff_id,
            target_participant: payload.target_participant,
            scope: payload.scope,
            reason: payload.reason,
            offered_by: env.sender.clone(),
            disposition: HandoffDisposition::Offered,
            accepted_by: None,
            declined_by: None,
            outcome_reason: None,
            offered_at_ms,
            suspended_ms_at_offer: session.accumulated_suspended_ms,
        };
        let mut offers: TextMap<HandoffOfferRecord> = state.offers;
        offers.insert(id, record);
        let next = HandoffState { offers, contexts: state.contexts };
        Ok(ModeResponse::PersistState(Self::encode_state(&next)))
    }

    fn copy_contexts(list: &Vec<HandoffContextRecord>) -> (r: Vec<HandoffContextRecord>)
        ensures
            r.deep_view() == list.deep_view(),
    {
        let mut r: Vec<HandoffContextRecord> = Vec::new();
        let mut i: usize = 0;
        while i < list.len()
            invariant
                i <= list@.len(),
                r@.len() == i,
                forall|j: int|
                    0 <= j < i ==> (#[trigger] r@[j]).deep_view() == list@[j].deep_view(),
            decreases list@.len() - i,
        {
            let record = HandoffContextRecord {
                content_type: list[i].content_type.clone(),
                context: copy_bytes(list[i].context.as_slice()),
                sender: list[i].sender.clone(),
            };
            assert(record.deep_view() =~= list@[i as int].deep_view());
            r.push(record);
            i = i + 1;
        }
        assert(r.deep_view() =~= list.deep_view());
        r
    }

    fn handle_context(env: &Envelope, state: HandoffState) -> (r: Result<ModeResponse, MacpError>)
        ensures
            match HandoffContextPayload::from_bytes(env.payload@) {
                Some(p) => persists(context_added(env.sender@, p, state.deep_view()), r),
                None => r == Err::<ModeResponse, MacpError>(MacpError::InvalidPayload),
            },
    {
        let payload: HandoffContextPayload = match HandoffContextPayload::decode(
            env.payload.as_slice(),
        ) {
            Some(payload) => payload,
            None => return Err(MacpError::InvalidPayload),
        };
        match state.offers.get(payload.handoff_id.as_str()) {
            None => return Err(MacpError::InvalidPayload),
            Some(offer) => {
                if !same(offer.offered_by.as_str(), env.sender.as_str()) {
                    return Err(MacpError::Forbidden);
                }
            },
        }
        let mut list: Vec<HandoffContextRecord> = match state.contexts.get(
            payload.handoff_id.as_str(),
        ) {
            Some(list) => Self::copy_contexts(list),
            None => Vec::new(),
        };
        let ghost before = list.deep_view();
        assert(before =~= contexts_of(state.deep_view(), payload.handoff_id@));
        let record = HandoffContextRecord {
            content_type: payload.content_type,
            context: payload.context,
            sender: env.sender.clone(),
        };
        assert(record.context.deep_view() =~= record.context@);
        let ghost added = record.deep_view();
        list.push(record);
        assert(list.deep_view() =~= before.push(added));
        let mut contexts: TextMap<Vec<HandoffContextRecord>> = state.contexts;
        contexts.insert(payload.handoff_id, list);
        let next = HandoffState { offers: state.offers, contexts };
        Ok(ModeResponse::PersistState(Self::encode_state(&next)))
    }

    fn check_answer(
        env: &Envelope,
        id: &str,
        answered_by: &str,
        offers: &TextMap<HandoffOfferRecord>,
        Ghost(s): Ghost<HandoffStateView>,
    ) -> (r: Result<(), MacpError>)
        requires
            s.offers == offers@,
        ensures
            match answer_refused(env.sender@, id@, answered_by@, s) {
                Some(e) => r == Err::<(), MacpError>(e),
                None => r is Ok,
            },
    {
        match offers.get(id) {
            None => Err(MacpError::InvalidPayload),
            Some(offer) => {
                if !same(offer.target_participant.as_str(), env.sender.as_str()) {
                    return Err(MacpError::Forbidden);
                }
                if !answered_by.is_empty() && !same(answered_by, env.sender.as_str()) {
                    return Err(MacpError::InvalidPayload);
                }
                if offer.disposition != HandoffDisposition::Offered {
                    return Err(MacpError::InvalidPayload);
                }
                Ok(())
            },
        }
    }

    fn handle_accept(env: &Envelope, state: HandoffState) -> (r: Result<ModeResponse, MacpError>)
        ensures
            match HandoffAcceptPayload::from_bytes(env.payload@) {
                Some(p) => persists(offer_accepted(env.sender@, p, state.deep_view()), r),
                None => r == Err::<ModeResponse, MacpError>(MacpError::InvalidPayload),
            },
    {
        let payload: HandoffAcceptPayload = match HandoffAcceptPayload::decode(
            env.payload.as_slice(),
        ) {
            Some(payload) => payload,
            None => return Err(MacpError::InvalidPayload),
        };
        if payload.implicit {
            return Err(MacpError::InvalidPayload);
        }
        match Self::check_answer(
            env,
            payload.handoff_id.as_str(),
            payload.accepted_by.as_str(),
            &state.offers,
            Ghost(state.deep_view()),
        ) {
            Ok(()) => {},
            Err(e) => return Err(e),
        }
        let accepted: HandoffOfferRecord = match state.offers.get(payload.handoff_id.as_str()) {
            None => return Err(MacpError::InvalidPayload),
            Some(offer) => Self::answer(
                offer,
                HandoffDisposition::Accepted,
                Some(env.sender.clone()),
                Self::copy_optional(&offer.declined_by),
                payload.reason,
            ),
        };
        let mut offers: TextMap<HandoffOfferRecord> = state.offers;
        offers.insert(payload.handoff_id, accepted);
        let next = HandoffState { offers, contexts: state.contexts };
        Ok(ModeResponse::PersistState(Self::encode_state(&next)))
    }

    fn handle_decline(env: &Envelope, state: HandoffState) -> (r: Result<ModeResponse, MacpError>)
        ensures
            match HandoffDeclinePayload::from_bytes(env.payload@) {
                Some(p) => persists(offer_declined(env.sender@, p, state.deep_view()), r),
                None => r == Err::<ModeResponse, MacpError>(MacpError::InvalidPayload),
            },
    {
        let payload: HandoffDeclinePayload = match HandoffDeclinePayload::decode(
            env.payload.as_slice(),
        ) {
            Some(payload) => payload,
            None => return Err(MacpError::InvalidPayload),
        };
        match Self::check_answer(
            env,
            payload.handoff_id.as_str(),
            payload.declined_by.as_str(),
            &state.offers,
            Ghost(state.deep_view()),
        ) {
            Ok(()) => {},
            Err(e) => return Err(e),
        }
        let declined: HandoffOfferRecord = match state.offers.get(payload.handoff_id.as_str()) {
            None => return Err(MacpError::InvalidPayload),
            Some(offer) => Self::answer(
                offer,
                HandoffDisposition::Declined,
                Self::copy_optional(&offer.accepted_by),
                Some(env.sender.clone()),
                payload.reason,
            ),
        };
        let mut offers: TextMap<HandoffOfferRecord> = state.offers;
        offers.insert(payload.handoff_id, declined);
        let next = HandoffState { offers, contexts: state.contexts };
        Ok(ModeResponse::PersistState(Self::encode_state(&next)))
    }

    fn handle_commitment(&self, session: &Session, env: &Envelope, clock_ms: i64, state: HandoffState) -> (r:
        Result<ModeResponse, MacpError>)
        ensures
            commits(self.evaluator(), *session, *env, clock_ms, state.deep_view(), r),
    {
        let commitment: CommitmentPayload = match validate_commitment_payload_for_session(
            session,
            env.payload.as_slice(),
        ) {
            Ok(commitment) => commitment,
            Err(e) => return Err(e),
        };
        let next: HandoffState = Self::settle(session, state, clock_ms);
        if !Self::commitment_ready(&next) {
            return Err(MacpError::InvalidPayload);
        }
        let evaluator: &E = &*self.evaluator;
        let verdict: Result<(), MacpError> = enforce_commitment_policy(
            session,
            CommitmentMode::Handoff,
            commitment.outcome_positive,
            evaluator,
        );
        assert(policy_verdict(
            *session,
            CommitmentMode::Handoff,
            commitment.outcome_positive,
            self.evaluator(),
            verdict,
        ));
        match verdict {
            Ok(()) => {},
            Err(e) => return Err(e),
        }
        Ok(
            ModeResponse::PersistAndResolve {
                state: Self::encode_state(&next),
                resolution: copy_bytes(env.payload.as_slice()),
            },
        )
    }

    /// Handles a message at the given time. What it records is well kept where
    /// what it found is.
    pub fn handle_message(&self, session: &Session, env: &Envelope, clock_ms: i64) -> (r: Result<
        ModeResponse,
        MacpError,
    >)
        ensures
            handles(self.evaluator(), *session, *env, clock_ms, r),
            r is Ok && well_kept(recorded_state(*session)->0) ==> {
                &&& recorded_state(applied(*session, r->Ok_0)) is Some
                &&& well_kept(recorded_state(applied(*session, r->Ok_0))->0)
            },
    {
        let r: Result<ModeResponse, MacpError> = self.answer_message(session, env, clock_ms);
        proof {
            if r is Ok {
                let after = applied(*session, r->Ok_0);
                assert(handles(self.evaluator(), *session, *env, clock_ms, Ok(r->Ok_0)));
                assert(leads_to(self.evaluator(), *session, after));
                leads_to_what_follows(self.evaluator(), *session, after);
            }
        }
        r
    }

    fn answer_message(&self, session: &Session, env: &Envelope, clock_ms: i64) -> (r: Result<
        ModeResponse,
        MacpError,
    >)
        ensures
            handles(self.evaluator(), *session, *env, clock_ms, r),
    {
        proof {
            message_types_differ();
        }
        let state: HandoffState = match Self::load(session) {
            Ok(state) => state,
            Err(e) => return Err(e),
        };
        let message_type: &str = env.message_type.as_str();
        if same(message_type, "HandoffOffer") {
            Self::handle_offer(session, env, clock_ms, state)
        } else if same(message_type, "HandoffContext") {
            Self::handle_context(env, state)
        } else if same(message_type, "HandoffAccept") {
            Self::handle_accept(env, state)
        } else if same(message_type, "HandoffDecline") {
            Self::handle_decline(env, state)
        } else if same(message_type, "Commitment") {
            self.handle_commitment(session, env, clock_ms, state)
        } else {
            Err(MacpError::InvalidPayload)
        }
    }
}

proof fn message_types_differ()
    ensures
        "Commitment"@ != "HandoffOffer"@,
        "Commitment"@ != "HandoffContext"@,
        "Commitment"@ != "HandoffAccept"@,
        "Commitment"@ != "HandoffDecline"@,
{
    reveal_strlit("Commitment");
    reveal_strlit("HandoffOffer");
    reveal_strlit("HandoffContext");
    reveal_strlit("HandoffAccept");
    reveal_strlit("HandoffDecline");
    assert("Commitment"@.len() == 10);
    assert("HandoffOffer"@.len() == 12);
    assert("HandoffContext"@.len() == 14);
    assert("HandoffAccept"@.len() == 13);
    assert("HandoffDecline"@.len() == 14);
}

impl<E: PolicyEvaluator + ?Sized> Mode for HandoffMode<E> {
    fn on_session_start(&self, session: &Session, env: &Envelope) -> (r: Result<
        ModeResponse,
        MacpError,
    >)
        ensures
            persists(
                if roster_fits(*session) {
                    Ok(no_offers())
                } else {
                    Err(MacpError::InvalidPayload)
                },
                r,
            ),
    {
        let _ = env;
        if session.participants.len() < 2 {
            return Err(MacpError::InvalidPayload);
        }
        if !is_declared_participant(
            session.participants.as_slice(),
            session.initiator_sender.as_str(),
        ) {
            return Err(MacpError::InvalidPayload);
        }
        let state = HandoffState { offers: TextMap::new(), contexts: TextMap::new() };
        assert(state.deep_view() == no_offers());
        Ok(ModeResponse::PersistState(Self::encode_state(&state)))
    }

    fn on_message(&self, session: &Session, env: &Envelope) -> (r: Result<ModeResponse, MacpError>)
        ensures
            handles(self.evaluator(), *session, *env, env.timestamp_unix_ms, r),
    {
        self.handle_message(session, env, env.timestamp_unix_ms)
    }

    fn on_message_at(&self, session: &Session, env: &Envelope, ctx: &MessageContext) -> (r: Result<
        ModeResponse,
        MacpError,
    >)
        ensures
            handles(self.evaluator(), *session, *env, message_clock(*session, *env, *ctx), r),
    {
        let clock_ms: i64 = if session.semantics_rev >= 1 {
            ctx.accepted_at_ms
        } else {
            env.timestamp_unix_ms
        };
        self.handle_message(session, env, clock_ms)
    }

    fn validate_client_envelope(&self, session: &Session, env: &Envelope) -> (r: Result<
        (),
        MacpError,
    >)
        ensures
            r == client_verdict(*session, *env),
    {
        if session.semantics_rev < 2 {
            return Ok(());
        }
        if starts_with(env.message_id.as_str(), IMPLICIT_ACCEPT_MESSAGE_ID_PREFIX) {
            return Err(MacpError::InvalidEnvelope);
        }
        if same(env.message_type.as_str(), "HandoffAccept") {
            if let Some(payload) = HandoffAcceptPayload::decode(env.payload.as_slice()) {
                if payload.implicit {
                    return Err(MacpError::InvalidPayload);
                }
            }
        }
        Ok(())
    }

    fn authorize_sender(&self, session: &Session, env: &Envelope) -> (r: Result<(), MacpError>)
        ensures
            r == if sender_admitted(*session, *env) {
                Ok::<(), MacpError>(())
            } else {
                Err(MacpError::Forbidden)
            },
    {
        let message_type: &str = env.message_type.as_str();
        if same(message_type, "Commitment") {
            return check_commitment_authority(session, env.sender.as_str());
        }
        let admitted: bool = if same(message_type, "HandoffOffer") {
            same(env.sender.as_str(), session.initiator_sender.as_str())
        } else {
            is_declared_participant(session.participants.as_slice(), env.sender.as_str())
        };
        if admitted {
            Ok(())
        } else {
            Err(MacpError::Forbidden)
        }
    }
}

// ---------------------------------------------------------------------------
// What always holds
// ---------------------------------------------------------------------------

/// Whether the offer stands in the way of another one.
pub open spec fn is_live(offer: HandoffOfferRecordView) -> bool {
    offer.disposition == HandoffDisposition::Offered || offer.disposition
        == HandoffDisposition::Accepted
}

/// Whether an offer is one that messages lead to: it is on record under its own
/// identifier, and says who accepted or declined it exactly where someone has.
pub open spec fn offer_well_kept(id: Seq<char>, offer: HandoffOfferRecordView) -> bool {
    &&& offer.handoff_id == id
    &&& offer.accepted_by is Some <==> offer.disposition == HandoffDisposition::Accepted
    &&& offer.declined_by is Some <==> offer.disposition == HandoffDisposition::Declined
}

/// Whether a state is one that messages lead to: at most one offer is outstanding
/// or accepted, every offer is well kept, and all context belongs to an offer.
pub open spec fn well_kept(s: HandoffStateView) -> bool {
    &&& forall|a: Seq<char>, b: Seq<char>|
        s.offers.dom().contains(a) && s.offers.dom().contains(b) && is_live(
            #[trigger] s.offers[a],
        ) && is_live(#[trigger] s.offers[b]) ==> a == b
    &&& forall|a: Seq<char>|
        s.offers.dom().contains(a) ==> offer_well_kept(a, #[trigger] s.offers[a])
    &&& s.contexts.dom().subset_of(s.offers.dom())
}

/// A session without offers is well kept.
pub proof fn no_offers_well_kept()
    ensures
        well_kept(no_offers()),
{
}

/// At most one offer is outstanding or accepted at any time, every offer stays
/// under its own identifier and says who answered it, and all context belongs to
/// an offer: no message changes that.
pub proof fn messages_keep_one_live_offer(
    session: Session,
    env: Envelope,
    clock_ms: i64,
    s: HandoffStateView,
)
    requires
        well_kept(s),
        after_message(session, env, clock_ms, s) is Ok,
    ensures
        well_kept(after_message(session, env, clock_ms, s)->Ok_0),
{
    let next = after_message(session, env, clock_ms, s)->Ok_0;
    assert forall|a: Seq<char>, b: Seq<char>|
        next.offers.dom().contains(a) && next.offers.dom().contains(b) && is_live(
            #[trigger] next.offers[a],
        ) && is_live(#[trigger] next.offers[b]) implies a == b by {
        if s.offers.dom().contains(a) && s.offers.dom().contains(b) {
            assert(is_live(s.offers[a]));
            assert(is_live(s.offers[b]));
        }
    }
    assert forall|a: Seq<char>| next.offers.dom().contains(a) implies offer_well_kept(
        a,
        #[trigger] next.offers[a],
    ) by {
        if s.offers.dom().contains(a) {
            assert(offer_well_kept(a, s.offers[a]));
        }
    }
}

/// Timeouts keep to it as well.
pub proof fn timeouts_keep_one_live_offer(session: Session, now_ms: i64, s: HandoffStateView)
    requires
        well_kept(s),
    ensures
        well_kept(settled_state(session, now_ms, s)),
{
    let next = settled_state(session, now_ms, s);
    assert forall|a: Seq<char>, b: Seq<char>|
        next.offers.dom().contains(a) && next.offers.dom().contains(b) && is_live(
            #[trigger] next.offers[a],
        ) && is_live(#[trigger] next.offers[b]) implies a == b by {
        assert(is_live(s.offers[a]));
        assert(is_live(s.offers[b]));
    }
    assert forall|a: Seq<char>| next.offers.dom().contains(a) implies offer_well_kept(
        a,
        #[trigger] next.offers[a],
    ) by {
        assert(offer_well_kept(a, s.offers[a]));
    }
}

/// What the mode has recorded is what the next message finds.
pub proof fn next_message_starts_here(
    session: Session,
    response: ModeResponse,
    s: HandoffStateView,
)
    requires
        response is PersistState,
        records(response->PersistState_0@, s),
    ensures
        recorded_state(applied(session, response)) == Some(s),
{
}

/// Whether the mode state of the one session becomes that of the other: it stays,
/// or a message is handled at some time and what the mode made of it is taken
/// over. What else there is to a session may have changed meanwhile.
pub open spec fn leads_to<E: PolicyEvaluator + ?Sized>(
    evaluator: &E,
    before: Session,
    after: Session,
) -> bool {
    ||| after.mode_state@ == before.mode_state@
    ||| exists|env: Envelope, clock_ms: i64, response: ModeResponse|
        #[trigger] handles(evaluator, before, env, clock_ms, Ok(response))
            && after.mode_state@ == applied(before, response).mode_state@
}

/// Whether each of the sessions leads to the next.
pub open spec fn is_run<E: PolicyEvaluator + ?Sized>(
    evaluator: &E,
    sessions: Seq<Session>,
) -> bool {
    forall|i: int|
        0 <= i < sessions.len() - 1 ==> leads_to(
            evaluator,
            #[trigger] sessions[i],
            sessions[i + 1],
        )
}

/// Whether a state may follow the other: it is well kept where the other is, and
/// every answered offer is as it was.
pub open spec fn follows(s: HandoffStateView, next: HandoffStateView) -> bool {
    &&& well_kept(s) ==> well_kept(next)
    &&& forall|id: Seq<char>|
        s.offers.dom().contains(id) ==> next.offers.dom().contains(id)
            && (s.offers[id].disposition != HandoffDisposition::Offered
            ==> #[trigger] next.offers[id] == s.offers[id])
}

proof fn leads_to_what_follows<E: PolicyEvaluator + ?Sized>(
    evaluator: &E,
    before: Session,
    after: Session,
)
    requires
        leads_to(evaluator, before, after),
        recorded_state(before) is Some,
    ensures
        recorded_state(after) is Some,
        follows(recorded_state(before)->0, recorded_state(after)->0),
{
    let s = recorded_state(before)->0;
    if after.mode_state@ != before.mode_state@ {
        let (env, clock_ms, response) = choose|env: Envelope, clock_ms: i64, response: ModeResponse|
            #[trigger] handles(evaluator, before, env, clock_ms, Ok(response))
                && after.mode_state@ == applied(before, response).mode_state@;
        if env.message_type@ == "Commitment"@ {
            if well_kept(s) {
                timeouts_keep_one_live_offer(before, clock_ms, s);
            }
        } else {
            if well_kept(s) {
                messages_keep_one_live_offer(before, env, clock_ms, s);
            }
        }
    }
}

/// What becomes of a session when a message arrives leads on.
pub proof fn steps_lead_on<E: PolicyEvaluator + ?Sized>(
    mode: &HandoffMode<E>,
    before: Session,
    env: Envelope,
    now_ms: i64,
    after: Session,
    r: Result<StepOutcome, MacpError>,
)
    requires
        steps(before, env, mode, now_ms, after, r),
    ensures
        leads_to(mode.evaluator(), before, after),
{
    if r matches Ok(StepOutcome::Accepted { state }) {
        let v = choose|v: Result<ModeResponse, MacpError>|
            {
                &&& #[trigger] validates(&before, &env, mode, v)
                &&& v is Ok
                &&& commits_message(before, env, v->Ok_0, now_ms, after)
            };
        assert(handles(mode.evaluator(), before, env, env.timestamp_unix_ms, v));
    }
}

/// However many messages follow one another, whoever sends them: at most one
/// offer is outstanding or accepted, every offer is under its own identifier and
/// says who answered it exactly where someone has, and all context belongs to an
/// offer.
pub proof fn runs_keep_one_live_offer<E: PolicyEvaluator + ?Sized>(
    evaluator: &E,
    sessions: Seq<Session>,
    i: int,
)
    requires
        is_run(evaluator, sessions),
        0 <= i < sessions.len(),
        recorded_state(sessions[0]) == Some(no_offers()),
    ensures
        recorded_state(sessions[i]) is Some,
        well_kept(recorded_state(sessions[i])->0),
    decreases i,
{
    no_offers_well_kept();
    if i > 0 {
        runs_keep_one_live_offer(evaluator, sessions, i - 1);
        leads_to_what_follows(evaluator, sessions[i - 1], sessions[i]);
    }
}

/// However many messages follow, no offer is lost, and one that has been answered
/// stays as it was answered.
pub proof fn runs_keep_answers<E: PolicyEvaluator + ?Sized>(
    evaluator: &E,
    sessions: Seq<Session>,
    i: int,
    j: int,
    id: Seq<char>,
)
    requires
        is_run(evaluator, sessions),
        0 <= i <= j < sessions.len(),
        recorded_state(sessions[i]) is Some,
        recorded_state(sessions[i])->0.offers.dom().contains(id),
    ensures
        recorded_state(sessions[j]) is Some,
        recorded_state(sessions[j])->0.offers.dom().contains(id),
        recorded_state(sessions[i])->0.offers[id].disposition != HandoffDisposition::Offered
            ==> recorded_state(sessions[j])->0.offers[id] == recorded_state(
            sessions[i],
        )->0.offers[id],
    decreases j - i,
{
    if i < j {
        leads_to_what_follows(evaluator, sessions[i], sessions[i + 1]);
        assert(follows(recorded_state(sessions[i])->0, recorded_state(sessions[i + 1])->0));
        runs_keep_answers(evaluator, sessions, i + 1, j, id);
    }
}

/// Once an offer is outstanding or accepted, every other offer is refused.
pub proof fn live_offer_bars_others(
    session: Session,
    env: Envelope,
    clock_ms: i64,
    s: HandoffStateView,
    id: Seq<char>,
)
    requires
        env.message_type@ == "HandoffOffer"@,
        s.offers.dom().contains(id),
        is_live(s.offers[id]),
    ensures
        after_message(session, env, clock_ms, s) == Err::<HandoffStateView, MacpError>(
            MacpError::InvalidPayload,
        ),
{
}

/// An answered offer stays as it was answered, whatever messages follow.
pub proof fn answers_are_final(
    session: Session,
    env: Envelope,
    clock_ms: i64,
    s: HandoffStateView,
    id: Seq<char>,
)
    requires
        after_message(session, env, clock_ms, s) is Ok,
        s.offers.dom().contains(id),
        s.offers[id].disposition != HandoffDisposition::Offered,
    ensures
        after_message(session, env, clock_ms, s)->Ok_0.offers.dom().contains(id),
        after_message(session, env, clock_ms, s)->Ok_0.offers[id] == s.offers[id],
        settled_state(session, clock_ms, s).offers.dom().contains(id),
        settled_state(session, clock_ms, s).offers[id] == s.offers[id],
{
}

/// No offer is on record as accepted or declined but by a message of its target,
/// or by the timeout that the policy sets.
pub proof fn only_the_target_answers(
    session: Session,
    env: Envelope,
    clock_ms: i64,
    s: HandoffStateView,
    id: Seq<char>,
)
    requires
        after_message(session, env, clock_ms, s) is Ok,
        s.offers.dom().contains(id),
        after_message(session, env, clock_ms, s)->Ok_0.offers[id].disposition
            != s.offers[id].disposition,
    ensures
        env.sender@ == s.offers[id].target_participant,
        s.offers[id].disposition == HandoffDisposition::Offered,
{
}

/// Whether two envelopes agree in all but the time that the sender states.
pub open spec fn same_but_time(a: Envelope, b: Envelope) -> bool {
    a == (Envelope { timestamp_unix_ms: a.timestamp_unix_ms, ..b })
}

/// From revision 1 on the time that a sender states makes no difference: what the
/// mode makes of a message that the runtime accepted does not depend on it.
pub proof fn stated_time_is_ignored<E: PolicyEvaluator + ?Sized>(
    evaluator: &E,
    session: Session,
    a: Envelope,
    b: Envelope,
    ctx: MessageContext,
    r: Result<ModeResponse, MacpError>,
)
    requires
        session.semantics_rev >= 1,
        same_but_time(a, b),
        handles(evaluator, session, a, message_clock(session, a, ctx), r),
    ensures
        handles(evaluator, session, b, message_clock(session, b, ctx), r),
{
    assert(message_clock(session, a, ctx) == message_clock(session, b, ctx));
    let clock_ms = message_clock(session, a, ctx);
    if recorded_state(session) is Some {
        let s = recorded_state(session)->0;
        assert(after_message(session, a, clock_ms, s) == after_message(session, b, clock_ms, s));
        if a.message_type@ == "Commitment"@ {
            assert(commits(evaluator, session, b, clock_ms, s, r));
        }
    }
}

/// From revision 2 on an outstanding offer times out as soon as the timeout has
/// passed since it was made, with the time taken off that the session was
/// suspended, and no earlier.
pub proof fn suspension_stops_the_timeout(
    session: Session,
    offer: HandoffOfferRecordView,
    timeout: i64,
    now_ms: i64,
)
    requires
        session.semantics_rev >= 2,
        0 < timeout,
        i64::MIN <= now_ms - offer.offered_at_ms <= i64::MAX,
        0 <= session.accumulated_suspended_ms - offer.suspended_ms_at_offer <= i64::MAX,
    ensures
        timed_out(session, offer, timeout, now_ms) <==> offer.disposition
            == HandoffDisposition::Offered && offer.offered_at_ms > 0 && now_ms
            - offer.offered_at_ms - (session.accumulated_suspended_ms
            - offer.suspended_ms_at_offer) >= timeout,
{
}

/// What no client may submit from revision 2 on is refused at the boundary: any
/// identifier that the runtime keeps to itself, whatever the message, and an
/// acceptance marked as implicit.
pub proof fn reserved_messages_refused(session: Session, env: Envelope)
    requires
        session.semantics_rev >= 2,
    ensures
        has_prefix(env.message_id@, IMPLICIT_ACCEPT_MESSAGE_ID_PREFIX@) ==> client_verdict(
            session,
            env,
        ) == Err::<(), MacpError>(MacpError::InvalidEnvelope),
        env.message_type@ == "HandoffAccept"@ && (HandoffAcceptPayload::from_bytes(
            env.payload@,
        ) matches Some(p) && p.implicit) ==> client_verdict(session, env) is Err,
{
}

/// A message that is handled again on the same session, by the same clock, is
/// answered the same, byte for byte, whatever evaluators there are. Where a policy
/// gates commitments, its evaluator answers for them.
pub proof fn replays_identically<E: PolicyEvaluator + ?Sized, F: PolicyEvaluator + ?Sized>(
    one: &E,
    other: &F,
    session: Session,
    env: Envelope,
    clock_ms: i64,
    a: Result<ModeResponse, MacpError>,
    b: Result<ModeResponse, MacpError>,
)
    requires
        env.message_type@ != "Commitment"@ || session.policy_definition is None,
        handles(one, session, env, clock_ms, a),
        handles(other, session, env, clock_ms, b),
    ensures
        same_answer(a, b),
{
}

// ---------------------------------------------------------------------------
// What each message comes to
// ---------------------------------------------------------------------------

/// A session without a record starts without offers and without context, and one
/// whose record cannot be read takes no message.
pub proof fn records_are_read_or_refused<E: PolicyEvaluator + ?Sized>(
    evaluator: &E,
    session: Session,
    env: Envelope,
    clock_ms: i64,
    r: Result<ModeResponse, MacpError>,
)
    requires
        handles(evaluator, session, env, clock_ms, r),
    ensures
        session.mode_state@.len() == 0 ==> (recorded_state(session) matches Some(s) && s.offers
            == Map::<Seq<char>, HandoffOfferRecordView>::empty() && s.contexts == Map::<
            Seq<char>,
            Seq<HandoffContextRecordView>,
        >::empty()),
        session.mode_state@.len() > 0 && recorded_in::<HandoffState>(session.mode_state@) is None
            ==> r == Err::<ModeResponse, MacpError>(MacpError::InvalidModeState),
        session.mode_state@.len() > 0 ==> recorded_state(session) == recorded_in::<HandoffState>(
            session.mode_state@,
        ),
{
}

/// An accepted offer is on record under its identifier as it was made, outstanding,
/// at the time that counts; nothing else in the state changes.
pub proof fn offers_are_recorded_as_made<E: PolicyEvaluator + ?Sized>(
    evaluator: &E,
    session: Session,
    env: Envelope,
    clock_ms: i64,
    s: HandoffStateView,
    response: ModeResponse,
)
    requires
        recorded_state(session) == Some(s),
        env.message_type@ == "HandoffOffer"@,
        handles(evaluator, session, env, clock_ms, Ok(response)),
    ensures
        response is PersistState,
        HandoffOfferPayload::from_bytes(env.payload@) is Some,
        ({
            let p = HandoffOfferPayload::from_bytes(env.payload@)->0;
            let t = recorded_state(applied(session, response))->0;
            let made = t.offers[p.handoff_id];
            &&& recorded_state(applied(session, response)) is Some
            &&& t.offers.dom() == s.offers.dom().insert(p.handoff_id)
            &&& forall|id: Seq<char>|
                s.offers.dom().contains(id) ==> #[trigger] t.offers[id] == s.offers[id]
            &&& t.contexts == s.contexts
            &&& made.handoff_id == p.handoff_id
            &&& made.target_participant == p.target_participant
            &&& made.scope == p.scope
            &&& made.reason == p.reason
            &&& made.offered_by == env.sender@
            &&& made.disposition == HandoffDisposition::Offered
            &&& made.accepted_by is None
            &&& made.declined_by is None
            &&& made.outcome_reason is None
            &&& made.offered_at_ms == if session.semantics_rev == 0 {
                env.timestamp_unix_ms
            } else {
                clock_ms
            }
            &&& made.suspended_ms_at_offer == session.accumulated_suspended_ms
        }),
{
    message_types_differ();
}

/// An offer is accepted exactly where it names itself and a target, the identifier
/// is new, the target is a participant other than the sender, and every other
/// offer has been declined. It is refused in one way only.
pub proof fn when_offers_are_accepted<E: PolicyEvaluator + ?Sized>(
    evaluator: &E,
    session: Session,
    env: Envelope,
    clock_ms: i64,
    s: HandoffStateView,
    r: Result<ModeResponse, MacpError>,
)
    requires
        recorded_state(session) == Some(s),
        env.message_type@ == "HandoffOffer"@,
        handles(evaluator, session, env, clock_ms, r),
    ensures
        r is Err ==> r->Err_0 == MacpError::InvalidPayload,
        r is Ok <==> {
            let p = HandoffOfferPayload::from_bytes(env.payload@)->0;
            &&& HandoffOfferPayload::from_bytes(env.payload@) is Some
            &&& p.handoff_id.len() > 0
            &&& p.target_participant.len() > 0
            &&& p.target_participant != env.sender@
            &&& exists|i: int|
                0 <= i < session.participants@.len() && #[trigger] session.participants@[i]@
                    == p.target_participant
            &&& !s.offers.dom().contains(p.handoff_id)
            &&& forall|id: Seq<char>| #[trigger]
                s.offers.dom().contains(id) ==> s.offers[id].disposition
                    == HandoffDisposition::Declined
        },
{
    message_types_differ();
    if HandoffOfferPayload::from_bytes(env.payload@) is Some {
        let p = HandoffOfferPayload::from_bytes(env.payload@)->0;
        roster_by_place(session, p.target_participant);
        if any_offer(s, HandoffDisposition::Offered) {
            let id = choose|id: Seq<char>| #[trigger]
                s.offers.dom().contains(id) && s.offers[id].disposition
                    == HandoffDisposition::Offered;
            assert(s.offers.dom().contains(id));
        }
        if any_offer(s, HandoffDisposition::Accepted) {
            let id = choose|id: Seq<char>| #[trigger]
                s.offers.dom().contains(id) && s.offers[id].disposition
                    == HandoffDisposition::Accepted;
            assert(s.offers.dom().contains(id));
        }
    }
}

proof fn roster_by_place(session: Session, name: Seq<char>)
    ensures
        texts(session.participants@).contains(name) <==> exists|i: int|
            0 <= i < session.participants@.len() && #[trigger] session.participants@[i]@ == name,
{
    let names = texts(session.participants@);
    if names.contains(name) {
        let i = names.index_of(name);
        assert(session.participants@[i]@ == name);
    }
    if exists|i: int|
        0 <= i < session.participants@.len() && #[trigger] session.participants@[i]@ == name {
        let i = choose|i: int|
            0 <= i < session.participants@.len() && #[trigger] session.participants@[i]@ == name;
        assert(names[i] == name);
    }
}

/// Accepted context is added behind all that its offer has: the list grows by one,
/// with the new record last. No other list changes, nor any offer.
pub proof fn context_is_added_last<E: PolicyEvaluator + ?Sized>(
    evaluator: &E,
    session: Session,
    env: Envelope,
    clock_ms: i64,
    s: HandoffStateView,
    response: ModeResponse,
)
    requires
        recorded_state(session) == Some(s),
        env.message_type@ == "HandoffContext"@,
        handles(evaluator, session, env, clock_ms, Ok(response)),
    ensures
        response is PersistState,
        HandoffContextPayload::from_bytes(env.payload@) is Some,
        ({
            let p = HandoffContextPayload::from_bytes(env.payload@)->0;
            let t = recorded_state(applied(session, response))->0;
            let list = t.contexts[p.handoff_id];
            &&& recorded_state(applied(session, response)) is Some
            &&& t.offers == s.offers
            &&& t.contexts.dom() == s.contexts.dom().insert(p.handoff_id)
            &&& forall|id: Seq<char>|
                s.contexts.dom().contains(id) && id != p.handoff_id ==> #[trigger] t.contexts[id]
                    == s.contexts[id]
            &&& s.contexts.dom().contains(p.handoff_id) ==> list.drop_last()
                == s.contexts[p.handoff_id] && list.len() == s.contexts[p.handoff_id].len() + 1
            &&& !s.contexts.dom().contains(p.handoff_id) ==> list.len() == 1
            &&& list.last().content_type == p.content_type
            &&& list.last().context == p.context
            &&& list.last().sender == env.sender@
        }),
{
    message_types_differ();
    reveal_strlit("HandoffContext");
    reveal_strlit("HandoffOffer");
    assert("HandoffContext"@.len() == 14);
    assert("HandoffOffer"@.len() == 12);
    let p = HandoffContextPayload::from_bytes(env.payload@)->0;
    let t = recorded_state(applied(session, response))->0;
    if s.contexts.dom().contains(p.handoff_id) {
        assert(t.contexts[p.handoff_id].drop_last() =~= s.contexts[p.handoff_id]);
    }
}

/// Context is accepted from the one who made the offer, whatever has become of it;
/// from anyone else it is forbidden, and for an unknown offer it is malformed.
pub proof fn when_context_is_accepted<E: PolicyEvaluator + ?Sized>(
    evaluator: &E,
    session: Session,
    env: Envelope,
    clock_ms: i64,
    s: HandoffStateView,
    p: HandoffContextPayloadView,
    r: Result<ModeResponse, MacpError>,
)
    requires
        recorded_state(session) == Some(s),
        env.message_type@ == "HandoffContext"@,
        HandoffContextPayload::from_bytes(env.payload@) == Some(p),
        handles(evaluator, session, env, clock_ms, r),
    ensures
        r is Ok <==> s.offers.dom().contains(p.handoff_id) && s.offers[p.handoff_id].offered_by
            == env.sender@,
        r is Err ==> r->Err_0 == if s.offers.dom().contains(p.handoff_id) {
            MacpError::Forbidden
        } else {
            MacpError::InvalidPayload
        },
{
    message_types_differ();
    reveal_strlit("HandoffContext");
    reveal_strlit("HandoffOffer");
    assert("HandoffContext"@.len() == 14);
    assert("HandoffOffer"@.len() == 12);
}

proof fn answers_differ_from_offers()
    ensures
        "HandoffAccept"@ != "HandoffOffer"@,
        "HandoffAccept"@ != "HandoffContext"@,
        "HandoffAccept"@ != "HandoffDecline"@,
        "HandoffDecline"@ != "HandoffOffer"@,
        "HandoffDecline"@ != "HandoffContext"@,
{
    reveal_strlit("HandoffOffer");
    reveal_strlit("HandoffContext");
    reveal_strlit("HandoffAccept");
    reveal_strlit("HandoffDecline");
    assert("HandoffOffer"@.len() == 12);
    assert("HandoffContext"@.len() == 14);
    assert("HandoffAccept"@.len() == 13);
    assert("HandoffDecline"@.len() == 14);
    assert("HandoffContext"@[7] == 'C');
    assert("HandoffDecline"@[7] == 'D');
}

/// Whether the two states differ in one offer at most, and there in nothing but
/// what has become of it.
pub open spec fn only_answered(
    s: HandoffStateView,
    t: HandoffStateView,
    answered: Seq<char>,
) -> bool {
    &&& t.contexts == s.contexts
    &&& t.offers.dom() == s.offers.dom()
    &&& forall|id: Seq<char>|
        s.offers.dom().contains(id) && id != answered ==> #[trigger] t.offers[id] == s.offers[id]
    &&& t.offers[answered].handoff_id == s.offers[answered].handoff_id
    &&& t.offers[answered].target_participant == s.offers[answered].target_participant
    &&& t.offers[answered].scope == s.offers[answered].scope
    &&& t.offers[answered].reason == s.offers[answered].reason
    &&& t.offers[answered].offered_by == s.offers[answered].offered_by
    &&& t.offers[answered].offered_at_ms == s.offers[answered].offered_at_ms
    &&& t.offers[answered].suspended_ms_at_offer == s.offers[answered].suspended_ms_at_offer
}

/// An acceptance turns the one offer that it names, which was outstanding, into an
/// accepted one, by its target and with the reason given.
pub proof fn acceptance_settles_one_offer<E: PolicyEvaluator + ?Sized>(
    evaluator: &E,
    session: Session,
    env: Envelope,
    clock_ms: i64,
    s: HandoffStateView,
    response: ModeResponse,
)
    requires
        recorded_state(session) == Some(s),
        env.message_type@ == "HandoffAccept"@,
        handles(evaluator, session, env, clock_ms, Ok(response)),
    ensures
        response is PersistState,
        HandoffAcceptPayload::from_bytes(env.payload@) is Some,
        ({
            let p = HandoffAcceptPayload::from_bytes(env.payload@)->0;
            let t = recorded_state(applied(session, response))->0;
            &&& recorded_state(applied(session, response)) is Some
            &&& s.offers.dom().contains(p.handoff_id)
            &&& s.offers[p.handoff_id].disposition == HandoffDisposition::Offered
            &&& s.offers[p.handoff_id].target_participant == env.sender@
            &&& !p.implicit
            &&& only_answered(s, t, p.handoff_id)
            &&& t.offers[p.handoff_id].disposition == HandoffDisposition::Accepted
            &&& t.offers[p.handoff_id].accepted_by == Some(env.sender@)
            &&& t.offers[p.handoff_id].declined_by == s.offers[p.handoff_id].declined_by
            &&& t.offers[p.handoff_id].outcome_reason == Some(p.reason)
        }),
{
    message_types_differ();
    answers_differ_from_offers();
    let p = HandoffAcceptPayload::from_bytes(env.payload@)->0;
    let t = recorded_state(applied(session, response))->0;
    assert(t.offers.dom() =~= s.offers.dom());
}

/// A refusal turns the one offer that it names, which was outstanding, into a
/// declined one, by its target and with the reason given.
pub proof fn refusal_settles_one_offer<E: PolicyEvaluator + ?Sized>(
    evaluator: &E,
    session: Session,
    env: Envelope,
    clock_ms: i64,
    s: HandoffStateView,
    response: ModeResponse,
)
    requires
        recorded_state(session) == Some(s),
        env.message_type@ == "HandoffDecline"@,
        handles(evaluator, session, env, clock_ms, Ok(response)),
    ensures
        response is PersistState,
        HandoffDeclinePayload::from_bytes(env.payload@) is Some,
        ({
            let p = HandoffDeclinePayload::from_bytes(env.payload@)->0;
            let t = recorded_state(applied(session, response))->0;
            &&& recorded_state(applied(session, response)) is Some
            &&& s.offers.dom().contains(p.handoff_id)
            &&& s.offers[p.handoff_id].disposition == HandoffDisposition::Offered
            &&& s.offers[p.handoff_id].target_participant == env.sender@
            &&& only_answered(s, t, p.handoff_id)
            &&& t.offers[p.handoff_id].disposition == HandoffDisposition::Declined
            &&& t.offers[p.handoff_id].declined_by == Some(env.sender@)
            &&& t.offers[p.handoff_id].accepted_by == s.offers[p.handoff_id].accepted_by
            &&& t.offers[p.handoff_id].outcome_reason == Some(p.reason)
        }),
{
    message_types_differ();
    answers_differ_from_offers();
    let p = HandoffDeclinePayload::from_bytes(env.payload@)->0;
    let t = recorded_state(applied(session, response))->0;
    assert(t.offers.dom() =~= s.offers.dom());
}

/// The target may answer an outstanding offer, in its own name or without saying
/// whose; anyone else is forbidden to.
pub proof fn when_answers_are_accepted<E: PolicyEvaluator + ?Sized>(
    evaluator: &E,
    session: Session,
    env: Envelope,
    clock_ms: i64,
    s: HandoffStateView,
    id: Seq<char>,
    answered_by: Seq<char>,
    implicit: bool,
    r: Result<ModeResponse, MacpError>,
)
    requires
        recorded_state(session) == Some(s),
        handles(evaluator, session, env, clock_ms, r),
        ({
            ||| env.message_type@ == "HandoffAccept"@ && (HandoffAcceptPayload::from_bytes(
                env.payload@,
            ) matches Some(p) && p.handoff_id == id && p.accepted_by == answered_by && p.implicit
                == implicit)
            ||| env.message_type@ == "HandoffDecline"@ && (HandoffDeclinePayload::from_bytes(
                env.payload@,
            ) matches Some(p) && p.handoff_id == id && p.declined_by == answered_by) && !implicit
        }),
    ensures
        r is Ok <==> !implicit && s.offers.dom().contains(id) && s.offers[id].disposition
            == HandoffDisposition::Offered && s.offers[id].target_participant == env.sender@ && (
        answered_by.len() == 0 || answered_by == env.sender@),
        r is Err ==> r->Err_0 == if !implicit && s.offers.dom().contains(id)
            && s.offers[id].target_participant != env.sender@ {
            MacpError::Forbidden
        } else {
            MacpError::InvalidPayload
        },
{
    message_types_differ();
    answers_differ_from_offers();
}

/// A message that is no offer, no context, no answer and no commitment is refused,
/// and so is one whose payload cannot be read.
pub proof fn anything_else_is_refused<E: PolicyEvaluator + ?Sized>(
    evaluator: &E,
    session: Session,
    env: Envelope,
    clock_ms: i64,
    r: Result<ModeResponse, MacpError>,
)
    requires
        recorded_state(session) is Some,
        handles(evaluator, session, env, clock_ms, r),
        env.message_type@ == "HandoffOffer"@ ==> HandoffOfferPayload::from_bytes(
            env.payload@,
        ) is None,
        env.message_type@ == "HandoffContext"@ ==> HandoffContextPayload::from_bytes(
            env.payload@,
        ) is None,
        env.message_type@ == "HandoffAccept"@ ==> HandoffAcceptPayload::from_bytes(
            env.payload@,
        ) is None,
        env.message_type@ == "HandoffDecline"@ ==> HandoffDeclinePayload::from_bytes(
            env.payload@,
        ) is None,
        env.message_type@ == "Commitment"@ ==> CommitmentPayload::from_bytes(env.payload@) is None,
    ensures
        r == Err::<ModeResponse, MacpError>(MacpError::InvalidPayload),
{
}

/// What a commitment comes to: the payload resolves the session as it is, all
/// context stays, and every offer stays as it was but an outstanding one that has
/// waited for the timeout of the policy, which its target counts as having
/// accepted. At least one offer has been accepted or declined.
pub proof fn commitments_settle_what_timed_out<E: PolicyEvaluator + ?Sized>(
    evaluator: &E,
    session: Session,
    env: Envelope,
    clock_ms: i64,
    s: HandoffStateView,
    response: ModeResponse,
)
    requires
        recorded_state(session) == Some(s),
        env.message_type@ == "Commitment"@,
        handles(evaluator, session, env, clock_ms, Ok(response)),
    ensures
        response is PersistAndResolve,
        response->resolution@ == env.payload@,
        fitting_commitment(session, env.payload@) is Some,
        ({
            let t = recorded_state(applied(session, response))->0;
            &&& recorded_state(applied(session, response)) is Some
            &&& t.contexts == s.contexts
            &&& t.offers.dom() == s.offers.dom()
            &&& exists|id: Seq<char>| #[trigger]
                t.offers.dom().contains(id) && t.offers[id].disposition
                    != HandoffDisposition::Offered
            &&& forall|id: Seq<char>| #[trigger]
                s.offers.dom().contains(id) ==> {
                    let settled = implicit_timeout(session) is Some && s.offers[id].disposition
                        == HandoffDisposition::Offered && s.offers[id].offered_at_ms > 0 && waited(
                        session,
                        s.offers[id],
                        clock_ms,
                    ) >= implicit_timeout(session)->0;
                    &&& !settled ==> t.offers[id] == s.offers[id]
                    &&& settled ==> {
                        &&& only_answered(s, HandoffStateView { offers: s.offers.insert(id,
                            t.offers[id]), ..s }, id)
                        &&& t.offers[id].disposition == HandoffDisposition::Accepted
                        &&& t.offers[id].accepted_by == Some(s.offers[id].target_participant)
                        &&& t.offers[id].declined_by == s.offers[id].declined_by
                        &&& t.offers[id].outcome_reason == Some("implicit accept (timeout)"@)
                    }
                }
        }),
{
    let t = recorded_state(applied(session, response))->0;
    assert(t == settled_state(session, clock_ms, s));
    assert(t.offers.dom() =~= s.offers.dom());
    if any_offer(t, HandoffDisposition::Accepted) {
        let id = choose|id: Seq<char>| #[trigger]
            t.offers.dom().contains(id) && t.offers[id].disposition
                == HandoffDisposition::Accepted;
        assert(t.offers.dom().contains(id));
    } else {
        let id = choose|id: Seq<char>| #[trigger]
            t.offers.dom().contains(id) && t.offers[id].disposition
                == HandoffDisposition::Declined;
        assert(t.offers.dom().contains(id));
    }
    assert forall|id: Seq<char>| #[trigger] s.offers.dom().contains(id) implies only_answered(
        s,
        HandoffStateView { offers: s.offers.insert(id, t.offers[id]), ..s },
        id,
    ) by {
        assert(s.offers.insert(id, t.offers[id]).dom() =~= s.offers.dom());
    }
}

/// A commitment that fits the session is refused for want of an answer exactly
/// where every offer is outstanding and none has waited for the timeout. Where it
/// is not, only the policy can refuse it, and without a policy nothing does.
pub proof fn when_commitments_are_accepted<E: PolicyEvaluator + ?Sized>(
    evaluator: &E,
    session: Session,
    env: Envelope,
    clock_ms: i64,
    s: HandoffStateView,
    r: Result<ModeResponse, MacpError>,
)
    requires
        recorded_state(session) == Some(s),
        env.message_type@ == "Commitment"@,
        fitting_commitment(session, env.payload@) is Some,
        handles(evaluator, session, env, clock_ms, r),
    ensures
        ({
            let answered = exists|id: Seq<char>| #[trigger]
                s.offers.dom().contains(id) && (s.offers[id].disposition
                    != HandoffDisposition::Offered || (implicit_timeout(session) is Some
                    && s.offers[id].offered_at_ms > 0 && waited(session, s.offers[id], clock_ms)
                    >= implicit_timeout(session)->0));
            &&& !answered ==> r == Err::<ModeResponse, MacpError>(MacpError::InvalidPayload)
            &&& answered && session.policy_definition is None ==> r is Ok
            &&& answered && r is Err ==> r->Err_0 is PolicyDenied
        }),
{
    let t = settled_state(session, clock_ms, s);
    if exists|id: Seq<char>| #[trigger]
        s.offers.dom().contains(id) && (s.offers[id].disposition != HandoffDisposition::Offered || (
        implicit_timeout(session) is Some && s.offers[id].offered_at_ms > 0 && waited(
            session,
            s.offers[id],
            clock_ms,
        ) >= implicit_timeout(session)->0)) {
        let id = choose|id: Seq<char>| #[trigger]
            s.offers.dom().contains(id) && (s.offers[id].disposition
                != HandoffDisposition::Offered || (implicit_timeout(session) is Some
                && s.offers[id].offered_at_ms > 0 && waited(session, s.offers[id], clock_ms)
                >= implicit_timeout(session)->0));
        assert(t.offers.dom().contains(id));
        assert(t.offers[id].disposition == HandoffDisposition::Accepted || t.offers[id].disposition
            == HandoffDisposition::Declined);
    }
}

/// Before revision 2 an offer waits as the clock runs, through every pause; this
/// and what counts from revision 2 on is all that the time of an offer depends on.
pub proof fn earlier_revisions_count_pauses(
    session: Session,
    offer: HandoffOfferRecordView,
    now_ms: i64,
)
    requires
        i64::MIN <= now_ms - offer.offered_at_ms <= i64::MAX,
    ensures
        session.semantics_rev < 2 ==> waited(session, offer, now_ms) == now_ms
            - offer.offered_at_ms,
        session.semantics_rev >= 2 && session.accumulated_suspended_ms
            <= offer.suspended_ms_at_offer ==> waited(session, offer, now_ms) == now_ms
            - offer.offered_at_ms,
        session.semantics_rev >= 2 && 0 <= session.accumulated_suspended_ms
            - offer.suspended_ms_at_offer <= now_ms - offer.offered_at_ms ==> waited(
            session,
            offer,
            now_ms,
        ) == (now_ms - offer.offered_at_ms) - (session.accumulated_suspended_ms
            - offer.suspended_ms_at_offer),
{
}

/// Time alone brings a timeout about, and more of it never takes one back: an offer
/// that has timed out has timed out at every later time, and with a shorter
/// timeout.
pub proof fn timeouts_stay(
    session: Session,
    offer: HandoffOfferRecordView,
    timeout: i64,
    shorter: i64,
    now_ms: i64,
    later_ms: i64,
)
    requires
        session.semantics_rev >= 2 || offer.offered_at_ms >= 0 && now_ms >= 0,
        timed_out(session, offer, timeout, now_ms),
        now_ms <= later_ms,
        shorter <= timeout,
    ensures
        timed_out(session, offer, shorter, later_ms),
{
}

/// A policy without a timeout, or none at all, lets offers wait for ever.
pub proof fn offers_wait_without_a_timeout(session: Session, now_ms: i64, s: HandoffStateView)
    requires
        session.policy_definition matches Some(policy) ==> handoff_rules(
            policy,
        ).acceptance.implicit_accept_timeout_ms == 0,
    ensures
        implicit_timeout(session) is None,
        settled_state(session, now_ms, s) == s,
{
}

/// The timeout of the policy is the one that counts.
pub proof fn the_policy_sets_the_timeout(session: Session, policy: PolicyDefinition)
    requires
        session.policy_definition == Some(policy),
        0 < handoff_rules(policy).acceptance.implicit_accept_timeout_ms <= i64::MAX,
    ensures
        implicit_timeout(session) is Some,
        implicit_timeout(session)->0 == handoff_rules(policy).acceptance.implicit_accept_timeout_ms,
{
}

/// In a session of revision 0 it is the other way round: the clock of the runtime
/// makes no difference.
pub proof fn runtime_clock_is_ignored_at_first<E: PolicyEvaluator + ?Sized>(
    evaluator: &E,
    session: Session,
    env: Envelope,
    a: MessageContext,
    b: MessageContext,
    r: Result<ModeResponse, MacpError>,
)
    requires
        session.semantics_rev == 0,
        handles(evaluator, session, env, message_clock(session, env, a), r),
    ensures
        handles(evaluator, session, env, message_clock(session, env, b), r),
        message_clock(session, env, a) == env.timestamp_unix_ms,
{
}

/// Who may send what: the initiator makes offers, be it a participant or not; the
/// participants send everything else but commitments, and no one else does.
pub proof fn who_may_send_what(session: Session, env: Envelope)
    requires
        env.message_type@ != "Commitment"@,
    ensures
        env.message_type@ == "HandoffOffer"@ ==> (sender_admitted(session, env) <==> env.sender@
            == session.initiator_sender@),
        env.message_type@ != "HandoffOffer"@ ==> (sender_admitted(session, env) <==> exists|i: int|
            0 <= i < session.participants@.len() && #[trigger] session.participants@[i]@
                == env.sender@),
{
    roster_by_place(session, env.sender@);
}

/// A session may be opened exactly where its initiator and at least one more place
/// on the roster are there; it then starts without offers.
pub proof fn sessions_start_without_offers<E: PolicyEvaluator + ?Sized>(
    mode: &HandoffMode<E>,
    session: Session,
    env: Envelope,
    r: Result<ModeResponse, MacpError>,
)
    requires
        call_ensures(HandoffMode::<E>::on_session_start, (mode, &session, &env), r),
    ensures
        r is Ok <==> session.participants@.len() >= 2 && exists|i: int|
            0 <= i < session.participants@.len() && #[trigger] session.participants@[i]@
                == session.initiator_sender@,
        r is Err ==> r->Err_0 == MacpError::InvalidPayload,
        r is Ok ==> (recorded_state(applied(session, r->Ok_0)) matches Some(s) && s.offers
            == Map::<Seq<char>, HandoffOfferRecordView>::empty() && s.contexts == Map::<
            Seq<char>,
            Seq<HandoffContextRecordView>,
        >::empty()),
{
    roster_by_place(session, session.initiator_sender@);
}

/// Before revision 2 a client may submit anything, and from then on anything but
/// what is the runtime's own.
pub proof fn all_else_may_be_submitted(session: Session, env: Envelope)
    requires
        session.semantics_rev >= 2 ==> {
            &&& !has_prefix(env.message_id@, "implicit-accept:"@)
            &&& env.message_type@ == "HandoffAccept"@ ==> (HandoffAcceptPayload::from_bytes(
                env.payload@,
            ) matches Some(p) ==> !p.implicit)
        },
    ensures
        client_verdict(session, env) is Ok,
{
}

/// No message loses context, of whatever kind it is: what an offer had before is
/// the beginning of what it has after.
pub proof fn no_context_is_lost<E: PolicyEvaluator + ?Sized>(
    evaluator: &E,
    session: Session,
    env: Envelope,
    clock_ms: i64,
    s: HandoffStateView,
    response: ModeResponse,
    id: Seq<char>,
)
    requires
        recorded_state(session) == Some(s),
        handles(evaluator, session, env, clock_ms, Ok(response)),
        s.contexts.dom().contains(id),
    ensures
        recorded_state(applied(session, response)) is Some,
        recorded_state(applied(session, response))->0.contexts.dom().contains(id),
        s.contexts[id].is_prefix_of(recorded_state(applied(session, response))->0.contexts[id]),
{
    message_types_differ();
    answers_differ_from_offers();
    if env.message_type@ == "HandoffContext"@ {
        context_is_added_last(evaluator, session, env, clock_ms, s, response);
        let t = recorded_state(applied(session, response))->0;
        let p = HandoffContextPayload::from_bytes(env.payload@)->0;
        if id == p.handoff_id {
            assert(s.contexts[id] =~= t.contexts[id].take(s.contexts[id].len() as int));
        } else {
            assert(t.contexts[id] == s.contexts[id]);
        }
    }
}

/// However many messages follow, what an offer had as context stays at the
/// beginning of what it has.
pub proof fn runs_keep_context<E: PolicyEvaluator + ?Sized>(
    evaluator: &E,
    sessions: Seq<Session>,
    i: int,
    j: int,
    id: Seq<char>,
)
    requires
        is_run(evaluator, sessions),
        0 <= i <= j < sessions.len(),
        recorded_state(sessions[i]) is Some,
        recorded_state(sessions[i])->0.contexts.dom().contains(id),
    ensures
        recorded_state(sessions[j]) is Some,
        recorded_state(sessions[j])->0.contexts.dom().contains(id),
        recorded_state(sessions[i])->0.contexts[id].is_prefix_of(
            recorded_state(sessions[j])->0.contexts[id],
        ),
    decreases j - i,
{
    if i < j {
        let before = sessions[i];
        let after = sessions[i + 1];
        let s = recorded_state(before)->0;
        assert(leads_to(evaluator, before, after));
        if after.mode_state@ != before.mode_state@ {
            let (env, clock_ms, response) = choose|
                env: Envelope,
                clock_ms: i64,
                response: ModeResponse,
            |
                #[trigger] handles(evaluator, before, env, clock_ms, Ok(response))
                    && after.mode_state@ == applied(before, response).mode_state@;
            no_context_is_lost(evaluator, before, env, clock_ms, s, response, id);
        }
        let t = recorded_state(after)->0;
        runs_keep_context(evaluator, sessions, i + 1, j, id);
        let u = recorded_state(sessions[j])->0;
        assert(s.contexts[id] =~= u.contexts[id].take(s.contexts[id].len() as int)) by {
            assert(s.contexts[id] == t.contexts[id].take(s.contexts[id].len() as int));
            assert(t.contexts[id] == u.contexts[id].take(t.contexts[id].len() as int));
        }
    }
}

/// Where a policy is bound, a commitment that is accepted is one that the evaluator
/// allows: it was asked about this policy, these participants and this outcome.
pub proof fn the_policy_is_asked<E: PolicyEvaluator + ?Sized>(
    evaluator: &E,
    session: Session,
    env: Envelope,
    clock_ms: i64,
    r: Result<ModeResponse, MacpError>,
)
    requires
        recorded_state(session) is Some,
        env.message_type@ == "Commitment"@,
        session.policy_definition is Some,
        handles(evaluator, session, env, clock_ms, r),
        r is Ok || r->Err_0 is PolicyDenied,
    ensures
        exists|ctx: CommitmentContext<'_>, decision: PolicyDecision|
            {
                &&& #[trigger] call_ensures(E::evaluate_commitment, (evaluator, &ctx), decision)
                &&& *ctx.policy == session.policy_definition->0
                &&& ctx.participants@ == session.participants@
                &&& ctx.mode is Handoff
                &&& CommitmentPayload::from_bytes(env.payload@) matches Some(c)
                    && ctx.outcome_positive == c.outcome_positive
                &&& r is Ok <==> decision is Allow
                &&& decision matches PolicyDecision::Deny { reasons } ==> r == Err::<
                    ModeResponse,
                    MacpError,
                >(MacpError::PolicyDenied { reasons })
            },
{
}

/// Commitments may be sent by whom the rules for commitments say, and by no one
/// else.
pub proof fn rules_say_who_sends_commitments(session: Session, env: Envelope)
    requires
        env.message_type@ == "Commitment"@,
    ensures
        sender_admitted(session, env) <==> may_commit(session, env.sender@),
{
    message_types_differ();
}

/// A message is accepted only from a sender who may send it, and where clients may
/// submit it.
pub proof fn accepted_senders_may_send<E: PolicyEvaluator + ?Sized>(
    mode: &HandoffMode<E>,
    before: Session,
    env: Envelope,
    now_ms: i64,
    after: Session,
    state: SessionState,
)
    requires
        steps(before, env, mode, now_ms, after, Ok(StepOutcome::Accepted { state })),
    ensures
        sender_admitted(before, env),
        client_verdict(before, env) is Ok,
{
    the_mode_has_to_agree(before, env, mode, now_ms, after, state);
}

/// The timeout stands in the rules of the bound policy. Rules that cannot be read
/// set none.
pub proof fn timeouts_stand_in_the_rules(session: Session, policy: PolicyDefinition)
    requires
        session.policy_definition == Some(policy),
    ensures
        HandoffPolicyRules::from_view(json_of(policy.rules)) is None ==> implicit_timeout(
            session,
        ) is None,
        HandoffPolicyRules::from_view(json_of(policy.rules)) matches Some(rules) ==> {
            let timeout = rules.acceptance.implicit_accept_timeout_ms;
            &&& timeout == 0 ==> implicit_timeout(session) is None
            &&& 0 < timeout <= i64::MAX ==> (implicit_timeout(session) matches Some(ms) && ms
                == timeout)
            &&& timeout > i64::MAX ==> (implicit_timeout(session) matches Some(ms) && ms < 0)
        },
{
}

/// The clock of a message is that of the runtime from revision 1 on, and before that
/// the sender's own.
pub proof fn the_runtime_keeps_the_time(session: Session, env: Envelope, ctx: MessageContext)
    ensures
        session.semantics_rev >= 1 ==> message_clock(session, env, ctx) == ctx.accepted_at_ms,
        session.semantics_rev == 0 ==> message_clock(session, env, ctx) == env.timestamp_unix_ms,
{
}

} // verus!
