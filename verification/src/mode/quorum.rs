//! The quorum mode: the participants vote on one request, which needs a number of
//! approvals.

use crate::arithmetic::larger;
use crate::codec::{recorded_in, Codec};
use crate::error::MacpError;
use crate::json::{json_of, json_text};
use crate::mode::quorum_state::{
    ApprovalRequestRecord, ApprovalRequestRecordView, BallotChoice, BallotRecord, BallotRecordView,
    QuorumState, QuorumStateView,
};
use crate::mode::util::{
    check_commitment_authority, decode_mode_state, encode_mode_state, enforce_commitment_policy,
    fitting_commitment, is_declared_participant, may_commit, policy_verdict,
    validate_commitment_payload_for_session,
};
use crate::mode::{same_answer, Mode, ModeResponse};
use crate::pb::commitment::CommitmentPayload;
use crate::pb::envelope::Envelope;
use crate::pb::quorum::{
    AbstainPayload, ApprovalRequestPayload, ApprovalRequestPayloadView, ApprovePayload,
    RejectPayload,
};
use crate::policy::rules::{
    effective_never_zero, effective_of, EffectiveThreshold, QuorumPolicyRules,
    QuorumPolicyRulesView,
};
use crate::policy::{
    CommitmentContext, CommitmentMode, PolicyDecision, PolicyDefinition, PolicyEvaluator,
};
use crate::session::{applied, Session, SessionState};
use crate::step::{
    commits as commits_message, steps, the_mode_has_to_agree, validates, StepOutcome,
};
use crate::text::{copy_bytes, same, texts};
use crate::text_map::{in_order, keys_count, lists, map_of, map_of_next, TextMap};
use crate::wire::{low_u32, to_low_u32};
use std::sync::Arc;
use vstd::prelude::*;

verus! {

/// The approval bar of a session.
#[derive(Clone, Copy, Debug, PartialEq, Eq, Structural)]
pub enum ApprovalThreshold {
    /// This many approvals are needed for a positive commitment.
    Approvals(u32),
    /// The policy admits no commitment at any number of approvals.
    Unsatisfiable,
}

// ---------------------------------------------------------------------------
// The bar
// ---------------------------------------------------------------------------

/// The rules that the policy states; the default where it states none that can
/// be read.
pub open spec fn quorum_rules(policy: PolicyDefinition) -> QuorumPolicyRulesView {
    match QuorumPolicyRules::from_view(json_of(policy.rules)) {
        Some(rules) => rules,
        None => QuorumPolicyRules::default_view(),
    }
}

/// The bar for a request that asks for `required` approvals: a bar that the
/// policy sets takes its place.
pub open spec fn bar(session: Session, required: u32) -> ApprovalThreshold {
    match session.policy_definition {
        None => ApprovalThreshold::Approvals(required),
        Some(policy) => match effective_of(
            quorum_rules(policy).threshold,
            session.participants@.len(),
        ) {
            EffectiveThreshold::Inert => ApprovalThreshold::Approvals(required),
            EffectiveThreshold::Approvals(n) => ApprovalThreshold::Approvals(n),
            EffectiveThreshold::Unsatisfiable => ApprovalThreshold::Unsatisfiable,
        },
    }
}

/// The bar of a session: none as long as there is no request.
pub open spec fn session_bar(session: Session, s: QuorumStateView) -> Option<ApprovalThreshold> {
    match s.request {
        Some(request) => Some(bar(session, request.required_approvals)),
        None => None,
    }
}

// ---------------------------------------------------------------------------
// Votes
// ---------------------------------------------------------------------------

/// Who has voted for the choice.
pub open spec fn voters(ballots: Map<Seq<char>, BallotRecordView>, choice: BallotChoice) -> Set<
    Seq<char>,
> {
    Set::new(|k: Seq<char>| ballots.dom().contains(k) && ballots[k].choice == choice)
}

/// A count in the arithmetic of 32 bits.
pub open spec fn count32(n: nat) -> u32 {
    (n % 0x1_0000_0000) as u32
}

/// How many participants have not voted yet.
pub open spec fn outstanding(total: u32, counted: u32) -> int {
    if total > counted {
        total - counted
    } else {
        0
    }
}

/// Whether the vote is decided: the bar is met, or at least one has voted and the
/// votes that are left cannot meet it.
pub open spec fn decided(required: u32, approvals: u32, counted: u32, total: u32) -> bool {
    ||| approvals >= required
    ||| counted > 0 && low_u32((approvals + outstanding(total, counted)) as u64) < required
}

/// Whether the session can be committed: there is a request, its bar can be met,
/// and the vote is decided.
pub open spec fn ready(session: Session, s: QuorumStateView) -> bool {
    match session_bar(session, s) {
        Some(ApprovalThreshold::Approvals(required)) => decided(
            required,
            count32(voters(s.ballots, BallotChoice::Approve).len()),
            count32(s.ballots.dom().len()),
            count32(session.participants@.len()),
        ),
        _ => false,
    }
}

// ---------------------------------------------------------------------------
// What the messages do to the state
// ---------------------------------------------------------------------------

/// The state of a session without a request.
pub open spec fn no_request() -> QuorumStateView {
    QuorumStateView { request: None, ballots: Map::empty() }
}

/// The request on record.
pub open spec fn request_record(
    p: ApprovalRequestPayloadView,
    sender: Seq<char>,
) -> ApprovalRequestRecordView {
    ApprovalRequestRecordView {
        request_id: p.request_id,
        action: p.action,
        summary: p.summary,
        details: p.details,
        required_approvals: p.required_approvals,
        requested_by: sender,
    }
}

/// Whether a number of approvals lies within what the participants can give.
pub open spec fn attainable(session: Session, n: u32) -> bool {
    1 <= n <= count32(session.participants@.len())
}

/// Whether a bar is one that the participants can meet.
pub open spec fn within_reach(session: Session, bar: ApprovalThreshold) -> bool {
    bar matches ApprovalThreshold::Approvals(n) && attainable(session, n)
}

/// A request: the first of the session, by the initiator, with a bar that the
/// participants can meet.
pub open spec fn request_made(
    session: Session,
    sender: Seq<char>,
    payload: Seq<u8>,
    s: QuorumStateView,
) -> Result<QuorumStateView, MacpError> {
    if sender != session.initiator_sender@ {
        Err(MacpError::Forbidden)
    } else {
        match ApprovalRequestPayload::from_bytes(payload) {
            None => Err(MacpError::InvalidPayload),
            Some(p) => if s.request is Some || p.request_id.len() == 0 || !attainable(
                session,
                p.required_approvals,
            ) || !within_reach(session, bar(session, p.required_approvals)) {
                Err(MacpError::InvalidPayload)
            } else {
                Ok(QuorumStateView { request: Some(request_record(p, sender)), ..s })
            },
        }
    }
}

/// A ballot: for the request on record, and one from each voter.
pub open spec fn ballot_cast(
    sender: Seq<char>,
    request_id: Seq<char>,
    choice: BallotChoice,
    reason: Seq<char>,
    s: QuorumStateView,
) -> Result<QuorumStateView, MacpError> {
    if s.request is None || request_id != s.request->0.request_id || s.ballots.dom().contains(
        sender,
    ) {
        Err(MacpError::InvalidPayload)
    } else {
        Ok(
            QuorumStateView {
                ballots: s.ballots.insert(
                    sender,
                    BallotRecordView { request_id, choice, sender, reason },
                ),
                ..s
            },
        )
    }
}

/// The bar for which alone a request is refused: all else about the request is in
/// order, but the policy sets a bar that the participants cannot meet.
pub open spec fn refused_bar(session: Session, env: Envelope) -> Option<ApprovalThreshold> {
    match (recorded_state(session), ApprovalRequestPayload::from_bytes(env.payload@)) {
        (Some(s), Some(p)) => if env.message_type@ == "ApprovalRequest"@ && env.sender@
            == session.initiator_sender@ && s.request is None && p.request_id.len() > 0
            && attainable(session, p.required_approvals) && !within_reach(
            session,
            bar(session, p.required_approvals),
        ) {
            Some(bar(session, p.required_approvals))
        } else {
            None
        },
        _ => None,
    }
}

/// The recorded state of a session; a session without a record has no request.
pub open spec fn recorded_state(session: Session) -> Option<QuorumStateView> {
    if session.mode_state@.len() == 0 {
        Some(no_request())
    } else {
        recorded_in::<QuorumState>(session.mode_state@)
    }
}

/// What a message other than a commitment makes of the state.
pub open spec fn after_message(session: Session, env: Envelope, s: QuorumStateView) -> Result<
    QuorumStateView,
    MacpError,
> {
    let sender = env.sender@;
    if env.message_type@ == "ApprovalRequest"@ {
        request_made(session, sender, env.payload@, s)
    } else if env.message_type@ == "Approve"@ {
        match ApprovePayload::from_bytes(env.payload@) {
            Some(p) => ballot_cast(sender, p.request_id, BallotChoice::Approve, p.reason, s),
            None => Err(MacpError::InvalidPayload),
        }
    } else if env.message_type@ == "Reject"@ {
        match RejectPayload::from_bytes(env.payload@) {
            Some(p) => ballot_cast(sender, p.request_id, BallotChoice::Reject, p.reason, s),
            None => Err(MacpError::InvalidPayload),
        }
    } else if env.message_type@ == "Abstain"@ {
        match AbstainPayload::from_bytes(env.payload@) {
            Some(p) => ballot_cast(sender, p.request_id, BallotChoice::Abstain, p.reason, s),
            None => Err(MacpError::InvalidPayload),
        }
    } else {
        Err(MacpError::InvalidPayload)
    }
}

/// Whether the bytes record the state.
pub open spec fn records(bytes: Seq<u8>, s: QuorumStateView) -> bool {
    &&& bytes.len() > 0
    &&& bytes == json_text(<QuorumState as Codec>::json(s))
    &&& recorded_in::<QuorumState>(bytes) == Some(s)
}

/// Whether the response records the next state, or the message is refused with
/// its error.
pub open spec fn persists(
    next: Result<QuorumStateView, MacpError>,
    r: Result<ModeResponse, MacpError>,
) -> bool {
    match next {
        Ok(s) => r is Ok && r->Ok_0 is PersistState && records(r->Ok_0->PersistState_0@, s),
        Err(e) => r == Err::<ModeResponse, MacpError>(e),
    }
}

/// What the evaluator is told of the votes.
pub open spec fn votes(s: QuorumStateView) -> CommitmentMode<'static> {
    CommitmentMode::Quorum {
        approve_count: voters(s.ballots, BallotChoice::Approve).len() as usize,
        reject_count: voters(s.ballots, BallotChoice::Reject).len() as usize,
        abstain_count: voters(s.ballots, BallotChoice::Abstain).len() as usize,
    }
}

/// What a commitment makes of the session: once the vote is decided and the
/// policy lets it through, it resolves the session.
pub open spec fn commits<E: PolicyEvaluator + ?Sized>(
    evaluator: &E,
    session: Session,
    env: Envelope,
    s: QuorumStateView,
    r: Result<ModeResponse, MacpError>,
) -> bool {
    match fitting_commitment(session, env.payload@) {
        None => r == Err::<ModeResponse, MacpError>(MacpError::InvalidPayload),
        Some(c) => if !ready(session, s) {
            r == Err::<ModeResponse, MacpError>(MacpError::InvalidPayload)
        } else {
            exists|verdict: Result<(), MacpError>|
                {
                    &&& #[trigger] policy_verdict(
                        session,
                        votes(s),
                        c.outcome_positive,
                        evaluator,
                        verdict,
                    )
                    &&& match verdict {
                        Ok(()) => {
                            &&& r is Ok
                            &&& r->Ok_0 is PersistAndResolve
                            &&& records(r->Ok_0->state@, s)
                            &&& r->Ok_0->resolution@ == env.payload@
                        },
                        Err(e) => r == Err::<ModeResponse, MacpError>(e),
                    }
                }
        },
    }
}

/// What the mode makes of a message.
pub open spec fn handles<E: PolicyEvaluator + ?Sized>(
    evaluator: &E,
    session: Session,
    env: Envelope,
    r: Result<ModeResponse, MacpError>,
) -> bool {
    match recorded_state(session) {
        None => r == Err::<ModeResponse, MacpError>(MacpError::InvalidModeState),
        Some(s) => if env.message_type@ == "Commitment"@ {
            commits(evaluator, session, env, s, r)
        } else {
            persists(after_message(session, env, s), r)
        },
    }
}

/// Who may send which message: the request comes from the initiator, commitments
/// from whoever the policy says, and the rest from participants.
pub open spec fn sender_admitted(session: Session, env: Envelope) -> bool {
    if env.message_type@ == "ApprovalRequest"@ {
        env.sender@ == session.initiator_sender@
    } else if env.message_type@ == "Commitment"@ {
        may_commit(session, env.sender@)
    } else {
        texts(session.participants@).contains(env.sender@)
    }
}

// ---------------------------------------------------------------------------
// The mode
// ---------------------------------------------------------------------------

/// The quorum mode.
pub struct QuorumMode<E: PolicyEvaluator + ?Sized> {
    evaluator: Arc<E>,
}

fn to_count32(n: usize) -> (r: u32)
    ensures
        r == count32(n as nat),
{
    to_low_u32(n as u64)
}

/// How many have voted for the choice.
fn count_votes(ballots: &TextMap<BallotRecord>, choice: BallotChoice) -> (r: usize)
    ensures
        r == voters(ballots@, choice).len(),
        voters(ballots@, choice).finite(),
{
    let ghost entries = in_order(ballots@);
    let n: usize = ballots.len();
    let mut count: usize = 0;
    let mut i: usize = 0;
    proof {
        assert(map_of(entries.take(0)) =~= Map::empty());
        assert(voters(Map::empty(), choice) =~= Set::empty());
    }
    while i < n
        invariant
            i <= n,
            entries == in_order(ballots@),
            n == entries.len(),
            lists(entries, ballots@),
            count <= i,
            voters(map_of(entries.take(i as int)), choice).finite(),
            count == voters(map_of(entries.take(i as int)), choice).len(),
        decreases n - i,
    {
        let ghost before = map_of(entries.take(i as int));
        let ghost key = entries[i as int].0;
        proof {
            map_of_next(entries, i as int);
            key_is_new(entries, i as int);
        }
        let ghost after = map_of(entries.take(i + 1));
        if ballots.value_at(i).choice == choice {
            assert(voters(after, choice) =~= voters(before, choice).insert(key));
            count = count + 1;
        } else {
            assert(voters(after, choice) =~= voters(before, choice));
        }
        i = i + 1;
    }
    assert(entries.take(i as int) =~= entries);
    count
}

proof fn key_is_new(entries: Seq<(Seq<char>, BallotRecordView)>, i: int)
    requires
        crate::text_map::ascending(entries),
        0 <= i < entries.len(),
    ensures
        !map_of(entries.take(i)).dom().contains(entries[i].0),
{
    let before = entries.take(i);
    assert(crate::text_map::ascending(before));
    if map_of(before).dom().contains(entries[i].0) {
        let j = crate::text_map::map_of_key(before, entries[i].0);
        crate::text::text_before_asymmetric(entries[j].0, entries[i].0);
    }
}

/// How many have voted.
fn count_ballots(ballots: &TextMap<BallotRecord>) -> (r: usize)
    ensures
        r == ballots@.dom().len(),
{
    let n: usize = ballots.len();
    proof {
        keys_count(in_order(ballots@));
    }
    n
}

impl<E: PolicyEvaluator + ?Sized> QuorumMode<E> {
    /// The evaluator that gates commitments.
    pub closed spec fn evaluator(&self) -> &E {
        &*self.evaluator
    }

    /// The mode with the evaluator that gates its commitments.
    pub fn new(evaluator: Arc<E>) -> (r: Self)
        ensures
            r.evaluator() == &*evaluator,
    {
        QuorumMode { evaluator }
    }

    /// Records a state.
    pub fn encode_state(state: &QuorumState) -> (r: Vec<u8>)
        ensures
            records(r@, state.deep_view()),
    {
        encode_mode_state(state)
    }

    /// Reads a recorded state.
    pub fn decode_state(data: &[u8]) -> (r: Result<QuorumState, MacpError>)
        ensures
            r is Ok <==> recorded_in::<QuorumState>(data@) is Some,
            r is Ok ==> r->Ok_0.deep_view() == recorded_in::<QuorumState>(data@)->0,
            r is Err ==> r->Err_0 == MacpError::InvalidModeState,
    {
        decode_mode_state::<QuorumState>(data)
    }

    /// The bar for the request: the one that the policy sets, or else the one
    /// that the request asks for.
    pub fn effective_threshold(session: &Session, request: &ApprovalRequestRecord) -> (r:
        ApprovalThreshold)
        ensures
            r == bar(*session, request.required_approvals),
    {
        Self::threshold_over(session, request.required_approvals)
    }

    fn threshold_over(session: &Session, required: u32) -> (r: ApprovalThreshold)
        ensures
            r == bar(*session, required),
    {
        let policy: &PolicyDefinition = match &session.policy_definition {
            None => return ApprovalThreshold::Approvals(required),
            Some(policy) => policy,
        };
        let rules: QuorumPolicyRules = match QuorumPolicyRules::from_json(&policy.rules) {
            Some(rules) => rules,
            None => QuorumPolicyRules::default(),
        };
        match rules.threshold.effective(session.participants.len()) {
            EffectiveThreshold::Inert => ApprovalThreshold::Approvals(required),
            EffectiveThreshold::Approvals(n) => ApprovalThreshold::Approvals(n),
            EffectiveThreshold::Unsatisfiable => ApprovalThreshold::Unsatisfiable,
        }
    }

    fn can_be_met(session: &Session, threshold: ApprovalThreshold) -> (r: bool)
        ensures
            r == within_reach(*session, threshold),
    {
        match threshold {
            ApprovalThreshold::Approvals(n) => n >= 1 && n <= to_count32(
                session.participants.len(),
            ),
            ApprovalThreshold::Unsatisfiable => false,
        }
    }

    /// What to warn of: a request that is refused only for the bar that the
    /// policy sets, and that bar.
    pub fn refused_threshold(session: &Session, env: &Envelope) -> (r: Option<ApprovalThreshold>)
        ensures
            r == refused_bar(*session, *env),
    {
        let state: QuorumState = match Self::load(session) {
            Ok(state) => state,
            Err(_) => return None,
        };
        let payload: ApprovalRequestPayload = match ApprovalRequestPayload::decode(
            env.payload.as_slice(),
        ) {
            Some(payload) => payload,
            None => return None,
        };
        if !same(env.message_type.as_str(), "ApprovalRequest") || !same(
            env.sender.as_str(),
            session.initiator_sender.as_str(),
        ) || state.request.is_some() || payload.request_id.as_str().is_empty() || !Self::can_be_met(
            session,
            ApprovalThreshold::Approvals(payload.required_approvals),
        ) {
            return None;
        }
        let threshold: ApprovalThreshold = Self::threshold_over(
            session,
            payload.required_approvals,
        );
        if Self::can_be_met(session, threshold) {
            None
        } else {
            Some(threshold)
        }
    }

    /// The bar of the session: `None` as long as no request is on record.
    pub fn effective_threshold_for_session(session: &Session) -> (r: Result<
        Option<ApprovalThreshold>,
        MacpError,
    >)
        ensures
            match recorded_state(*session) {
                Some(s) => r == Ok::<Option<ApprovalThreshold>, MacpError>(
                    session_bar(*session, s),
                ),
                None => r == Err::<Option<ApprovalThreshold>, MacpError>(
                    MacpError::InvalidModeState,
                ),
            },
    {
        if session.mode_state.len() == 0 {
            return Ok(None);
        }
        match Self::decode_state(session.mode_state.as_slice()) {
            Err(e) => Err(e),
            Ok(state) => {
                match &state.request {
                    Some(request) => Ok(Some(Self::effective_threshold(session, request))),
                    None => Ok(None),
                }
            },
        }
    }

    /// Whether the session can be committed.
    pub fn commitment_ready(session: &Session, state: &QuorumState) -> (r: bool)
        ensures
            r == ready(*session, state.deep_view()),
    {
        let request: &ApprovalRequestRecord = match &state.request {
            Some(request) => request,
            None => return false,
        };
        let required: u32 = match Self::effective_threshold(session, request) {
            ApprovalThreshold::Approvals(required) => required,
            ApprovalThreshold::Unsatisfiable => return false,
        };
        let approvals: u32 = to_count32(count_votes(&state.ballots, BallotChoice::Approve));
        let total_eligible: u32 = to_count32(session.participants.len());
        let counted: u32 = to_count32(count_ballots(&state.ballots));
        let remaining: u32 = if total_eligible > counted {
            total_eligible - counted
        } else {
            0
        };
        approvals >= required || (counted > 0 && to_low_u32(approvals as u64 + remaining as u64)
            < required)
    }

    fn load(session: &Session) -> (r: Result<QuorumState, MacpError>)
        ensures
            r is Ok <==> recorded_state(*session) is Some,
            r is Ok ==> r->Ok_0.deep_view() == recorded_state(*session)->0,
            r is Err ==> r->Err_0 == MacpError::InvalidModeState,
    {
        if session.mode_state.len() == 0 {
            Ok(QuorumState { request: None, ballots: TextMap::new() })
        } else {
            Self::decode_state(session.mode_state.as_slice())
        }
    }

    fn handle_request(session: &Session, env: &Envelope, state: QuorumState) -> (r: Result<
        ModeResponse,
        MacpError,
    >)
        ensures
            persists(
                request_made(*session, env.sender@, env.payload@, state.deep_view()),
                r,
            ),
    {
        if !same(env.sender.as_str(), session.initiator_sender.as_str()) {
            return Err(MacpError::Forbidden);
        }
        let payload: ApprovalRequestPayload = match ApprovalRequestPayload::decode(
            env.payload.as_slice(),
        ) {
            Some(payload) => payload,
            None => return Err(MacpError::InvalidPayload),
        };
        let total: u32 = to_count32(session.participants.len());
        if state.request.is_some() || payload.request_id.as_str().is_empty()
            || payload.required_approvals == 0 || payload.required_approvals > total {
            return Err(MacpError::InvalidPayload);
        }
        let record = ApprovalRequestRecord {
            request_id: payload.request_id,
            action: payload.action,
            summary: payload.summary,
            details: payload.details,
            required_approvals: payload.required_approvals,
            requested_by: env.sender.clone(),
        };
        assert(record.details.deep_view() =~= record.details@);
        if !Self::can_be_met(session, Self::effective_threshold(session, &record)) {
            return Err(MacpError::InvalidPayload);
        }
        let next = QuorumState { request: Some(record), ballots: state.ballots };
        Ok(ModeResponse::PersistState(Self::encode_state(&next)))
    }

    fn cast_ballot(
        env: &Envelope,
        request_id: String,
        choice: BallotChoice,
        reason: String,
        state: QuorumState,
    ) -> (r: Result<ModeResponse, MacpError>)
        ensures
            persists(
                ballot_cast(env.sender@, request_id@, choice, reason@, state.deep_view()),
                r,
            ),
    {
        match &state.request {
            None => return Err(MacpError::InvalidPayload),
            Some(request) => {
                if !same(request_id.as_str(), request.request_id.as_str())
                    || state.ballots.contains_key(env.sender.as_str()) {
                    return Err(MacpError::InvalidPayload);
                }
            },
        }
        let mut ballots: TextMap<BallotRecord> = state.ballots;
        ballots.insert(
            env.sender.clone(),
            BallotRecord { request_id, choice, sender: env.sender.clone(), reason },
        );
        let next = QuorumState { request: state.request, ballots };
        Ok(ModeResponse::PersistState(Self::encode_state(&next)))
    }

    fn handle_commitment(
        &self,
        session: &Session,
        env: &Envelope,
        state: QuorumState,
    ) -> (r: Result<
        ModeResponse,
        MacpError,
    >)
        ensures
            commits(self.evaluator(), *session, *env, state.deep_view(), r),
    {
        let commitment: CommitmentPayload = match validate_commitment_payload_for_session(
            session,
            env.payload.as_slice(),
        ) {
            Ok(commitment) => commitment,
            Err(e) => return Err(e),
        };
        if !Self::commitment_ready(session, &state) {
            return Err(MacpError::InvalidPayload);
        }
        let approve_count: usize = count_votes(&state.ballots, BallotChoice::Approve);
        let reject_count: usize = count_votes(&state.ballots, BallotChoice::Reject);
        let abstain_count: usize = count_votes(&state.ballots, BallotChoice::Abstain);
        let evaluator: &E = &*self.evaluator;
        let verdict: Result<(), MacpError> = enforce_commitment_policy(
            session,
            CommitmentMode::Quorum { approve_count, reject_count, abstain_count },
            commitment.outcome_positive,
            evaluator,
        );
        assert(policy_verdict(
            *session,
            votes(state.deep_view()),
            commitment.outcome_positive,
            self.evaluator(),
            verdict,
        ));
        match verdict {
            Ok(()) => {},
            Err(e) => return Err(e),
        }
        Ok(
            ModeResponse::PersistAndResolve {
                state: Self::encode_state(&state),
                resolution: copy_bytes(env.payload.as_slice()),
            },
        )
    }
}

proof fn message_types_differ()
    ensures
        "Commitment"@ != "ApprovalRequest"@,
        "Commitment"@ != "Approve"@,
        "Commitment"@ != "Reject"@,
        "Commitment"@ != "Abstain"@,
{
    reveal_strlit("Commitment");
    reveal_strlit("ApprovalRequest");
    reveal_strlit("Approve");
    reveal_strlit("Reject");
    reveal_strlit("Abstain");
    assert("Commitment"@.len() == 10);
    assert("ApprovalRequest"@.len() == 15);
    assert("Approve"@.len() == 7);
    assert("Reject"@.len() == 6);
    assert("Abstain"@.len() == 7);
}

impl<E: PolicyEvaluator + ?Sized> Mode for QuorumMode<E> {
    fn on_session_start(&self, session: &Session, env: &Envelope) -> (r: Result<
        ModeResponse,
        MacpError,
    >)
        ensures
            persists(
                if session.participants@.len() > 0 {
                    Ok(no_request())
                } else {
                    Err(MacpError::InvalidPayload)
                },
                r,
            ),
    {
        let _ = env;
        if session.participants.len() == 0 {
            return Err(MacpError::InvalidPayload);
        }
        let state = QuorumState { request: None, ballots: TextMap::new() };
        Ok(ModeResponse::PersistState(Self::encode_state(&state)))
    }

    fn on_message(&self, session: &Session, env: &Envelope) -> (r: Result<ModeResponse, MacpError>)
        ensures
            handles(self.evaluator(), *session, *env, r),
    {
        proof {
            message_types_differ();
        }
        let state: QuorumState = match Self::load(session) {
            Ok(state) => state,
            Err(e) => return Err(e),
        };
        let message_type: &str = env.message_type.as_str();
        if same(message_type, "ApprovalRequest") {
            Self::handle_request(session, env, state)
        } else if same(message_type, "Approve") {
            match ApprovePayload::decode(env.payload.as_slice()) {
                Some(p) => Self::cast_ballot(
                    env,
                    p.request_id,
                    BallotChoice::Approve,
                    p.reason,
                    state,
                ),
                None => Err(MacpError::InvalidPayload),
            }
        } else if same(message_type, "Reject") {
            match RejectPayload::decode(env.payload.as_slice()) {
                Some(p) => Self::cast_ballot(
                    env,
                    p.request_id,
                    BallotChoice::Reject,
                    p.reason,
                    state,
                ),
                None => Err(MacpError::InvalidPayload),
            }
        } else if same(message_type, "Abstain") {
            match AbstainPayload::decode(env.payload.as_slice()) {
                Some(p) => Self::cast_ballot(
                    env,
                    p.request_id,
                    BallotChoice::Abstain,
                    p.reason,
                    state,
                ),
                None => Err(MacpError::InvalidPayload),
            }
        } else if same(message_type, "Commitment") {
            self.handle_commitment(session, env, state)
        } else {
            Err(MacpError::InvalidPayload)
        }
    }

    fn authorize_sender(&self, session: &Session, env: &Envelope) -> (r: Result<(), MacpError>)
        ensures
            r == if sender_admitted(*session, *env) {
                Ok::<(), MacpError>(())
            } else {
                Err(MacpError::Forbidden)
            },
    {
        let message_type: &str = env.message_type.as_str();
        proof {
            message_types_differ();
        }
        if same(message_type, "Commitment") {
            return check_commitment_authority(session, env.sender.as_str());
        }
        let admitted: bool = if same(message_type, "ApprovalRequest") {
            same(env.sender.as_str(), session.initiator_sender.as_str())
        } else {
            is_declared_participant(session.participants.as_slice(), env.sender.as_str())
        };
        if admitted {
            Ok(())
        } else {
            Err(MacpError::Forbidden)
        }
    }
}

// ---------------------------------------------------------------------------
// What always holds
// ---------------------------------------------------------------------------

/// A bar in approvals is never zero where the request asks for at least one.
pub proof fn bar_never_zero(session: Session, required: u32)
    requires
        required >= 1,
    ensures
        bar(session, required) matches ApprovalThreshold::Approvals(n) ==> n >= 1,
{
    if session.policy_definition is Some {
        effective_never_zero(
            quorum_rules(session.policy_definition->0).threshold,
            session.participants@.len(),
        );
    }
}

/// Whether a state is one that messages lead to: the request asks for at least
/// one approval, no one has voted before it was made, and every ballot is for it
/// and under the name of its voter.
pub open spec fn well_kept(s: QuorumStateView) -> bool {
    &&& s.ballots.dom().finite()
    &&& s.request is Some ==> s.request->0.required_approvals >= 1
    &&& s.request is None ==> s.ballots == Map::<Seq<char>, BallotRecordView>::empty()
    &&& forall|k: Seq<char>|
        s.ballots.dom().contains(k) ==> (#[trigger] s.ballots[k]).sender == k
            && s.ballots[k].request_id == s.request->0.request_id
}

/// A session without a request is well kept.
pub proof fn no_request_well_kept()
    ensures
        well_kept(no_request()),
{
}

/// Every message that is accepted leaves the state well kept.
pub proof fn messages_keep_state(session: Session, env: Envelope, s: QuorumStateView)
    requires
        well_kept(s),
        after_message(session, env, s) is Ok,
    ensures
        well_kept(after_message(session, env, s)->Ok_0),
{
    let next = after_message(session, env, s)->Ok_0;
    assert forall|k: Seq<char>| next.ballots.dom().contains(k) implies (
    #[trigger] next.ballots[k]).sender == k && next.ballots[k].request_id
        == next.request->0.request_id by {
        if s.ballots.dom().contains(k) {
            assert(s.ballots[k].sender == k);
        }
    }
}

/// A session can be committed only once someone has voted: neither outcome is
/// sealed over an empty ballot box.
pub proof fn no_commitment_without_a_ballot(session: Session, s: QuorumStateView)
    requires
        well_kept(s),
        ready(session, s),
    ensures
        s.ballots.dom().len() > 0,
{
    bar_never_zero(session, s.request->0.required_approvals);
    if s.ballots.dom().len() == 0 {
        assert(s.ballots.dom() =~= Set::empty());
        assert(voters(s.ballots, BallotChoice::Approve) =~= Set::empty());
    }
}

/// The request stays as it was made, and every ballot as it was cast.
pub proof fn votes_are_final(session: Session, env: Envelope, s: QuorumStateView)
    requires
        after_message(session, env, s) is Ok,
    ensures
        s.request is Some ==> after_message(session, env, s)->Ok_0.request == s.request,
        forall|k: Seq<char>|
            s.ballots.dom().contains(k) ==> after_message(
                session,
                env,
                s,
            )->Ok_0.ballots.dom().contains(k) && #[trigger] after_message(
                session,
                env,
                s,
            )->Ok_0.ballots[k] == s.ballots[k],
{
}

/// What the mode has recorded is what the next message finds.
pub proof fn next_message_starts_here(session: Session, response: ModeResponse, s: QuorumStateView)
    requires
        response is PersistState,
        records(response->PersistState_0@, s),
    ensures
        recorded_state(applied(session, response)) == Some(s),
{
}

/// Whether the mode state of the one session becomes that of the other: it stays,
/// or a message is handled and what the mode made of it is taken over. What else
/// there is to a session may have changed meanwhile.
pub open spec fn leads_to<E: PolicyEvaluator + ?Sized>(
    evaluator: &E,
    before: Session,
    after: Session,
) -> bool {
    ||| after.mode_state@ == before.mode_state@
    ||| exists|env: Envelope, response: ModeResponse|
        #[trigger] handles(evaluator, before, env, Ok(response)) && after.mode_state@ == applied(
            before,
            response,
        ).mode_state@
}

/// Whether each of the sessions leads to the next.
pub open spec fn is_run<E: PolicyEvaluator + ?Sized>(
    evaluator: &E,
    sessions: Seq<Session>,
) -> bool {
    forall|i: int|
        0 <= i < sessions.len() - 1 ==> leads_to(
            evaluator,
            #[trigger] sessions[i],
            sessions[i + 1],
        )
}

/// Whether the request of a state and all its ballots are in the other as they
/// were.
pub open spec fn kept_in(s: QuorumStateView, next: QuorumStateView) -> bool {
    &&& s.request is Some ==> next.request == s.request
    &&& forall|k: Seq<char>|
        s.ballots.dom().contains(k) ==> next.ballots.dom().contains(k)
            && #[trigger] next.ballots[k] == s.ballots[k]
}

proof fn leads_to_what_follows<E: PolicyEvaluator + ?Sized>(
    evaluator: &E,
    before: Session,
    after: Session,
)
    requires
        leads_to(evaluator, before, after),
        recorded_state(before) is Some,
    ensures
        recorded_state(after) is Some,
        kept_in(recorded_state(before)->0, recorded_state(after)->0),
        well_kept(recorded_state(before)->0) ==> well_kept(recorded_state(after)->0),
{
    let s = recorded_state(before)->0;
    if after.mode_state@ != before.mode_state@ {
        let (env, response) = choose|env: Envelope, response: ModeResponse|
            #[trigger] handles(evaluator, before, env, Ok(response)) && after.mode_state@
                == applied(before, response).mode_state@;
        if env.message_type@ != "Commitment"@ {
            votes_are_final(before, env, s);
            if well_kept(s) {
                messages_keep_state(before, env, s);
            }
        }
    }
}

/// What becomes of a session when a message arrives leads on.
pub proof fn steps_lead_on<E: PolicyEvaluator + ?Sized>(
    mode: &QuorumMode<E>,
    before: Session,
    env: Envelope,
    now_ms: i64,
    after: Session,
    r: Result<StepOutcome, MacpError>,
)
    requires
        steps(before, env, mode, now_ms, after, r),
    ensures
        leads_to(mode.evaluator(), before, after),
{
    if r matches Ok(StepOutcome::Accepted { state }) {
        let v = choose|v: Result<ModeResponse, MacpError>|
            {
                &&& #[trigger] validates(&before, &env, mode, v)
                &&& v is Ok
                &&& commits_message(before, env, v->Ok_0, now_ms, after)
            };
        assert(handles(mode.evaluator(), before, env, v));
    }
}

/// However many messages follow one another, whoever sends them: no one has voted
/// before there is a request, and every ballot is for the request and under the
/// name of its voter, who has no other.
pub proof fn runs_keep_state<E: PolicyEvaluator + ?Sized>(
    evaluator: &E,
    sessions: Seq<Session>,
    i: int,
)
    requires
        is_run(evaluator, sessions),
        0 <= i < sessions.len(),
        recorded_state(sessions[0]) == Some(no_request()),
    ensures
        recorded_state(sessions[i]) is Some,
        well_kept(recorded_state(sessions[i])->0),
    decreases i,
{
    no_request_well_kept();
    if i > 0 {
        runs_keep_state(evaluator, sessions, i - 1);
        leads_to_what_follows(evaluator, sessions[i - 1], sessions[i]);
    }
}

/// However many messages follow, the request stays as it was made, and every
/// ballot as it was cast.
pub proof fn runs_keep_votes<E: PolicyEvaluator + ?Sized>(
    evaluator: &E,
    sessions: Seq<Session>,
    i: int,
    j: int,
)
    requires
        is_run(evaluator, sessions),
        0 <= i <= j < sessions.len(),
        recorded_state(sessions[i]) is Some,
    ensures
        recorded_state(sessions[j]) is Some,
        kept_in(recorded_state(sessions[i])->0, recorded_state(sessions[j])->0),
    decreases j - i,
{
    if i < j {
        leads_to_what_follows(evaluator, sessions[i], sessions[i + 1]);
        runs_keep_votes(evaluator, sessions, i + 1, j);
        let first = recorded_state(sessions[i])->0;
        let next = recorded_state(sessions[i + 1])->0;
        let last = recorded_state(sessions[j])->0;
        assert forall|k: Seq<char>| first.ballots.dom().contains(k) implies last.ballots.dom()
            .contains(k) && #[trigger] last.ballots[k] == first.ballots[k] by {
            assert(next.ballots[k] == first.ballots[k]);
            assert(last.ballots[k] == next.ballots[k]);
        }
    }
}

/// A request is accepted only with a bar that the participants can meet.
pub proof fn accepted_bar_is_attainable(session: Session, env: Envelope, s: QuorumStateView)
    requires
        env.message_type@ == "ApprovalRequest"@,
        after_message(session, env, s) is Ok,
    ensures
        session_bar(session, after_message(session, env, s)->Ok_0) matches Some(
            ApprovalThreshold::Approvals(n),
        ) && attainable(session, n),
{
}

/// A request is refused where it is only its bar that cannot be met.
pub proof fn refused_bar_refuses(session: Session, env: Envelope)
    requires
        refused_bar(session, env) is Some,
    ensures
        after_message(session, env, recorded_state(session)->0) == Err::<
            QuorumStateView,
            MacpError,
        >(MacpError::InvalidPayload),
{
}

/// What it means that a session can be committed, as long as counts fit in 32
/// bits: the bar is met, or it can no longer be met though all who are left
/// approve.
pub proof fn ready_means_decided(session: Session, s: QuorumStateView)
    requires
        s.ballots.dom().finite(),
        session_bar(session, s) is Some,
        s.ballots.dom().len() < 0x1_0000_0000,
        session.participants@.len() < 0x1_0000_0000,
    ensures
        ready(session, s) <==> (session_bar(session, s) matches Some(
            ApprovalThreshold::Approvals(required),
        ) && ({
            let approvals = voters(s.ballots, BallotChoice::Approve).len();
            let counted = s.ballots.dom().len();
            approvals >= required || (counted > 0 && approvals + larger(
                session.participants@.len() - counted,
                0,
            ) < required)
        })),
{
    let approving = voters(s.ballots, BallotChoice::Approve);
    assert(approving.subset_of(s.ballots.dom()));
    vstd::set_lib::lemma_len_subset(approving, s.ballots.dom());
}

/// A message that is handled again on the same session is answered the same, byte
/// for byte, whatever evaluators there are. Where a policy gates commitments, its
/// evaluator answers for them.
pub proof fn replays_identically<E: PolicyEvaluator + ?Sized, F: PolicyEvaluator + ?Sized>(
    one: &E,
    other: &F,
    session: Session,
    env: Envelope,
    a: Result<ModeResponse, MacpError>,
    b: Result<ModeResponse, MacpError>,
)
    requires
        env.message_type@ != "Commitment"@ || session.policy_definition is None,
        handles(one, session, env, a),
        handles(other, session, env, b),
    ensures
        same_answer(a, b),
{
}

// ---------------------------------------------------------------------------
// What each message comes to
// ---------------------------------------------------------------------------

/// Where the rule of the bound policy sets a number of approvals for so many
/// participants, that number is the bar, whatever a request asks for: it may be
/// more than that or less.
pub proof fn the_policy_sets_the_bar(
    session: Session,
    policy: PolicyDefinition,
    n: u32,
    a: u32,
    b: u32,
)
    requires
        session.policy_definition == Some(policy),
        effective_of(quorum_rules(policy).threshold, session.participants@.len())
            == EffectiveThreshold::Approvals(n),
    ensures
        bar(session, a) == bar(session, b),
        bar(session, a) == ApprovalThreshold::Approvals(n),
{
}

/// Where no policy is bound, or its rule sets no bar, the bar is what the request
/// asks for.
pub proof fn the_request_sets_the_bar_otherwise(session: Session, required: u32)
    requires
        session.policy_definition matches Some(policy) ==> effective_of(
            quorum_rules(policy).threshold,
            session.participants@.len(),
        ) == EffectiveThreshold::Inert,
    ensures
        bar(session, required) == ApprovalThreshold::Approvals(required),
{
}

/// Where no number of approvals satisfies the rule of the bound policy, none does,
/// whatever a request asks for: no request is accepted, and no commitment.
pub proof fn no_bar_is_met_by_no_one<E: PolicyEvaluator + ?Sized>(
    evaluator: &E,
    session: Session,
    env: Envelope,
    s: QuorumStateView,
    r: Result<ModeResponse, MacpError>,
)
    requires
        session.policy_definition matches Some(policy) && effective_of(
            quorum_rules(policy).threshold,
            session.participants@.len(),
        ) == EffectiveThreshold::Unsatisfiable,
        recorded_state(session) == Some(s),
        env.message_type@ == "ApprovalRequest"@ && env.sender@ == session.initiator_sender@
            || env.message_type@ == "Commitment"@,
        handles(evaluator, session, env, r),
    ensures
        r == Err::<ModeResponse, MacpError>(MacpError::InvalidPayload),
{
    message_types_differ();
}

/// The bar of a session is there as soon as its request is, and is asked for by the
/// number in that request.
pub proof fn requests_bring_the_bar(session: Session, s: QuorumStateView)
    ensures
        s.request is None ==> session_bar(session, s) is None,
        s.request matches Some(request) ==> session_bar(session, s) == Some(
            bar(session, request.required_approvals),
        ),
{
}

/// A session without a record starts without a request and without ballots, and
/// one whose record cannot be read takes no message.
pub proof fn records_are_read_or_refused<E: PolicyEvaluator + ?Sized>(
    evaluator: &E,
    session: Session,
    env: Envelope,
    r: Result<ModeResponse, MacpError>,
)
    requires
        handles(evaluator, session, env, r),
    ensures
        session.mode_state@.len() == 0 ==> (recorded_state(session) matches Some(s)
            && s.request is None && s.ballots == Map::<Seq<char>, BallotRecordView>::empty()),
        session.mode_state@.len() > 0 && recorded_in::<QuorumState>(session.mode_state@) is None
            ==> r == Err::<ModeResponse, MacpError>(MacpError::InvalidModeState),
        session.mode_state@.len() > 0 ==> recorded_state(session) == recorded_in::<QuorumState>(
            session.mode_state@,
        ),
{
}

/// An accepted request is on record as it was made, and changes nothing else.
pub proof fn requests_are_recorded_as_made<E: PolicyEvaluator + ?Sized>(
    evaluator: &E,
    session: Session,
    env: Envelope,
    s: QuorumStateView,
    response: ModeResponse,
)
    requires
        recorded_state(session) == Some(s),
        env.message_type@ == "ApprovalRequest"@,
        handles(evaluator, session, env, Ok(response)),
    ensures
        response is PersistState,
        ApprovalRequestPayload::from_bytes(env.payload@) is Some,
        s.request is None,
        ({
            let p = ApprovalRequestPayload::from_bytes(env.payload@)->0;
            let t = recorded_state(applied(session, response))->0;
            &&& recorded_state(applied(session, response)) is Some
            &&& t.ballots == s.ballots
            &&& t.request is Some
            &&& t.request->0.request_id == p.request_id
            &&& t.request->0.action == p.action
            &&& t.request->0.summary == p.summary
            &&& t.request->0.details == p.details
            &&& t.request->0.required_approvals == p.required_approvals
            &&& t.request->0.requested_by == env.sender@
        }),
{
    message_types_differ();
}

/// A request is accepted exactly where it is the first one, comes from the
/// initiator, names itself, and both what it asks for and the bar that then counts
/// lie between one and the number of participants.
pub proof fn when_requests_are_accepted<E: PolicyEvaluator + ?Sized>(
    evaluator: &E,
    session: Session,
    env: Envelope,
    s: QuorumStateView,
    r: Result<ModeResponse, MacpError>,
)
    requires
        recorded_state(session) == Some(s),
        env.message_type@ == "ApprovalRequest"@,
        session.participants@.len() <= u32::MAX,
        handles(evaluator, session, env, r),
    ensures
        r is Ok <==> {
            let p = ApprovalRequestPayload::from_bytes(env.payload@)->0;
            &&& env.sender@ == session.initiator_sender@
            &&& ApprovalRequestPayload::from_bytes(env.payload@) is Some
            &&& s.request is None
            &&& p.request_id.len() > 0
            &&& 1 <= p.required_approvals <= session.participants@.len()
            &&& bar(session, p.required_approvals) matches ApprovalThreshold::Approvals(n) && 1 <= n
                && n <= session.participants@.len()
        },
        r is Err ==> r->Err_0 == if env.sender@ == session.initiator_sender@ {
            MacpError::InvalidPayload
        } else {
            MacpError::Forbidden
        },
{
    message_types_differ();
    vstd::arithmetic::div_mod::lemma_small_mod(session.participants@.len(), 0x1_0000_0000);
}

proof fn ballots_differ()
    ensures
        "Approve"@ != "ApprovalRequest"@,
        "Reject"@ != "ApprovalRequest"@,
        "Abstain"@ != "ApprovalRequest"@,
        "Approve"@ != "Reject"@,
        "Approve"@ != "Abstain"@,
        "Reject"@ != "Abstain"@,
{
    reveal_strlit("ApprovalRequest");
    reveal_strlit("Approve");
    reveal_strlit("Reject");
    reveal_strlit("Abstain");
    assert("ApprovalRequest"@.len() == 15);
    assert("Approve"@.len() == 7);
    assert("Reject"@.len() == 6);
    assert("Abstain"@.len() == 7);
    assert("Approve"@[1] == 'p');
    assert("Abstain"@[1] == 'b');
}

/// Whether the envelope is a ballot for the choice, with the identifier and the
/// reason.
pub open spec fn is_ballot(
    env: Envelope,
    choice: BallotChoice,
    request_id: Seq<char>,
    reason: Seq<char>,
) -> bool {
    ||| env.message_type@ == "Approve"@ && choice == BallotChoice::Approve && (
    ApprovePayload::from_bytes(env.payload@) matches Some(p) && p.request_id == request_id
        && p.reason == reason)
    ||| env.message_type@ == "Reject"@ && choice == BallotChoice::Reject && (
    RejectPayload::from_bytes(env.payload@) matches Some(p) && p.request_id == request_id
        && p.reason == reason)
    ||| env.message_type@ == "Abstain"@ && choice == BallotChoice::Abstain && (
    AbstainPayload::from_bytes(env.payload@) matches Some(p) && p.request_id == request_id
        && p.reason == reason)
}

/// A ballot is accepted exactly where it is for the request on record and its
/// sender has cast none. It is then on record as it was cast, under the name of its
/// sender; the request and all other ballots stay as they were.
pub proof fn ballots_are_recorded_as_cast<E: PolicyEvaluator + ?Sized>(
    evaluator: &E,
    session: Session,
    env: Envelope,
    s: QuorumStateView,
    choice: BallotChoice,
    request_id: Seq<char>,
    reason: Seq<char>,
    r: Result<ModeResponse, MacpError>,
)
    requires
        recorded_state(session) == Some(s),
        is_ballot(env, choice, request_id, reason),
        handles(evaluator, session, env, r),
    ensures
        r is Ok <==> s.request is Some && s.request->0.request_id == request_id
            && !s.ballots.dom().contains(env.sender@),
        r is Err ==> r->Err_0 == MacpError::InvalidPayload,
        r is Ok ==> ({
            let t = recorded_state(applied(session, r->Ok_0))->0;
            let cast = t.ballots[env.sender@];
            &&& r->Ok_0 is PersistState
            &&& recorded_state(applied(session, r->Ok_0)) is Some
            &&& t.request == s.request
            &&& t.ballots.dom() == s.ballots.dom().insert(env.sender@)
            &&& forall|k: Seq<char>|
                s.ballots.dom().contains(k) ==> #[trigger] t.ballots[k] == s.ballots[k]
            &&& cast.choice == choice
            &&& cast.request_id == request_id
            &&& cast.sender == env.sender@
            &&& cast.reason == reason
        }),
{
    message_types_differ();
    ballots_differ();
}

/// A message that is no request, no ballot and no commitment is refused, and so is
/// one whose payload cannot be read.
pub proof fn anything_else_is_refused<E: PolicyEvaluator + ?Sized>(
    evaluator: &E,
    session: Session,
    env: Envelope,
    r: Result<ModeResponse, MacpError>,
)
    requires
        recorded_state(session) is Some,
        handles(evaluator, session, env, r),
        env.message_type@ != "ApprovalRequest"@,
        env.message_type@ == "Approve"@ ==> ApprovePayload::from_bytes(env.payload@) is None,
        env.message_type@ == "Reject"@ ==> RejectPayload::from_bytes(env.payload@) is None,
        env.message_type@ == "Abstain"@ ==> AbstainPayload::from_bytes(env.payload@) is None,
        env.message_type@ == "Commitment"@ ==> CommitmentPayload::from_bytes(env.payload@) is None,
    ensures
        r == Err::<ModeResponse, MacpError>(MacpError::InvalidPayload),
{
}

/// The votes for a choice.
pub open spec fn votes_for(s: QuorumStateView, choice: BallotChoice) -> Set<Seq<char>> {
    s.ballots.dom().filter(|k: Seq<char>| s.ballots[k].choice == choice)
}

/// When a commitment is accepted: there is a request, its bar can be met, and it is
/// met, or someone has voted and it can no longer be met though all who are left
/// approve. It then resolves the session with its payload and leaves the state as
/// it was. Without a policy nothing else stands in its way.
pub proof fn commitments_wait_for_the_vote<E: PolicyEvaluator + ?Sized>(
    evaluator: &E,
    session: Session,
    env: Envelope,
    s: QuorumStateView,
    r: Result<ModeResponse, MacpError>,
)
    requires
        recorded_state(session) == Some(s),
        env.message_type@ == "Commitment"@,
        s.ballots.dom().finite(),
        s.ballots.dom().len() <= u32::MAX,
        session.participants@.len() <= u32::MAX,
        handles(evaluator, session, env, r),
    ensures
        ({
            let decided = s.request is Some && (bar(session, s.request->0.required_approvals)
                matches ApprovalThreshold::Approvals(n) && {
                let approvals = votes_for(s, BallotChoice::Approve).len();
                let left = session.participants@.len() - s.ballots.dom().len();
                approvals >= n || (s.ballots.dom().len() > 0 && approvals + (if left > 0 {
                    left
                } else {
                    0
                }) < n)
            });
            let fits = fitting_commitment(session, env.payload@) is Some;
            &&& !decided || !fits ==> r == Err::<ModeResponse, MacpError>(MacpError::InvalidPayload)
            &&& decided && fits && session.policy_definition is None ==> r is Ok
            &&& decided && fits && r is Err ==> r->Err_0 is PolicyDenied
        }),
        r is Ok ==> {
            &&& r->Ok_0 is PersistAndResolve
            &&& r->Ok_0->resolution@ == env.payload@
            &&& recorded_state(applied(session, r->Ok_0)) == Some(s)
        },
{
    message_types_differ();
    if session_bar(session, s) is Some {
        ready_means_decided(session, s);
        assert(voters(s.ballots, BallotChoice::Approve) =~= votes_for(s, BallotChoice::Approve));
    }
}

/// Where a policy is bound, a commitment that is accepted is one that the evaluator
/// allows: it was asked about this policy, these participants, this outcome and the
/// votes as they were cast.
pub proof fn the_policy_is_asked<E: PolicyEvaluator + ?Sized>(
    evaluator: &E,
    session: Session,
    env: Envelope,
    s: QuorumStateView,
    r: Result<ModeResponse, MacpError>,
)
    requires
        recorded_state(session) == Some(s),
        env.message_type@ == "Commitment"@,
        session.policy_definition is Some,
        s.ballots.dom().finite(),
        s.ballots.dom().len() <= u32::MAX,
        handles(evaluator, session, env, r),
        r is Ok || r->Err_0 is PolicyDenied,
    ensures
        exists|ctx: CommitmentContext<'_>, decision: PolicyDecision|
            {
                &&& #[trigger] call_ensures(E::evaluate_commitment, (evaluator, &ctx), decision)
                &&& *ctx.policy == session.policy_definition->0
                &&& ctx.participants@ == session.participants@
                &&& ctx.mode matches CommitmentMode::Quorum {
                    approve_count,
                    reject_count,
                    abstain_count,
                } && {
                    &&& approve_count == votes_for(s, BallotChoice::Approve).len()
                    &&& reject_count == votes_for(s, BallotChoice::Reject).len()
                    &&& abstain_count == votes_for(s, BallotChoice::Abstain).len()
                }
                &&& CommitmentPayload::from_bytes(env.payload@) matches Some(c)
                    && ctx.outcome_positive == c.outcome_positive
                &&& r is Ok <==> decision is Allow
                &&& decision matches PolicyDecision::Deny { reasons } ==> r == Err::<
                    ModeResponse,
                    MacpError,
                >(MacpError::PolicyDenied { reasons })
            },
{
    assert(voters(s.ballots, BallotChoice::Approve) =~= votes_for(s, BallotChoice::Approve));
    assert(voters(s.ballots, BallotChoice::Reject) =~= votes_for(s, BallotChoice::Reject));
    assert(voters(s.ballots, BallotChoice::Abstain) =~= votes_for(s, BallotChoice::Abstain));
    vstd::set_lib::lemma_len_subset(votes_for(s, BallotChoice::Approve), s.ballots.dom());
    vstd::set_lib::lemma_len_subset(votes_for(s, BallotChoice::Reject), s.ballots.dom());
    vstd::set_lib::lemma_len_subset(votes_for(s, BallotChoice::Abstain), s.ballots.dom());
}

/// Who may send what: the initiator makes the request, be it a participant or not;
/// the participants send everything else but commitments, and no one else does.
pub proof fn who_may_send_what(session: Session, env: Envelope)
    requires
        env.message_type@ != "Commitment"@,
    ensures
        env.message_type@ == "ApprovalRequest"@ ==> (sender_admitted(session, env)
            <==> env.sender@ == session.initiator_sender@),
        env.message_type@ != "ApprovalRequest"@ ==> (sender_admitted(session, env) <==> exists|
            i: int,
        |
            0 <= i < session.participants@.len() && #[trigger] session.participants@[i]@
                == env.sender@),
{
    let names = texts(session.participants@);
    if names.contains(env.sender@) {
        let i = names.index_of(env.sender@);
        assert(session.participants@[i]@ == env.sender@);
    }
    if exists|i: int|
        0 <= i < session.participants@.len() && #[trigger] session.participants@[i]@
            == env.sender@ {
        let i = choose|i: int|
            0 <= i < session.participants@.len() && #[trigger] session.participants@[i]@
                == env.sender@;
        assert(names[i] == env.sender@);
    }
}

/// A session may be opened exactly where it has participants; it then starts
/// without a request.
pub proof fn sessions_start_without_a_request<E: PolicyEvaluator + ?Sized>(
    mode: &QuorumMode<E>,
    session: Session,
    env: Envelope,
    r: Result<ModeResponse, MacpError>,
)
    requires
        call_ensures(QuorumMode::<E>::on_session_start, (mode, &session, &env), r),
    ensures
        r is Ok <==> session.participants@.len() > 0,
        r is Err ==> r->Err_0 == MacpError::InvalidPayload,
        r is Ok ==> (recorded_state(applied(session, r->Ok_0)) matches Some(s)
            && s.request is None && s.ballots == Map::<Seq<char>, BallotRecordView>::empty()),
{
}

/// Once there are as many approvals as the bar asks for, the session can be
/// committed, and it stays so whatever ballots follow.
pub proof fn approvals_only_help(session: Session, s: QuorumStateView, t: QuorumStateView, n: u32)
    requires
        session_bar(session, s) == Some(ApprovalThreshold::Approvals(n)),
        t.request == s.request,
        s.ballots.dom().finite(),
        t.ballots.dom().finite(),
        s.ballots.dom().len() <= u32::MAX,
        t.ballots.dom().len() <= u32::MAX,
        session.participants@.len() <= u32::MAX,
        votes_for(s, BallotChoice::Approve).subset_of(votes_for(t, BallotChoice::Approve)),
        votes_for(s, BallotChoice::Approve).len() >= n,
    ensures
        ready(session, s),
        ready(session, t),
{
    ready_means_decided(session, s);
    ready_means_decided(session, t);
    assert(voters(s.ballots, BallotChoice::Approve) =~= votes_for(s, BallotChoice::Approve));
    assert(voters(t.ballots, BallotChoice::Approve) =~= votes_for(t, BallotChoice::Approve));
    vstd::set_lib::lemma_len_subset(votes_for(t, BallotChoice::Approve), t.ballots.dom());
    vstd::set_lib::lemma_len_subset(
        votes_for(s, BallotChoice::Approve),
        votes_for(t, BallotChoice::Approve),
    );
}

/// Commitments may be sent by whom the rules for commitments say, and by no one
/// else.
pub proof fn rules_say_who_sends_commitments(session: Session, env: Envelope)
    requires
        env.message_type@ == "Commitment"@,
    ensures
        sender_admitted(session, env) <==> may_commit(session, env.sender@),
{
    message_types_differ();
}

/// A message is accepted only from a sender who may send it.
pub proof fn accepted_senders_may_send<E: PolicyEvaluator + ?Sized>(
    mode: &QuorumMode<E>,
    before: Session,
    env: Envelope,
    now_ms: i64,
    after: Session,
    state: SessionState,
)
    requires
        steps(before, env, mode, now_ms, after, Ok(StepOutcome::Accepted { state })),
    ensures
        sender_admitted(before, env),
{
    the_mode_has_to_agree(before, env, mode, now_ms, after, state);
}

/// The bar stands in the rules of the bound policy. Rules that cannot be read set
/// none, and the request does.
pub proof fn bars_stand_in_the_rules(session: Session, policy: PolicyDefinition, required: u32)
    requires
        session.policy_definition == Some(policy),
    ensures
        QuorumPolicyRules::from_view(json_of(policy.rules)) is None ==> bar(session, required)
            == ApprovalThreshold::Approvals(required),
        QuorumPolicyRules::from_view(json_of(policy.rules)) matches Some(rules) ==> match
            effective_of(rules.threshold, session.participants@.len()) {
            EffectiveThreshold::Inert => bar(session, required) == ApprovalThreshold::Approvals(
                required,
            ),
            EffectiveThreshold::Approvals(n) => bar(session, required)
                == ApprovalThreshold::Approvals(n),
            EffectiveThreshold::Unsatisfiable => bar(session, required)
                == ApprovalThreshold::Unsatisfiable,
        },
{
}

} // verus!
