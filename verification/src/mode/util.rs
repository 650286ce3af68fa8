//! What the modes share: the rules for commitments, and the record of their
//! state.

use crate::codec::{decode, encode, recorded_in, Codec};
use crate::error::MacpError;
use crate::json::{json_of, json_text, member};
use crate::pb::commitment::{CommitmentPayload, CommitmentPayloadView};
use crate::policy::{
    commitment_rules_in, extract_commitment_rules, CommitmentContext, CommitmentMode,
    CommitmentRules, CommitmentRulesView, PolicyDecision, PolicyEvaluator,
};
use crate::session::Session;
use crate::text::{among, blank, ends_with, has_suffix, is_blank, same, texts, trim};
use crate::text_map::TextMap;
use vstd::prelude::*;

verus! {

/// Reads a commitment from its bytes.
pub fn decode_commitment_payload(payload: &[u8]) -> (r: Result<CommitmentPayload, MacpError>)
    ensures
        r is Ok <==> CommitmentPayload::from_bytes(payload@) is Some,
        r is Ok ==> r->Ok_0.deep_view() == CommitmentPayload::from_bytes(payload@)->0,
        r is Err ==> r->Err_0 == MacpError::InvalidPayload,
{
    match CommitmentPayload::decode(payload) {
        Some(commitment) => Ok(commitment),
        None => Err(MacpError::InvalidPayload),
    }
}

/// Whether the name of an action says that it came to nothing.
pub open spec fn is_negative_action(action: Seq<char>) -> bool {
    has_suffix(action, "rejected"@) || has_suffix(action, "failed"@) || has_suffix(
        action,
        "declined"@,
    )
}

/// Whether the name of an action says that it came about.
pub open spec fn is_positive_action(action: Seq<char>) -> bool {
    has_suffix(action, "selected"@) || has_suffix(action, "accepted"@) || has_suffix(
        action,
        "completed"@,
    ) || has_suffix(action, "approved"@)
}

/// Whether the outcome agrees with the name of the action.
pub open spec fn outcome_consistent(action: Seq<char>, positive: bool) -> bool {
    &&& is_negative_action(action) ==> !positive
    &&& is_positive_action(action) ==> positive
}

/// Refuses a commitment whose outcome contradicts the name of its action.
pub fn validate_outcome_positive(commitment: &CommitmentPayload) -> (r: Result<(), MacpError>)
    ensures
        r == if outcome_consistent(commitment.action@, commitment.outcome_positive) {
            Ok::<(), MacpError>(())
        } else {
            Err(MacpError::InvalidPayload)
        },
{
    let action: &str = commitment.action.as_str();
    let is_negative: bool = ends_with(action, "rejected") || ends_with(action, "failed")
        || ends_with(action, "declined");
    let is_positive: bool = ends_with(action, "selected") || ends_with(action, "accepted")
        || ends_with(action, "completed") || ends_with(action, "approved");
    if is_negative && commitment.outcome_positive {
        return Err(MacpError::InvalidPayload);
    }
    if is_positive && !commitment.outcome_positive {
        return Err(MacpError::InvalidPayload);
    }
    Ok(())
}

/// Whether the commitment may end the session: it is complete, it names the
/// versions that the session binds (an empty policy version stands for whichever
/// is bound), what it supersedes is named in full, and its outcome agrees with
/// its action.
pub open spec fn commitment_fits(session: Session, c: CommitmentPayloadView) -> bool {
    &&& !is_blank(c.commitment_id)
    &&& !is_blank(c.action)
    &&& !is_blank(c.authority_scope)
    &&& !is_blank(c.reason)
    &&& c.mode_version == session.mode_version@
    &&& c.configuration_version == session.configuration_version@
    &&& c.policy_version.len() == 0 || session.policy_version@.len() == 0 || c.policy_version
        == session.policy_version@
    &&& c.supersedes is Some ==> !is_blank(c.supersedes->0.session_id) && !is_blank(
        c.supersedes->0.commitment_hash,
    )
    &&& outcome_consistent(c.action, c.outcome_positive)
}

/// The commitment in the payload that may end the session, if there is one.
pub open spec fn fitting_commitment(session: Session, payload: Seq<u8>) -> Option<
    CommitmentPayloadView,
> {
    match CommitmentPayload::from_bytes(payload) {
        Some(c) => if commitment_fits(session, c) {
            Some(c)
        } else {
            None
        },
        None => None,
    }
}

/// Reads a commitment and holds it to the terms of the session.
pub fn validate_commitment_payload_for_session(session: &Session, payload: &[u8]) -> (r: Result<
    CommitmentPayload,
    MacpError,
>)
    ensures
        r is Ok <==> fitting_commitment(*session, payload@) is Some,
        r is Ok ==> r->Ok_0.deep_view() == fitting_commitment(*session, payload@)->0,
        r is Err ==> r->Err_0 == MacpError::InvalidPayload,
{
    let commitment: CommitmentPayload = match decode_commitment_payload(payload) {
        Ok(commitment) => commitment,
        Err(e) => return Err(e),
    };
    if blank(commitment.commitment_id.as_str()) || blank(commitment.action.as_str()) || blank(
        commitment.authority_scope.as_str(),
    ) || blank(commitment.reason.as_str()) {
        return Err(MacpError::InvalidPayload);
    }
    if commitment.mode_version != session.mode_version || commitment.configuration_version
        != session.configuration_version {
        return Err(MacpError::InvalidPayload);
    }
    if !commitment.policy_version.as_str().is_empty() && !session.policy_version.as_str().is_empty()
        && commitment.policy_version != session.policy_version {
        return Err(MacpError::InvalidPayload);
    }
    if let Some(supersedes) = &commitment.supersedes {
        if blank(supersedes.session_id.as_str()) || blank(supersedes.commitment_hash.as_str()) {
            return Err(MacpError::InvalidPayload);
        }
    }
    match validate_outcome_positive(&commitment) {
        Ok(()) => {},
        Err(e) => return Err(e),
    }
    Ok(commitment)
}

/// What a decision of a policy makes of a commitment: only `Allow` lets it
/// through.
pub open spec fn decision_verdict(decision: PolicyDecision) -> Result<(), MacpError> {
    match decision {
        PolicyDecision::Allow { .. } => Ok(()),
        PolicyDecision::Deny { reasons } => Err(MacpError::PolicyDenied { reasons }),
    }
}

/// Turns the decision of a policy into a verdict on the commitment.
pub fn gate_commitment(decision: PolicyDecision) -> (r: Result<(), MacpError>)
    ensures
        r == decision_verdict(decision),
{
    match decision {
        PolicyDecision::Allow { .. } => Ok(()),
        PolicyDecision::Deny { reasons } => Err(MacpError::PolicyDenied { reasons }),
    }
}

/// Whether `ctx` is the question that the session puts to the evaluator.
pub open spec fn asks(
    session: Session,
    mode: CommitmentMode<'_>,
    outcome_positive: bool,
    ctx: CommitmentContext<'_>,
) -> bool {
    &&& session.policy_definition == Some(*ctx.policy)
    &&& ctx.participants@ == session.participants@
    &&& ctx.outcome_positive == outcome_positive
    &&& ctx.mode == mode
}

/// Whether `r` is the verdict of the bound policy on a commitment: no policy lets
/// it through, and otherwise the evaluator decides.
pub open spec fn policy_verdict<E: PolicyEvaluator + ?Sized>(
    session: Session,
    mode: CommitmentMode<'_>,
    outcome_positive: bool,
    evaluator: &E,
    r: Result<(), MacpError>,
) -> bool {
    if session.policy_definition is None {
        r is Ok
    } else {
        exists|ctx: CommitmentContext<'_>, decision: PolicyDecision|
            {
                &&& #[trigger] call_ensures(E::evaluate_commitment, (evaluator, &ctx), decision)
                &&& asks(session, mode, outcome_positive, ctx)
                &&& r == decision_verdict(decision)
            }
    }
}

/// Puts a commitment to the policy that the session is bound to.
pub fn enforce_commitment_policy<E: PolicyEvaluator + ?Sized>(
    session: &Session,
    mode: CommitmentMode<'_>,
    outcome_positive: bool,
    evaluator: &E,
) -> (r: Result<(), MacpError>)
    ensures
        policy_verdict(*session, mode, outcome_positive, evaluator, r),
{
    match &session.policy_definition {
        None => Ok(()),
        Some(policy) => {
            let ctx = CommitmentContext {
                policy,
                participants: session.participants.as_slice(),
                outcome_positive,
                mode,
            };
            let decision: PolicyDecision = evaluator.evaluate_commitment(&ctx);
            assert(asks(*session, mode, outcome_positive, ctx));
            gate_commitment(decision)
        },
    }
}

/// Records the state of a mode as a JSON text.
pub fn encode_mode_state<T: Codec>(state: &T) -> (r: Vec<u8>)
    ensures
        r@ == json_text(T::json(state.deep_view())),
        r@.len() > 0,
        recorded_in::<T>(r@) == Some(state.deep_view()),
{
    encode(state)
}

/// Reads the state of a mode.
pub fn decode_mode_state<T: Codec>(bytes: &[u8]) -> (r: Result<T, MacpError>)
    ensures
        r is Ok <==> recorded_in::<T>(bytes@) is Some,
        r is Ok ==> r->Ok_0.deep_view() == recorded_in::<T>(bytes@)->0,
        r is Err ==> r->Err_0 == MacpError::InvalidModeState,
{
    match decode::<T>(bytes) {
        Some(state) => Ok(state),
        None => Err(MacpError::InvalidModeState),
    }
}

/// Whether the sender is one of the participants.
pub fn is_declared_participant(participants: &[String], sender: &str) -> (r: bool)
    ensures
        r == texts(participants@).contains(sender@),
{
    among(participants, sender)
}

/// Whether the commitment rules let the sender end the session: the initiator
/// alone, any participant as well, or those with a designated role.
pub open spec fn rules_admit(
    rules: CommitmentRulesView,
    session: Session,
    sender: Seq<char>,
) -> bool {
    if rules.authority == "any_participant"@ {
        sender == session.initiator_sender@ || texts(session.participants@).contains(sender)
    } else if rules.authority == "designated_role"@ {
        rules.designated_roles.contains(sender)
    } else {
        sender == session.initiator_sender@
    }
}

/// Whether the sender may end the session with a commitment: by the rules of the
/// bound policy, and without a policy the initiator alone.
pub open spec fn may_commit(session: Session, sender: Seq<char>) -> bool {
    match session.policy_definition {
        Some(policy) => rules_admit(commitment_rules_in(json_of(policy.rules)), session, sender),
        None => sender == session.initiator_sender@,
    }
}

/// Refuses a commitment from a sender without the authority for it.
pub fn check_commitment_authority(session: &Session, sender: &str) -> (r: Result<(), MacpError>)
    ensures
        r == if may_commit(*session, sender@) {
            Ok::<(), MacpError>(())
        } else {
            Err(MacpError::Forbidden)
        },
{
    let admitted: bool = match &session.policy_definition {
        Some(policy) => {
            let rules: CommitmentRules = extract_commitment_rules(&policy.rules);
            let authority: &str = rules.authority.as_str();
            if same(authority, "any_participant") {
                same(sender, session.initiator_sender.as_str()) || is_declared_participant(
                    session.participants.as_slice(),
                    sender,
                )
            } else if same(authority, "designated_role") {
                assert(texts(rules.designated_roles@) =~= rules.designated_roles.deep_view());
                among(rules.designated_roles.as_slice(), sender)
            } else {
                same(sender, session.initiator_sender.as_str())
            }
        },
        None => same(sender, session.initiator_sender.as_str()),
    };
    if admitted {
        Ok(())
    } else {
        Err(MacpError::Forbidden)
    }
}

/// Whether there are participants, and all of them have accepted the proposal.
pub fn participants_all_accept(
    participants: &[String],
    accepts: &TextMap<String>,
    proposal_id: &str,
) -> (r: bool)
    ensures
        r == (participants@.len() > 0 && forall|i: int|
            0 <= i < participants@.len() ==> {
                &&& accepts@.dom().contains(#[trigger] participants@[i]@)
                &&& accepts@[participants@[i]@] == proposal_id@
            }),
{
    if participants.len() == 0 {
        return false;
    }
    let mut i: usize = 0;
    while i < participants.len()
        invariant
            i <= participants@.len(),
            forall|j: int|
                0 <= j < i ==> {
                    &&& accepts@.dom().contains(#[trigger] participants@[j]@)
                    &&& accepts@[participants@[j]@] == proposal_id@
                },
        decreases participants@.len() - i,
    {
        let accepted: bool = match accepts.get(participants[i].as_str()) {
            Some(id) => same(id.as_str(), proposal_id),
            None => false,
        };
        if !accepted {
            return false;
        }
        i = i + 1;
    }
    true
}

/// Only an explicit `Allow` lets a commitment through.
pub proof fn only_allow_admits(decision: PolicyDecision)
    ensures
        decision_verdict(decision) is Ok <==> decision is Allow,
{
}

/// Under the authority `designated_role` exactly those on the list of designated
/// roles may commit. Who started the session and who takes part in it make no
/// difference.
pub proof fn designation_alone_counts(
    rules: CommitmentRulesView,
    a: Session,
    b: Session,
    sender: Seq<char>,
)
    requires
        rules.authority == "designated_role"@,
    ensures
        rules_admit(rules, a, sender) == rules_admit(rules, b, sender),
        rules_admit(rules, a, sender) <==> exists|i: int|
            0 <= i < rules.designated_roles.len() && #[trigger] rules.designated_roles[i]
                == sender,
{
    authorities_differ();
    if rules.designated_roles.contains(sender) {
        let i = rules.designated_roles.index_of(sender);
        assert(rules.designated_roles[i] == sender);
    }
}

/// Under the authority `any_participant` the participants may commit and so may
/// the initiator, whoever is designated, and no one else.
pub proof fn participants_and_the_initiator_count(
    rules: CommitmentRulesView,
    session: Session,
    sender: Seq<char>,
)
    requires
        rules.authority == "any_participant"@,
    ensures
        rules_admit(rules, session, session.initiator_sender@),
        forall|i: int|
            0 <= i < session.participants@.len() ==> rules_admit(
                rules,
                session,
                #[trigger] session.participants@[i]@,
            ),
        rules_admit(rules, session, sender) && sender != session.initiator_sender@ ==> exists|
            i: int,
        |
            0 <= i < session.participants@.len() && #[trigger] session.participants@[i]@ == sender,
{
    let names = texts(session.participants@);
    assert forall|i: int| 0 <= i < session.participants@.len() implies rules_admit(
        rules,
        session,
        #[trigger] session.participants@[i]@,
    ) by {
        assert(names[i] == session.participants@[i]@);
    }
    if names.contains(sender) {
        let i = names.index_of(sender);
        assert(session.participants@[i]@ == sender);
    }
}

/// Under every other authority, known or not, the initiator alone may commit,
/// whoever takes part and whoever is designated.
pub proof fn otherwise_the_initiator_alone_counts(
    rules: CommitmentRulesView,
    session: Session,
    sender: Seq<char>,
)
    requires
        rules.authority != "any_participant"@,
        rules.authority != "designated_role"@,
    ensures
        rules_admit(rules, session, sender) <==> sender == session.initiator_sender@,
{
}

/// A session that is bound to no policy, or to one that states no rules for
/// commitments that can be read, is committed by its initiator alone.
pub proof fn initiator_commits_by_default(session: Session, sender: Seq<char>)
    requires
        session.policy_definition matches Some(policy) ==> {
            ||| !(json_of(policy.rules) is Object)
            ||| member(json_of(policy.rules)->Object_0, "commitment"@) is None
            ||| CommitmentRules::from_view(
                member(json_of(policy.rules)->Object_0, "commitment"@)->0,
            ) is None
        },
    ensures
        may_commit(session, sender) <==> sender == session.initiator_sender@,
{
    reveal_strlit("initiator_only");
    authorities_differ();
}

/// Who may commit in a session that is bound to a policy with rules for
/// commitments is up to these rules.
pub proof fn bound_rules_say_who_commits(session: Session, sender: Seq<char>)
    requires
        session.policy_definition is Some,
        json_of(session.policy_definition->0.rules) is Object,
        member(json_of(session.policy_definition->0.rules)->Object_0, "commitment"@) is Some,
        CommitmentRules::from_view(
            member(json_of(session.policy_definition->0.rules)->Object_0, "commitment"@)->0,
        ) is Some,
    ensures
        ({
            let rules = CommitmentRules::from_view(
                member(json_of(session.policy_definition->0.rules)->Object_0, "commitment"@)->0,
            )->0;
            may_commit(session, sender) <==> if rules.authority == "designated_role"@ {
                exists|i: int|
                    0 <= i < rules.designated_roles.len() && #[trigger] rules.designated_roles[i]
                        == sender
            } else {
                sender == session.initiator_sender@ || (rules.authority == "any_participant"@
                    && exists|i: int|
                    0 <= i < session.participants@.len() && #[trigger] session.participants@[i]@
                        == sender)
            }
        }),
{
    let rules = CommitmentRules::from_view(
        member(json_of(session.policy_definition->0.rules)->Object_0, "commitment"@)->0,
    )->0;
    if rules.authority == "designated_role"@ {
        designation_alone_counts(rules, session, session, sender);
    } else if rules.authority == "any_participant"@ {
        participants_and_the_initiator_count(rules, session, sender);
    } else {
        otherwise_the_initiator_alone_counts(rules, session, sender);
    }
}

proof fn authorities_differ()
    ensures
        "any_participant"@ != "designated_role"@,
        "any_participant"@ != "initiator_only"@,
        "designated_role"@ != "initiator_only"@,
{
    reveal_strlit("any_participant");
    reveal_strlit("designated_role");
    reveal_strlit("initiator_only");
    assert("any_participant"@[0] == 'a');
    assert("designated_role"@[0] == 'd');
    assert("initiator_only"@[0] == 'i');
}

/// Whatever an action is called otherwise: where its name ends in `rejected`,
/// `failed` or `declined` its outcome must be negative, and where it ends in
/// `selected`, `accepted`, `completed` or `approved` it must be positive.
pub proof fn endings_fix_the_outcome(name: Seq<char>)
    ensures
        !outcome_consistent(name + "rejected"@, true),
        outcome_consistent(name + "rejected"@, false),
        !outcome_consistent(name + "failed"@, true),
        outcome_consistent(name + "failed"@, false),
        !outcome_consistent(name + "declined"@, true),
        outcome_consistent(name + "declined"@, false),
        !outcome_consistent(name + "selected"@, false),
        outcome_consistent(name + "selected"@, true),
        !outcome_consistent(name + "accepted"@, false),
        outcome_consistent(name + "accepted"@, true),
        !outcome_consistent(name + "completed"@, false),
        outcome_consistent(name + "completed"@, true),
        !outcome_consistent(name + "approved"@, false),
        outcome_consistent(name + "approved"@, true),
{
    reveal_strlit("rejected");
    reveal_strlit("failed");
    reveal_strlit("declined");
    reveal_strlit("selected");
    reveal_strlit("accepted");
    reveal_strlit("completed");
    reveal_strlit("approved");
    ends_as_named(name, "rejected"@);
    ends_as_named(name, "failed"@);
    ends_as_named(name, "declined"@);
    ends_as_named(name, "selected"@);
    ends_as_named(name, "accepted"@);
    ends_as_named(name, "completed"@);
    ends_as_named(name, "approved"@);
}

/// The last letters of a name that ends in the one given, counted from the end.
proof fn ends_as_named(name: Seq<char>, ending: Seq<char>)
    requires
        ending == "rejected"@ || ending == "failed"@ || ending == "declined"@ || ending
            == "selected"@ || ending == "accepted"@ || ending == "completed"@ || ending
            == "approved"@,
    ensures
        has_suffix(name + ending, ending),
        ending == "rejected"@ || ending == "failed"@ || ending == "declined"@
            ==> !is_positive_action(name + ending),
        ending == "selected"@ || ending == "accepted"@ || ending == "completed"@ || ending
            == "approved"@ ==> !is_negative_action(name + ending),
{
    reveal_strlit("rejected");
    reveal_strlit("failed");
    reveal_strlit("declined");
    reveal_strlit("selected");
    reveal_strlit("accepted");
    reveal_strlit("completed");
    reveal_strlit("approved");
    let all = name + ending;
    let n = all.len() as int;
    let m = ending.len() as int;
    assert(all.skip(n - m) =~= ending);
    assert forall|other: Seq<char>| #[trigger] has_suffix(all, other) && other.len() >= 3
        && m >= 3 implies other[other.len() - 3] == ending[m - 3] && (other.len() >= 4 && m >= 4
        ==> other[other.len() - 4] == ending[m - 4]) && (other.len() >= 6 && m >= 6
        ==> other[other.len() - 6] == ending[m - 6]) by {
        let k = other.len() as int;
        assert(all.skip(n - k)[k - 3] == all[n - 3]);
        if k >= 4 && m >= 4 {
            assert(all.skip(n - k)[k - 4] == all[n - 4]);
        }
        if k >= 6 && m >= 6 {
            assert(all.skip(n - k)[k - 6] == all[n - 6]);
        }
    }
}

/// An action whose name ends in none of these may come out either way.
pub proof fn other_actions_come_out_either_way(action: Seq<char>, positive: bool)
    requires
        forall|name: Seq<char>|
            action != #[trigger] (name + "rejected"@) && action != name + "failed"@ && action != name
                + "declined"@ && action != name + "selected"@ && action != name + "accepted"@
                && action != name + "completed"@ && action != name + "approved"@,
    ensures
        outcome_consistent(action, positive),
{
    reveal_strlit("rejected");
    reveal_strlit("failed");
    reveal_strlit("declined");
    reveal_strlit("selected");
    reveal_strlit("accepted");
    reveal_strlit("completed");
    reveal_strlit("approved");
    if has_suffix(action, "rejected"@) {
        assert(action =~= action.take(action.len() - 8) + "rejected"@);
    }
    if has_suffix(action, "failed"@) {
        let name = action.take(action.len() - 6);
        assert(action =~= name + "failed"@);
        assert(action != name + "rejected"@);
    }
    if has_suffix(action, "declined"@) {
        let name = action.take(action.len() - 8);
        assert(action =~= name + "declined"@);
        assert(action != name + "rejected"@);
    }
    if has_suffix(action, "selected"@) {
        let name = action.take(action.len() - 8);
        assert(action =~= name + "selected"@);
        assert(action != name + "rejected"@);
    }
    if has_suffix(action, "accepted"@) {
        let name = action.take(action.len() - 8);
        assert(action =~= name + "accepted"@);
        assert(action != name + "rejected"@);
    }
    if has_suffix(action, "completed"@) {
        let name = action.take(action.len() - 9);
        assert(action =~= name + "completed"@);
        assert(action != name + "rejected"@);
    }
    if has_suffix(action, "approved"@) {
        let name = action.take(action.len() - 8);
        assert(action =~= name + "approved"@);
        assert(action != name + "rejected"@);
    }
}

/// What ends a session is complete and true to its terms: it names the versions
/// that the session binds, and no part of it is left blank.
pub proof fn commitments_name_the_terms(session: Session, payload: Seq<u8>)
    requires
        fitting_commitment(session, payload) is Some,
    ensures
        ({
            let c = fitting_commitment(session, payload)->0;
            &&& CommitmentPayload::from_bytes(payload) == Some(c)
            &&& c.mode_version == session.mode_version@
            &&& c.configuration_version == session.configuration_version@
            &&& c.policy_version.len() > 0 && session.policy_version@.len() > 0
                ==> c.policy_version == session.policy_version@
            &&& trim(c.commitment_id).len() > 0
            &&& trim(c.action).len() > 0
            &&& trim(c.authority_scope).len() > 0
            &&& trim(c.reason).len() > 0
            &&& c.supersedes matches Some(s) ==> trim(s.session_id).len() > 0 && trim(
                s.commitment_hash,
            ).len() > 0
        }),
{
}

/// Nothing else stands in the way of a commitment: what the session holds besides
/// its versions makes no difference, nor does the wording of a part that is not
/// blank, as long as the outcome agrees with the action.
pub proof fn complete_commitments_fit(session: Session, c: CommitmentPayloadView)
    requires
        c.mode_version == session.mode_version@,
        c.configuration_version == session.configuration_version@,
        c.policy_version == session.policy_version@ || c.policy_version.len() == 0
            || session.policy_version@.len() == 0,
        trim(c.commitment_id).len() > 0,
        trim(c.action).len() > 0,
        trim(c.authority_scope).len() > 0,
        trim(c.reason).len() > 0,
        c.supersedes matches Some(s) ==> trim(s.session_id).len() > 0 && trim(
            s.commitment_hash,
        ).len() > 0,
        outcome_consistent(c.action, c.outcome_positive),
    ensures
        commitment_fits(session, c),
{
}

/// Without a policy every commitment is let through; with one the answer of the
/// evaluator decides, and a denial is passed on with its reasons.
pub proof fn the_evaluator_has_the_last_word<E: PolicyEvaluator + ?Sized>(
    session: Session,
    mode: CommitmentMode<'_>,
    outcome_positive: bool,
    evaluator: &E,
    r: Result<(), MacpError>,
)
    requires
        policy_verdict(session, mode, outcome_positive, evaluator, r),
    ensures
        session.policy_definition is None ==> r is Ok,
        session.policy_definition is Some ==> exists|
            ctx: CommitmentContext<'_>,
            decision: PolicyDecision,
        |
            {
                &&& #[trigger] call_ensures(E::evaluate_commitment, (evaluator, &ctx), decision)
                &&& *ctx.policy == session.policy_definition->0
                &&& ctx.participants@ == session.participants@
                &&& ctx.outcome_positive == outcome_positive
                &&& ctx.mode == mode
                &&& r is Ok <==> decision is Allow
                &&& decision matches PolicyDecision::Deny { reasons } ==> r == Err::<(), MacpError>(
                    MacpError::PolicyDenied { reasons },
                )
            },
{
}

} // verus!
