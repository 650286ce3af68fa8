//! What a caller can count on: for the functions that decide something, how what
//! goes in and what comes out are related.

use crate::auth::settings::{
    auth_asked_for, plan_jwt, resolver_order, token_source, JwksSource, JwtPlan, RawJwtEnv,
    ResolverKind, TokenSource,
};
use crate::commitment_hash::{
    canonical_form_is_one_object, canonicalize, commitment_hash, own_members, reference_members,
    sha256, written, written_object,
};
use crate::error::MacpError;
use crate::json::{json_of, json_parse, member};
use crate::mode::handoff::HandoffMode;
use crate::mode::handoff_state::HandoffOfferRecord;
use crate::mode::multi_round::{json_contribution, parse_contribute_value};
use crate::mode::quorum::{recorded_state, ApprovalThreshold, QuorumMode};
use crate::mode::util::{
    bound_rules_say_who_commits, check_commitment_authority, initiator_commits_by_default,
    outcome_consistent, participants_all_accept, validate_commitment_payload_for_session,
    validate_outcome_positive,
};
use crate::pb::commitment::CommitmentPayload;
use crate::pb::envelope::Envelope;
use crate::pb::multi_round::ContributePayload;
use crate::pb::session_start::SessionStartPayload;
use crate::policy::rules::{effective_of, EffectiveThreshold, QuorumPolicyRules};
use crate::policy::{CommitmentRules, PolicyEvaluator};
use crate::security::{
    the_token_follows_its_scheme, tokens_are_worth_what_is_on_record, AuthIdentity, ConfigError,
    Credentials, RawLimits, SecurityLayer,
};
use crate::session::{Session, SessionBuilder, MAX_TTL_MS};
use crate::session_id::{accepted_identifiers_are_safe, validate_session_id_for_acceptance};
use crate::session_start::{
    extract_ttl_ms, parse_session_start_payload, validate_canonical_session_start_payload,
    validate_canonical_session_start_payload_for_mode, validate_strict_session_start_payload,
    what_has_to_be_bound,
};
use crate::step::{check_preconditions, Precheck};
use crate::suspension::deadline_not_before_duration;
use crate::text::{decimal, trim};
use crate::text_map::TextMap;
use vstd::prelude::*;
use vstd::utf8::encode_utf8;

verus! {

/// A list of tokens that is set outright is the one that counts, a file only where
/// there is none, and where there is neither there are no tokens.
pub proof fn the_list_goes_before_the_file(
    json: Option<String>,
    file: Option<String>,
    r: TokenSource,
)
    requires
        call_ensures(token_source, (json, file), r),
    ensures
        json is Some <==> r is Inline,
        json is None && file is Some <==> r is File,
        json is None && file is None <==> r is Nowhere,
        r matches TokenSource::Inline(text) ==> json == Some(text),
        r matches TokenSource::File(path) ==> file == Some(path),
{
}

/// Authentication is asked for as soon as an issuer or any source of tokens is set,
/// whatever else is.
pub proof fn any_setting_asks_for_authentication(raw: &RawJwtEnv, tokens: &TokenSource, r: bool)
    requires
        call_ensures(auth_asked_for, (raw, tokens), r),
    ensures
        raw.issuer is Some ==> r,
        *tokens is Inline || *tokens is File ==> r,
        raw.issuer is None && *tokens is Nowhere ==> !r,
{
}

/// Signed tokens are verified exactly where an issuer is set and keys are to be had:
/// by what is set, with the keys that are set outright before those to be fetched,
/// and for `macp-runtime` where no audience is set.
pub proof fn signed_tokens_are_verified_as_set(raw: RawJwtEnv, r: Option<JwtPlan>)
    requires
        call_ensures(plan_jwt, (raw,), r),
    ensures
        r is Some <==> raw.issuer is Some && (raw.jwks_json is Some || raw.jwks_url is Some),
        r matches Some(plan) ==> {
            &&& plan.issuer@ == raw.issuer->0@
            &&& raw.audience is Some ==> plan.audience@ == raw.audience->0@
            &&& raw.audience is None ==> plan.audience@ == "macp-runtime"@
            &&& raw.jwks_json is Some ==> (plan.source matches JwksSource::Inline(keys) && keys@
                == raw.jwks_json->0@)
            &&& raw.jwks_json is None ==> (plan.source matches JwksSource::Url(url, _) && url@
                == raw.jwks_url->0@)
            &&& raw.jwks_ttl_secs is None ==> (plan.source matches JwksSource::Url(_, ttl) ==> ttl
                == 300)
            &&& raw.jwks_ttl_secs is Some && decimal(raw.jwks_ttl_secs->0@) is Some && decimal(
                raw.jwks_ttl_secs->0@,
            )->0 <= u64::MAX ==> (plan.source matches JwksSource::Url(_, ttl) ==> ttl == decimal(
                raw.jwks_ttl_secs->0@,
            )->0)
        },
{
}

/// The resolvers that are called for are asked, signed tokens first.
pub proof fn resolvers_are_asked_in_order(
    verifies_tokens: bool,
    knows_tokens: bool,
    r: Vec<ResolverKind>,
)
    requires
        call_ensures(resolver_order, (verifies_tokens, knows_tokens), r),
    ensures
        r@.len() == (if verifies_tokens {
            1int
        } else {
            0
        }) + (if knows_tokens {
            1int
        } else {
            0
        }),
        verifies_tokens ==> r@[0] == ResolverKind::Jwt,
        knows_tokens ==> r@.last() == ResolverKind::StaticBearer,
{
}

/// Only a caller on record gets in where there are callers on record.
pub proof fn unknown_tokens_get_no_one_in(
    layer: &SecurityLayer,
    credentials: &Credentials,
    token: Seq<char>,
    r: Result<AuthIdentity, MacpError>,
)
    requires
        call_ensures(SecurityLayer::authenticate_metadata, (layer, credentials), r),
        credentials.authorization is Some,
        credentials.authorization->0@ == "Bearer "@ + token,
    ensures
        layer.identities@.dom().contains(token) ==> r is Ok && r->Ok_0.sender@
            == layer.identities@[token].sender && r->Ok_0.deep_view() == layer.identities@[token],
        !layer.identities@.dom().contains(token) && layer.identities@.dom().len() > 0
            && layer.identities@.dom().finite() ==> r == Err::<AuthIdentity, MacpError>(
            MacpError::Unauthenticated,
        ),
{
    the_token_follows_its_scheme(*credentials, token);
    tokens_are_worth_what_is_on_record(*layer, *credentials, token, r);
    if layer.identities@.dom().len() > 0 && layer.identities@.dom().finite() {
        let other = layer.identities@.dom().choose();
        assert(layer.identities@.dom().contains(other));
    }
}

/// Who may use a mode, and who may manage the registry of modes.
pub proof fn identities_do_what_they_may(
    layer: &SecurityLayer,
    identity: &AuthIdentity,
    mode: &str,
    is_session_start: bool,
    r: Result<(), MacpError>,
    registry: Result<(), MacpError>,
)
    requires
        call_ensures(SecurityLayer::authorize_mode, (layer, identity, mode, is_session_start), r),
        call_ensures(SecurityLayer::authorize_mode_registry, (layer, identity), registry),
    ensures
        r is Ok <==> (identity.allowed_modes is None || identity.allowed_modes->0@.contains(mode@))
            && (is_session_start ==> identity.can_start_sessions),
        r is Err ==> r->Err_0 == MacpError::Forbidden,
        registry is Ok <==> identity.can_manage_mode_registry,
        registry is Err ==> registry->Err_0 == MacpError::Forbidden,
{
}

/// A list of tokens that is no JSON is told from one that is not a list of tokens.
pub proof fn lists_of_tokens_fail_in_two_ways(
    json: &str,
    r: Result<TextMap<AuthIdentity>, ConfigError>,
)
    requires
        call_ensures(SecurityLayer::parse_identities, (json,), r),
    ensures
        json_parse(encode_utf8(json@)) is None <==> (r matches Err(e) && e == ConfigError::Syntax),
{
}

/// The time to live is the one that the payload states where it is from a
/// millisecond to a day, and no other.
pub proof fn the_stated_time_to_live_counts(
    payload: &SessionStartPayload,
    r: Result<i64, MacpError>,
)
    requires
        call_ensures(extract_ttl_ms, (payload,), r),
    ensures
        r matches Ok(ttl) ==> ttl == payload.ttl_ms && 0 < ttl <= 86_400_000,
        r matches Err(e) ==> e == MacpError::InvalidTtl && (payload.ttl_ms <= 0 || payload.ttl_ms
            > 86_400_000),
        MAX_TTL_MS == 86_400_000,
{
}

/// A payload that opens a session is not empty.
pub proof fn empty_payloads_open_nothing(
    payload: &[u8],
    r: Result<SessionStartPayload, MacpError>,
)
    requires
        call_ensures(parse_session_start_payload, (payload,), r),
    ensures
        payload@.len() == 0 ==> (r matches Err(e) && e == MacpError::InvalidPayload),
        payload@.len() > 0 && SessionStartPayload::from_bytes(payload@) is Some ==> r is Ok
            && r->Ok_0.deep_view() == SessionStartPayload::from_bytes(payload@)->0,
        SessionStartPayload::from_bytes(payload@) is None ==> r is Err,
{
}

/// Whether a session may start: the same terms are asked for everywhere, but that the
/// decision mode may go without participants, and that modes which are not built in
/// ask for nothing.
pub proof fn terms_are_asked_for(
    mode: &str,
    payload: &SessionStartPayload,
    canonical: Result<(), MacpError>,
    for_mode: Result<(), MacpError>,
    strict: Result<(), MacpError>,
)
    requires
        call_ensures(validate_canonical_session_start_payload, (payload,), canonical),
        call_ensures(
            validate_canonical_session_start_payload_for_mode,
            (mode, payload),
            for_mode,
        ),
        call_ensures(validate_strict_session_start_payload, (mode, payload), strict),
    ensures
        mode@ != "macp.mode.decision.v1"@ ==> for_mode == canonical,
        payload.participants@.len() > 0 ==> for_mode == canonical,
        strict is Ok || strict == for_mode,
        mode@ == "macp.mode.decision.v1"@ || mode@ == "macp.mode.proposal.v1"@ || mode@
            == "macp.mode.task.v1"@ || mode@ == "macp.mode.handoff.v1"@ || mode@
            == "macp.mode.quorum.v1"@ || mode@ == "ext.multi_round.v1"@ ==> strict == for_mode,
        mode@ != "macp.mode.decision.v1"@ && mode@ != "macp.mode.proposal.v1"@ && mode@
            != "macp.mode.task.v1"@ && mode@ != "macp.mode.handoff.v1"@ && mode@
            != "macp.mode.quorum.v1"@ && mode@ != "ext.multi_round.v1"@ ==> strict is Ok,
        canonical is Ok ==> {
            let p = payload.deep_view();
            &&& 1 <= payload.ttl_ms <= 86_400_000
            &&& 0 < p.participants.len() <= 1000
            &&& trim(payload.mode_version@).len() > 0
            &&& trim(payload.configuration_version@).len() > 0
            &&& payload.max_suspend_ms >= 0
        },
{
    let p = payload.deep_view();
    assert(p.participants.len() == payload.participants@.len());
    if 1 <= p.ttl_ms <= 86_400_000 {
        what_has_to_be_bound(p, false);
    }
}

/// An identifier that is accepted is safe and long enough; a UUID is accepted only in
/// its one canonical form.
pub proof fn identifiers_are_safe(session_id: &str, r: Result<(), MacpError>)
    requires
        call_ensures(validate_session_id_for_acceptance, (session_id,), r),
    ensures
        r is Ok ==> session_id@.len() >= 22,
        r is Ok ==> forall|i: int|
            0 <= i < session_id@.len() ==> 'a' <= #[trigger] session_id@[i] <= 'z' || 'A'
                <= session_id@[i] <= 'Z' || '0' <= session_id@[i] <= '9' || session_id@[i] == '_'
                || session_id@[i] == '-',
        r is Err ==> r->Err_0 == MacpError::InvalidSessionId,
{
    if r is Ok {
        assert forall|i: int| 0 <= i < session_id@.len() implies 'a' <= #[trigger] session_id@[i]
            <= 'z' || 'A' <= session_id@[i] <= 'Z' || '0' <= session_id@[i] <= '9'
            || session_id@[i] == '_' || session_id@[i] == '-' by {
            accepted_identifiers_are_safe(session_id@, i);
        }
        if session_id@.len() > 0 {
            accepted_identifiers_are_safe(session_id@, 0);
        }
    }
}

/// What the checks on a message come to, given what the session has seen, its mode,
/// its state and its deadline.
pub proof fn messages_are_checked(
    session: &Session,
    env: &Envelope,
    now_ms: i64,
    r: Result<Precheck, MacpError>,
)
    requires
        call_ensures(check_preconditions, (session, env, now_ms), r),
    ensures
        session.seen_message_ids@.contains(env.message_id@) ==> r == Ok::<Precheck, MacpError>(
            Precheck::Duplicate,
        ),
        r == Ok::<Precheck, MacpError>(Precheck::Proceed) ==> session.state is Open && now_ms
            <= session.ttl_expiry && env.mode@ == session.mode@
            && !session.seen_message_ids@.contains(env.message_id@),
        r == Ok::<Precheck, MacpError>(Precheck::Expired) ==> session.state is Open && now_ms
            > session.ttl_expiry,
        r matches Err(e) ==> (e == MacpError::InvalidEnvelope && env.mode@ != session.mode@) || (e
            == MacpError::SessionNotOpen && !(session.state is Open)),
{
}

/// Who may commit, by the rules that the bound policy states.
pub proof fn commitments_are_for_those_with_authority(
    session: &Session,
    sender: &str,
    r: Result<(), MacpError>,
)
    requires
        call_ensures(check_commitment_authority, (session, sender), r),
    ensures
        r is Err ==> r->Err_0 == MacpError::Forbidden,
        session.policy_definition is None ==> (r is Ok <==> sender@ == session.initiator_sender@),
        session.policy_definition matches Some(policy) ==> (json_of(policy.rules) is Object
            && member(json_of(policy.rules)->Object_0, "commitment"@) is Some
            && CommitmentRules::from_view(
            member(json_of(policy.rules)->Object_0, "commitment"@)->0,
        ) is Some) ==> ({
            let rules = CommitmentRules::from_view(
                member(json_of(policy.rules)->Object_0, "commitment"@)->0,
            )->0;
            &&& rules.authority == "designated_role"@ ==> (r is Ok <==> exists|i: int|
                0 <= i < rules.designated_roles.len() && #[trigger] rules.designated_roles[i]
                    == sender@)
            &&& rules.authority == "any_participant"@ ==> (r is Ok <==> sender@
                == session.initiator_sender@ || exists|i: int|
                0 <= i < session.participants@.len() && #[trigger] session.participants@[i]@
                    == sender@)
            &&& rules.authority != "designated_role"@ && rules.authority != "any_participant"@ ==> (
            r is Ok <==> sender@ == session.initiator_sender@)
        }),
{
    reveal_strlit("designated_role");
    reveal_strlit("any_participant");
    assert("designated_role"@[0] == 'd');
    assert("any_participant"@[0] == 'a');
    if session.policy_definition is None {
        initiator_commits_by_default(*session, sender@);
    } else {
        let policy = session.policy_definition->0;
        if json_of(policy.rules) is Object && member(
            json_of(policy.rules)->Object_0,
            "commitment"@,
        ) is Some && CommitmentRules::from_view(
            member(json_of(policy.rules)->Object_0, "commitment"@)->0,
        ) is Some {
            bound_rules_say_who_commits(*session, sender@);
        }
    }
}

/// A commitment that is taken is the one in the payload, and true to the session.
pub proof fn commitments_are_held_to_the_session(
    session: &Session,
    payload: &[u8],
    r: Result<CommitmentPayload, MacpError>,
)
    requires
        call_ensures(validate_commitment_payload_for_session, (session, payload), r),
    ensures
        r is Err ==> r->Err_0 == MacpError::InvalidPayload,
        r matches Ok(c) ==> {
            &&& CommitmentPayload::from_bytes(payload@) == Some(c.deep_view())
            &&& c.mode_version@ == session.mode_version@
            &&& c.configuration_version@ == session.configuration_version@
            &&& c.policy_version@.len() > 0 && session.policy_version@.len() > 0
                ==> c.policy_version@ == session.policy_version@
            &&& trim(c.commitment_id@).len() > 0
            &&& trim(c.action@).len() > 0
            &&& trim(c.authority_scope@).len() > 0
            &&& trim(c.reason@).len() > 0
            &&& outcome_consistent(c.action@, c.outcome_positive)
        },
        CommitmentPayload::from_bytes(payload@) is None ==> r is Err,
        CommitmentPayload::from_bytes(payload@) matches Some(c) ==> (c.mode_version
            == session.mode_version@ && c.configuration_version == session.configuration_version@
            && (c.policy_version.len() == 0 || c.policy_version == session.policy_version@
            || session.policy_version@.len() == 0) && trim(c.commitment_id).len() > 0 && trim(
            c.action,
        ).len() > 0 && trim(c.authority_scope).len() > 0 && trim(c.reason).len() > 0
            && c.supersedes is None && outcome_consistent(c.action, c.outcome_positive))
            ==> r is Ok,
{
}

/// The outcome of a commitment agrees with the name of its action or is refused.
pub proof fn outcomes_agree_with_actions(c: &CommitmentPayload, r: Result<(), MacpError>)
    requires
        call_ensures(validate_outcome_positive, (c,), r),
    ensures
        r is Ok <==> outcome_consistent(c.action@, c.outcome_positive),
        r is Err ==> r->Err_0 == MacpError::InvalidPayload,
{
}

/// The canonical form is the UTF-8 of one JSON object, and the hash that of the label,
/// a colon and this form.
pub proof fn hashes_are_of_the_canonical_form(
    payload: &CommitmentPayload,
    form: Vec<u8>,
    hash: String,
)
    requires
        call_ensures(canonicalize, (payload,), form),
        call_ensures(commitment_hash, (payload,), hash),
    ensures
        payload.supersedes is None ==> form@ == encode_utf8(
            written_object(own_members(payload.deep_view())),
        ),
        payload.supersedes matches Some(reference) ==> form@ == encode_utf8(
            written_object(
                own_members(payload.deep_view()).push(
                    ("supersedes"@, written_object(reference_members(reference.deep_view()))),
                ),
            ),
        ),
        ({
            let digest = sha256(encode_utf8("macp-commitment-hash/1"@) + seq![0x3au8] + form@);
            hash@ == written(digest)
        }),
{
    canonical_form_is_one_object(payload.deep_view());
}

/// The bar of a session is what its rule says, for the number of its participants, or
/// what its request asks for where the rule says nothing.
pub proof fn the_bar_is_told<E: PolicyEvaluator + ?Sized>(
    session: &Session,
    r: Result<Option<ApprovalThreshold>, MacpError>,
)
    requires
        call_ensures(QuorumMode::<E>::effective_threshold_for_session, (session,), r),
    ensures
        recorded_state(*session) is None ==> r == Err::<Option<ApprovalThreshold>, MacpError>(
            MacpError::InvalidModeState,
        ),
        recorded_state(*session) matches Some(s) ==> {
            &&& s.request is None ==> r == Ok::<Option<ApprovalThreshold>, MacpError>(None)
            &&& s.request matches Some(request) ==> ({
                let rule = match session.policy_definition {
                    None => EffectiveThreshold::Inert,
                    Some(policy) => effective_of(
                        match QuorumPolicyRules::from_view(json_of(policy.rules)) {
                            Some(rules) => rules.threshold,
                            None => QuorumPolicyRules::default_view().threshold,
                        },
                        session.participants@.len(),
                    ),
                };
                &&& rule is Inert ==> r == Ok::<Option<ApprovalThreshold>, MacpError>(
                    Some(ApprovalThreshold::Approvals(request.required_approvals)),
                )
                &&& rule matches EffectiveThreshold::Approvals(n) ==> r == Ok::<
                    Option<ApprovalThreshold>,
                    MacpError,
                >(Some(ApprovalThreshold::Approvals(n)))
                &&& rule is Unsatisfiable ==> r == Ok::<Option<ApprovalThreshold>, MacpError>(
                    Some(ApprovalThreshold::Unsatisfiable),
                )
            })
        },
{
}

/// How long an offer has waited from revision 2 on: the time since it was made without
/// that of the pauses since.
pub proof fn pauses_do_not_count_as_waiting<E: PolicyEvaluator + ?Sized>(
    session: &Session,
    offer: &HandoffOfferRecord,
    now_ms: i64,
    r: i64,
)
    requires
        call_ensures(HandoffMode::<E>::rev2_elapsed_ms, (session, offer, now_ms), r),
        0 <= offer.offered_at_ms <= now_ms,
        0 <= offer.suspended_ms_at_offer,
    ensures
        session.accumulated_suspended_ms <= offer.suspended_ms_at_offer ==> r == now_ms
            - offer.offered_at_ms,
        session.accumulated_suspended_ms > offer.suspended_ms_at_offer ==> r == (now_ms
            - offer.offered_at_ms) - (session.accumulated_suspended_ms
            - offer.suspended_ms_at_offer),
{
}

/// The value of a contribution, in either of its forms.
pub proof fn contributions_hold_a_value(
    payload: &[u8],
    semantics_rev: u32,
    r: Result<String, MacpError>,
)
    requires
        call_ensures(parse_contribute_value, (payload, semantics_rev), r),
    ensures
        r is Err ==> r->Err_0 == MacpError::InvalidPayload,
        payload@.len() == 0 ==> r is Err,
        payload@.len() > 0 ==> (r is Ok <==> json_contribution(payload@) is Some
            || ContributePayload::from_bytes(payload@) is Some),
        r matches Ok(value) ==> json_contribution(payload@) == Some(value@) || (
        ContributePayload::from_bytes(payload@) matches Some(p) && p.value == value@),
        payload@.len() > 0 && semantics_rev < 3 && json_contribution(payload@) is Some ==> r is Ok
            && Some(r->Ok_0@) == json_contribution(payload@),
        semantics_rev >= 3 && payload@.len() > 0 && (ContributePayload::from_bytes(
            payload@,
        ) matches Some(p) && ContributePayload::bytes(p) == payload@) ==> r is Ok && r->Ok_0@
            == ContributePayload::from_bytes(payload@)->0.value,
{
}

/// A session that is built from nothing but its identifier, its mode and its
/// initiator is open, never expires, and has nothing else to it.
pub proof fn new_sessions_have_nothing_to_them(
    session_id: &str,
    mode: &str,
    initiator_sender: &str,
    r: SessionBuilder,
)
    requires
        call_ensures(Session::builder, (session_id, mode, initiator_sender), r),
    ensures
        r.session().session_id@ == session_id@,
        r.session().mode@ == mode@,
        r.session().initiator_sender@ == initiator_sender@,
        r.session().state is Open,
        r.session().ttl_expiry == i64::MAX,
        r.session().semantics_rev == 3,
        r.session().participants@.len() == 0,
        r.session().mode_state@.len() == 0,
        r.session().policy_definition is None,
        r.session().suspended_at_ms is None,
        r.session().accumulated_suspended_ms == 0,
        r.session().suspension_intervals@.len() == 0,
        r.session().resolution is None,
        r.session().seen_message_ids@.len() == 0,
{
}

/// Whether a session has been suspended for too long: by the pauses so far and the
/// one that goes on.
pub proof fn the_pause_that_goes_on_counts(session: &Session, now_ms: i64, r: bool)
    requires
        call_ensures(Session::suspend_cap_exceeded, (session, now_ms), r),
        0 <= session.accumulated_suspended_ms <= 0x3fff_ffff_ffff_ffff,
        session.suspended_at_ms matches Some(at) ==> 0 <= at <= now_ms <= 0x3fff_ffff_ffff_ffff,
    ensures
        ({
            let so_far = session.accumulated_suspended_ms + match session.suspended_at_ms {
                Some(at) => now_ms - at,
                None => 0,
            };
            let cap = if session.max_suspend_ms > 0 {
                session.max_suspend_ms as int
            } else {
                604_800_000
            };
            r <==> so_far > cap
        }),
{
}

/// A wait of a session that was never suspended is over when its duration has passed,
/// and no wait is over earlier.
pub proof fn waits_are_over_in_time(session: &Session, from_ms: i64, duration_ms: i64, r: i64)
    requires
        call_ensures(Session::unsuspended_deadline, (session, from_ms, duration_ms), r),
        i64::MIN <= from_ms + duration_ms <= i64::MAX,
    ensures
        session.suspension_intervals@.len() == 0 ==> r == from_ms + duration_ms,
        r >= from_ms + duration_ms,
{
    deadline_not_before_duration(session.suspension_intervals@, from_ms, duration_ms);
}

/// What a layer limits is what the environment sets: a megabyte, sixty session starts
/// and six hundred messages a minute where it sets nothing.
pub proof fn layers_limit_what_is_set(
    limits: RawLimits,
    identities: TextMap<AuthIdentity>,
    asked: bool,
    r: SecurityLayer,
)
    requires
        call_ensures(SecurityLayer::from_settings, (limits, identities, asked), r),
    ensures
        r.identities@ == identities@,
        r.has_resolvers == asked,
        limits.max_payload_bytes is None ==> r.max_payload_bytes == 1024 * 1024,
        limits.session_starts_per_minute is None ==> r.session_start_rate.limit == 60,
        limits.messages_per_minute is None ==> r.message_rate.limit == 600,
        limits.max_payload_bytes is Some && decimal(limits.max_payload_bytes->0@) is Some
            && decimal(limits.max_payload_bytes->0@)->0 <= usize::MAX ==> r.max_payload_bytes
            == decimal(limits.max_payload_bytes->0@)->0,
        limits.session_starts_per_minute is Some && decimal(
            limits.session_starts_per_minute->0@,
        ) is Some && decimal(limits.session_starts_per_minute->0@)->0 <= usize::MAX
            ==> r.session_start_rate.limit == decimal(limits.session_starts_per_minute->0@)->0,
        limits.messages_per_minute is Some && decimal(limits.messages_per_minute->0@) is Some
            && decimal(limits.messages_per_minute->0@)->0 <= usize::MAX ==> r.message_rate.limit
            == decimal(limits.messages_per_minute->0@)->0,
        r.session_start_rate.window_ns == 60 * 1_000_000_000,
        r.message_rate.window_ns == 60 * 1_000_000_000,
        0 < r.list_sessions_default_page_size <= r.list_sessions_max_page_size,
{
}

/// All have accepted exactly where there is someone to accept and no one is left who
/// has accepted nothing or something else.
pub proof fn no_one_is_left_to_accept(
    participants: &[String],
    accepts: &TextMap<String>,
    proposal_id: &str,
    r: bool,
)
    requires
        call_ensures(participants_all_accept, (participants, accepts, proposal_id), r),
    ensures
        participants@.len() == 0 ==> !r,
        participants@.len() > 0 && !r ==> exists|i: int|
            0 <= i < participants@.len() && (!accepts@.dom().contains(
                #[trigger] participants@[i]@,
            ) || accepts@[participants@[i]@] != proposal_id@),
        r ==> forall|i: int|
            0 <= i < participants@.len() ==> accepts@.dom().contains(#[trigger] participants@[i]@)
                && accepts@[participants@[i]@] == proposal_id@,
{
    if participants@.len() > 0 && !r {
        let i = choose|i: int|
            0 <= i < participants@.len() && !(accepts@.dom().contains(
                #[trigger] participants@[i]@,
            ) && accepts@[participants@[i]@] == proposal_id@);
        assert(!accepts@.dom().contains(participants@[i]@) || accepts@[participants@[i]@]
            != proposal_id@);
    }
}

} // verus!
