//! What the message that opens a session has to bind.

use crate::error::MacpError;
use crate::mode::descriptors::{extension_names, standard_names};
use crate::pb::session_start::{SessionStartPayload, SessionStartPayloadView};
use crate::session::MAX_TTL_MS;
use crate::text::{blank, is_blank, same, trim, trimmed};
use crate::text_map::TextSet;
use vstd::prelude::*;

verus! {

/// How many participants a session may declare.
pub const MAX_PARTICIPANTS: usize = 1000;

/// Whether the mode holds its sessions to the full contract.
pub open spec fn is_strict(mode: Seq<char>) -> bool {
    ||| mode == "macp.mode.decision.v1"@
    ||| mode == "macp.mode.proposal.v1"@
    ||| mode == "macp.mode.task.v1"@
    ||| mode == "macp.mode.handoff.v1"@
    ||| mode == "macp.mode.quorum.v1"@
    ||| mode == "ext.multi_round.v1"@
}

/// Whether the mode holds its sessions to the full contract: the standard modes
/// and the multi-round extension do.
pub fn requires_strict_session_start(mode: &str) -> (r: bool)
    ensures
        r == is_strict(mode@),
{
    same(mode, "macp.mode.decision.v1") || same(mode, "macp.mode.proposal.v1") || same(
        mode,
        "macp.mode.task.v1",
    ) || same(mode, "macp.mode.handoff.v1") || same(mode, "macp.mode.quorum.v1") || same(
        mode,
        "ext.multi_round.v1",
    )
}

/// Reads the payload that opens a session. It may not be empty.
pub fn parse_session_start_payload(payload: &[u8]) -> (r: Result<SessionStartPayload, MacpError>)
    ensures
        r is Ok <==> payload@.len() > 0 && SessionStartPayload::from_bytes(payload@) is Some,
        r is Ok ==> r->Ok_0.deep_view() == SessionStartPayload::from_bytes(payload@)->0,
        r is Err ==> r->Err_0 == MacpError::InvalidPayload,
{
    if payload.is_empty() {
        return Err(MacpError::InvalidPayload);
    }
    match SessionStartPayload::decode(payload) {
        Some(start) => Ok(start),
        None => Err(MacpError::InvalidPayload),
    }
}

/// The time to live that the payload binds: from a millisecond to a day.
pub fn extract_ttl_ms(payload: &SessionStartPayload) -> (r: Result<i64, MacpError>)
    ensures
        r == if 1 <= payload.ttl_ms <= MAX_TTL_MS {
            Ok::<i64, MacpError>(payload.ttl_ms)
        } else {
            Err(MacpError::InvalidTtl)
        },
{
    if payload.ttl_ms < 1 || payload.ttl_ms > MAX_TTL_MS {
        return Err(MacpError::InvalidTtl);
    }
    Ok(payload.ttl_ms)
}

/// Whether the names, with the white space around them taken off, are neither
/// empty nor the same.
pub open spec fn names_distinct(participants: Seq<Seq<char>>) -> bool {
    &&& forall|i: int| 0 <= i < participants.len() ==> !is_blank(#[trigger] participants[i])
    &&& forall|i: int, j: int|
        0 <= i < j < participants.len() ==> trim(#[trigger] participants[i]) != trim(
            #[trigger] participants[j],
        )
}

/// Whether the payload binds all that the contract asks for, apart from the time
/// to live.
pub open spec fn binds_terms(p: SessionStartPayloadView, allow_empty: bool) -> bool {
    &&& !is_blank(p.mode_version)
    &&& !is_blank(p.configuration_version)
    &&& p.participants.len() > 0 || allow_empty
    &&& p.participants.len() <= MAX_PARTICIPANTS
    &&& names_distinct(p.participants)
    &&& p.max_suspend_ms >= 0
}

/// What the contract says of the payload.
pub open spec fn start_verdict(p: SessionStartPayloadView, allow_empty: bool) -> Result<
    (),
    MacpError,
> {
    if !(1 <= p.ttl_ms <= MAX_TTL_MS) {
        Err(MacpError::InvalidTtl)
    } else if !binds_terms(p, allow_empty) {
        Err(MacpError::InvalidPayload)
    } else {
        Ok(())
    }
}

/// Whether sessions of the mode may declare no participants: in the decision
/// mode alone.
pub open spec fn empty_roster_allowed(mode: Seq<char>) -> bool {
    mode == "macp.mode.decision.v1"@
}

fn allows_empty_participants(mode: &str) -> (r: bool)
    ensures
        r == empty_roster_allowed(mode@),
{
    same(mode, "macp.mode.decision.v1")
}

/// Holds the payload to the full contract. The participants may not be empty.
pub fn validate_canonical_session_start_payload(payload: &SessionStartPayload) -> (r: Result<
    (),
    MacpError,
>)
    ensures
        r == start_verdict(payload.deep_view(), false),
{
    validate_canonical_start(payload, false)
}

/// Holds the payload to the full contract. The participants may be empty in the
/// decision mode.
pub fn validate_canonical_session_start_payload_for_mode(
    mode: &str,
    payload: &SessionStartPayload,
) -> (r: Result<(), MacpError>)
    ensures
        r == start_verdict(payload.deep_view(), empty_roster_allowed(mode@)),
{
    validate_canonical_start(payload, allows_empty_participants(mode))
}

fn validate_canonical_start(payload: &SessionStartPayload, allow_empty_participants: bool) -> (r:
    Result<(), MacpError>)
    ensures
        r == start_verdict(payload.deep_view(), allow_empty_participants),
{
    match extract_ttl_ms(payload) {
        Ok(_) => {},
        Err(e) => return Err(e),
    }
    if blank(payload.mode_version.as_str()) || blank(payload.configuration_version.as_str()) {
        return Err(MacpError::InvalidPayload);
    }
    let ghost names = payload.deep_view().participants;
    assert(names.len() == payload.participants@.len());
    if payload.participants.len() == 0 && !allow_empty_participants {
        return Err(MacpError::InvalidPayload);
    }
    if payload.participants.len() > MAX_PARTICIPANTS {
        return Err(MacpError::InvalidPayload);
    }
    if !distinct_names(&payload.participants) {
        return Err(MacpError::InvalidPayload);
    }
    if payload.max_suspend_ms < 0 {
        return Err(MacpError::InvalidPayload);
    }
    Ok(())
}

fn distinct_names(participants: &Vec<String>) -> (r: bool)
    ensures
        r == names_distinct(participants.deep_view()),
{
    let ghost names = participants.deep_view();
    let mut seen: TextSet = TextSet::new();
    let mut i: usize = 0;
    while i < participants.len()
        invariant
            i <= participants@.len(),
            names == participants.deep_view(),
            forall|j: int| 0 <= j < i ==> seen@.contains(trim(#[trigger] names[j])),
            forall|t: Seq<char>|
                seen@.contains(t) ==> exists|j: int| 0 <= j < i && trim(#[trigger] names[j]) == t,
            forall|j: int| 0 <= j < i ==> !is_blank(#[trigger] names[j]),
            forall|j: int, k: int|
                0 <= j < k < i ==> trim(#[trigger] names[j]) != trim(#[trigger] names[k]),
        decreases participants@.len() - i,
    {
        let name: &str = trimmed(participants[i].as_str());
        assert(name@ == trim(names[i as int]));
        if name.is_empty() {
            assert(is_blank(names[i as int]));
            return false;
        }
        let ghost before = seen@;
        if !seen.insert(name.to_owned()) {
            proof {
                let j = choose|j: int| 0 <= j < i && trim(#[trigger] names[j]) == name@;
                assert(trim(names[j]) == trim(names[i as int]));
            }
            return false;
        }
        proof {
            assert forall|t: Seq<char>| seen@.contains(t) implies exists|j: int|
                0 <= j < i + 1 && trim(#[trigger] names[j]) == t by {
                if t == name@ {
                    assert(trim(names[i as int]) == t);
                } else {
                    assert(before.contains(t));
                    let j = choose|j: int| 0 <= j < i && trim(#[trigger] names[j]) == t;
                    assert(trim(names[j]) == t);
                }
            }
            assert forall|j: int, k: int| 0 <= j < k < i + 1 implies trim(#[trigger] names[j])
                != trim(#[trigger] names[k]) by {
                if k == i {
                    assert(before.contains(trim(names[j])));
                }
            }
        }
        i = i + 1;
    }
    true
}

/// Holds the payload to the full contract in the modes that ask for it.
pub fn validate_strict_session_start_payload(mode: &str, payload: &SessionStartPayload) -> (r:
    Result<(), MacpError>)
    ensures
        r == if is_strict(mode@) {
            start_verdict(payload.deep_view(), empty_roster_allowed(mode@))
        } else {
            Ok(())
        },
{
    if !requires_strict_session_start(mode) {
        return Ok(());
    }
    validate_canonical_session_start_payload_for_mode(mode, payload)
}

/// What the contract accepts without regard to the mode, it accepts in every
/// mode; and what it accepts in a mode other than the decision mode, it accepts
/// without regard to the mode.
pub proof fn empty_roster_is_the_only_exception(p: SessionStartPayloadView, mode: Seq<char>)
    ensures
        start_verdict(p, false) is Ok ==> start_verdict(p, empty_roster_allowed(mode)) is Ok,
        start_verdict(p, empty_roster_allowed(mode)) is Ok && start_verdict(p, false) is Err
            ==> p.participants.len() == 0 && mode == "macp.mode.decision.v1"@,
{
}

/// The time to live must be from a millisecond to a day, and it is looked at before
/// anything else.
pub proof fn time_to_live_goes_first(p: SessionStartPayloadView, allow_empty: bool)
    ensures
        start_verdict(p, allow_empty) == Err::<(), MacpError>(MacpError::InvalidTtl) <==> p.ttl_ms
            < 1 || p.ttl_ms > 24 * 60 * 60 * 1000,
{
}

/// What a session start must bind besides, and all that it must: versions of the
/// mode and of the configuration, a cap on suspension that is not negative, at most
/// a thousand participants, at least one unless none are called for, and each with
/// a name of its own.
pub proof fn what_has_to_be_bound(p: SessionStartPayloadView, allow_empty: bool)
    requires
        1 <= p.ttl_ms <= 24 * 60 * 60 * 1000,
    ensures
        start_verdict(p, allow_empty) is Ok <==> {
            &&& trim(p.mode_version).len() > 0
            &&& trim(p.configuration_version).len() > 0
            &&& p.max_suspend_ms >= 0
            &&& p.participants.len() <= 1000
            &&& p.participants.len() > 0 || allow_empty
            &&& forall|i: int|
                0 <= i < p.participants.len() ==> trim(#[trigger] p.participants[i]).len() > 0
            &&& forall|i: int, j: int|
                0 <= i < p.participants.len() && 0 <= j < p.participants.len() && i != j ==> trim(
                    #[trigger] p.participants[i],
                ) != trim(#[trigger] p.participants[j])
        },
        start_verdict(p, allow_empty) is Err ==> start_verdict(p, allow_empty)->Err_0
            == MacpError::InvalidPayload,
{
    if names_distinct(p.participants) {
        assert forall|i: int, j: int|
            0 <= i < p.participants.len() && 0 <= j < p.participants.len() && i != j implies trim(
            #[trigger] p.participants[i],
        ) != trim(#[trigger] p.participants[j]) by {
            if j < i {
                assert(trim(p.participants[j]) != trim(p.participants[i]));
            }
        }
        assert forall|i: int| 0 <= i < p.participants.len() implies trim(
            #[trigger] p.participants[i],
        ).len() > 0 by {
            assert(!is_blank(p.participants[i]));
        }
    }
    if (forall|i: int|
        0 <= i < p.participants.len() ==> trim(#[trigger] p.participants[i]).len() > 0) && (forall|
        i: int,
        j: int,
    |
        0 <= i < p.participants.len() && 0 <= j < p.participants.len() && i != j ==> trim(
            #[trigger] p.participants[i],
        ) != trim(#[trigger] p.participants[j])) {
        assert(names_distinct(p.participants));
    }
}

/// What is not named here makes no difference to whether a session may start.
pub proof fn nothing_else_has_to_be_bound(
    a: SessionStartPayloadView,
    b: SessionStartPayloadView,
    allow_empty: bool,
)
    requires
        a.ttl_ms == b.ttl_ms,
        a.mode_version == b.mode_version,
        a.configuration_version == b.configuration_version,
        a.max_suspend_ms == b.max_suspend_ms,
        a.participants == b.participants,
    ensures
        start_verdict(a, allow_empty) == start_verdict(b, allow_empty),
{
}

/// The modes that hold their sessions to the full contract are the built-in ones.
pub proof fn built_in_modes_are_strict(mode: Seq<char>)
    ensures
        is_strict(mode) <==> exists|i: int|
            0 <= i < (standard_names() + extension_names()).len() && #[trigger] (standard_names()
                + extension_names())[i] == mode,
        empty_roster_allowed(mode) <==> mode == standard_names()[0],
{
    let names = standard_names() + extension_names();
    assert(names[0] == "macp.mode.decision.v1"@);
    assert(names[1] == "macp.mode.proposal.v1"@);
    assert(names[2] == "macp.mode.task.v1"@);
    assert(names[3] == "macp.mode.handoff.v1"@);
    assert(names[4] == "macp.mode.quorum.v1"@);
    assert(names[5] == "ext.multi_round.v1"@);
}

} // verus!
