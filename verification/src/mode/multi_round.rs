//! The multi-round mode: the participants contribute values, and change them,
//! until all agree.

use crate::codec::{read_required, recorded_in, required, Codec};
use crate::error::MacpError;
use crate::json::{
    distinct_keys, integer_json, is_record, json_text, print, JsonView, Members,
};
use crate::json_text::{given, view_of, Fields};
use crate::mode::multi_round_state::{MultiRoundState, MultiRoundStateView};
use crate::mode::util::{
    decode_mode_state, encode_mode_state, fitting_commitment,
    validate_commitment_payload_for_session,
};
use crate::mode::{authorize_by_roster, on_roster, same_answer, Mode, ModeResponse};
use crate::pb::envelope::Envelope;
use crate::pb::multi_round::{ContributePayload, ContributePayloadView};
use crate::session::{applied, Session};
use crate::step::{
    commits as commits_message, precheck, steps, validates, Precheck, StepOutcome,
};
use crate::text::{copy_texts, same, same_bytes, texts};
use crate::text_map::{in_order, lists, map_of_entry, map_of_key, TextMap};
use crate::wire::{joined, writable};
use vstd::prelude::*;

verus! {

// ---------------------------------------------------------------------------
// Contributions
// ---------------------------------------------------------------------------

/// The value in a contribution written as a JSON object `{"value": "..."}`.
pub open spec fn json_contribution(payload: Seq<u8>) -> Option<Seq<char>> {
    let j = view_of(payload);
    if is_record(j, 1) {
        required::<String>(j, 0, "value"@)
    } else {
        None
    }
}

/// Whether the bytes are the ones that write a contribution as a protobuf
/// message.
pub open spec fn is_canonical(payload: Seq<u8>) -> bool {
    match ContributePayload::from_bytes(payload) {
        Some(p) => ContributePayload::bytes(p) == payload,
        None => false,
    }
}

/// The value that a contribution holds, given the value that its bytes hold when
/// read as JSON. JSON comes first, so that what was accepted before there was a
/// protobuf form is read the same for ever; from revision 3 on, bytes that are a
/// canonical protobuf message are read as one even where they are JSON as well.
pub open spec fn chosen_value(
    payload: Seq<u8>,
    semantics_rev: u32,
    json: Option<Seq<char>>,
) -> Option<Seq<char>> {
    if payload.len() == 0 {
        None
    } else if json is Some && !(semantics_rev >= 3 && is_canonical(payload)) {
        json
    } else {
        match ContributePayload::from_bytes(payload) {
            Some(p) => Some(p.value),
            None => None,
        }
    }
}

/// The value that a contribution holds.
pub open spec fn contributed(payload: Seq<u8>, semantics_rev: u32) -> Option<Seq<char>> {
    chosen_value(payload, semantics_rev, json_contribution(payload))
}

/// Chooses between the two forms of a contribution, given what its bytes hold
/// when read as JSON.
pub fn choose_value(payload: &[u8], semantics_rev: u32, json: Option<String>) -> (r: Result<
    String,
    MacpError,
>)
    ensures
        match chosen_value(payload@, semantics_rev, json.deep_view()) {
            Some(value) => r is Ok && r->Ok_0@ == value,
            None => r == Err::<String, MacpError>(MacpError::InvalidPayload),
        },
{
    if payload.len() == 0 {
        return Err(MacpError::InvalidPayload);
    }
    let proto: Option<ContributePayload> = ContributePayload::decode(payload);
    if let Some(value) = json {
        let trust_proto: bool = semantics_rev >= 3 && match &proto {
            Some(p) => same_bytes(p.encode_to_vec().as_slice(), payload),
            None => false,
        };
        if !trust_proto {
            return Ok(value);
        }
    }
    match proto {
        Some(p) => Ok(p.value),
        None => Err(MacpError::InvalidPayload),
    }
}

fn read_json_contribution(payload: &[u8]) -> (r: Option<String>)
    ensures
        r.deep_view() == json_contribution(payload@),
{
    match Fields::read(payload, 1) {
        Some(record) => read_required::<String>(&record, 0, "value"),
        None => None,
    }
}

/// Reads the value of a contribution, in either of its two forms.
pub fn parse_contribute_value(payload: &[u8], semantics_rev: u32) -> (r: Result<String, MacpError>)
    ensures
        match contributed(payload@, semantics_rev) {
            Some(value) => r is Ok && r->Ok_0@ == value,
            None => r == Err::<String, MacpError>(MacpError::InvalidPayload),
        },
{
    choose_value(payload, semantics_rev, read_json_contribution(payload))
}

/// From revision 3 on, a value that is not empty reads back from the canonical
/// form of its contribution, whatever JSON would make of these bytes.
pub proof fn canonical_form_reads_back(value: Seq<char>, semantics_rev: u32)
    requires
        value.len() > 0,
        semantics_rev >= 3,
        writable(joined(ContributePayload::segments(ContributePayloadView { value }))),
    ensures
        contributed(
            ContributePayload::bytes(ContributePayloadView { value }),
            semantics_rev,
        ) == Some(value),
{
    let p = ContributePayloadView { value };
    let b = ContributePayload::bytes(p);
    ContributePayload::reads_back(p);
    if b.len() == 0 {
        assert(ContributePayload::from_bytes(b)->0.value == vstd::utf8::decode_utf8(
            Seq::<u8>::empty(),
        ));
    }
}

/// Before revision 3, a contribution that reads as JSON is read as JSON.
pub proof fn earlier_revisions_read_json(payload: Seq<u8>, semantics_rev: u32)
    requires
        payload.len() > 0,
        semantics_rev < 3,
        json_contribution(payload) is Some,
    ensures
        contributed(payload, semantics_rev) == json_contribution(payload),
{
}

// ---------------------------------------------------------------------------
// What the messages do to the state
// ---------------------------------------------------------------------------

/// Whether every participant has contributed and all values are the same.
pub open spec fn settled(s: MultiRoundStateView) -> bool {
    &&& forall|i: int|
        0 <= i < s.participants.len() ==> s.contributions.dom().contains(
            #[trigger] s.participants[i],
        )
    &&& forall|a: Seq<char>, b: Seq<char>|
        s.contributions.dom().contains(a) && s.contributions.dom().contains(b)
            ==> #[trigger] s.contributions[a] == #[trigger] s.contributions[b]
}

/// Whether the value differs from what the sender contributes so far.
pub open spec fn is_change(s: MultiRoundStateView, sender: Seq<char>, value: Seq<char>) -> bool {
    !s.contributions.dom().contains(sender) || s.contributions[sender] != value
}

/// The state once the value has been taken over: a change starts the next round.
pub open spec fn taken_over(
    s: MultiRoundStateView,
    sender: Seq<char>,
    value: Seq<char>,
) -> MultiRoundStateView {
    if is_change(s, sender, value) {
        MultiRoundStateView {
            round: if s.round == u64::MAX {
                0
            } else {
                (s.round + 1) as u64
            },
            contributions: s.contributions.insert(sender, value),
            ..s
        }
    } else {
        s
    }
}

/// What a contribution makes of the state.
pub open spec fn after_contribution(
    session: Session,
    env: Envelope,
    s: MultiRoundStateView,
) -> Result<
    MultiRoundStateView,
    MacpError,
> {
    if s.converged {
        Err(MacpError::InvalidPayload)
    } else {
        match contributed(env.payload@, session.semantics_rev) {
            None => Err(MacpError::InvalidPayload),
            Some(value) => {
                let next = taken_over(s, env.sender@, value);
                Ok(MultiRoundStateView { converged: settled(next), ..next })
            },
        }
    }
}

/// The state of a session that has just been opened.
pub open spec fn first_round(session: Session) -> MultiRoundStateView {
    MultiRoundStateView {
        round: 0,
        participants: texts(session.participants@),
        contributions: Map::empty(),
        convergence_type: "all_equal"@,
        converged: false,
    }
}

/// The value that the session has come to: that of the first contributor in the
/// order of names.
pub open spec fn converged_value(s: MultiRoundStateView) -> Seq<char> {
    let entries = in_order(s.contributions);
    if entries.len() > 0 {
        entries[0].1
    } else {
        seq![]
    }
}

/// What resolves the session.
pub open spec fn resolution(s: MultiRoundStateView) -> JsonView {
    JsonView::Object(
        seq![
            ("converged_value"@, JsonView::Text(converged_value(s))),
            ("round"@, integer_json(s.round as int)),
            ("final"@, <TextMap<String> as Codec>::json(s.contributions)),
        ],
    )
}

/// Whether the bytes record the state.
pub open spec fn records(bytes: Seq<u8>, s: MultiRoundStateView) -> bool {
    &&& bytes.len() > 0
    &&& bytes == json_text(<MultiRoundState as Codec>::json(s))
    &&& recorded_in::<MultiRoundState>(bytes) == Some(s)
}

/// Whether the response records the next state, or the message is refused with
/// its error.
pub open spec fn persists(
    next: Result<MultiRoundStateView, MacpError>,
    r: Result<ModeResponse, MacpError>,
) -> bool {
    match next {
        Ok(s) => r is Ok && r->Ok_0 is PersistState && records(r->Ok_0->PersistState_0@, s),
        Err(e) => r == Err::<ModeResponse, MacpError>(e),
    }
}

/// What a commitment makes of the session: once the values have converged, it
/// resolves the session with them.
pub open spec fn commits(
    session: Session,
    env: Envelope,
    s: MultiRoundStateView,
    r: Result<ModeResponse, MacpError>,
) -> bool {
    if !s.converged || fitting_commitment(session, env.payload@) is None {
        r == Err::<ModeResponse, MacpError>(MacpError::InvalidPayload)
    } else {
        &&& r is Ok
        &&& r->Ok_0 is PersistAndResolve
        &&& records(r->Ok_0->state@, s)
        &&& r->Ok_0->resolution@ == json_text(resolution(s))
    }
}

/// What the mode makes of a message.
pub open spec fn handles(
    session: Session,
    env: Envelope,
    r: Result<ModeResponse, MacpError>,
) -> bool {
    if env.message_type@ != "Contribute"@ && env.message_type@ != "Commitment"@ {
        r == Err::<ModeResponse, MacpError>(MacpError::InvalidPayload)
    } else {
        match recorded_in::<MultiRoundState>(session.mode_state@) {
            None => r == Err::<ModeResponse, MacpError>(MacpError::InvalidModeState),
            Some(s) => if env.message_type@ == "Contribute"@ {
                persists(after_contribution(session, env, s), r)
            } else {
                commits(session, env, s, r)
            },
        }
    }
}

/// Who may send which message: commitments come from the initiator, the rest from
/// the roster.
pub open spec fn sender_admitted(session: Session, env: Envelope) -> bool {
    if env.message_type@ == "Commitment"@ {
        env.sender@ == session.initiator_sender@
    } else {
        on_roster(session, env.sender@)
    }
}

// ---------------------------------------------------------------------------
// The mode
// ---------------------------------------------------------------------------

/// The multi-round mode.
pub struct MultiRoundMode;

proof fn resolution_keys_differ()
    ensures
        "converged_value"@ != "round"@,
        "converged_value"@ != "final"@,
        "round"@ != "final"@,
{
    reveal_strlit("converged_value");
    reveal_strlit("round");
    reveal_strlit("final");
    assert("converged_value"@.len() == 15);
    assert("round"@.len() == 5);
    assert("final"@.len() == 5);
    assert("round"@[0] == 'r');
    assert("final"@[0] == 'f');
}

impl MultiRoundMode {
    /// Records a state.
    pub fn encode_state(state: &MultiRoundState) -> (r: Vec<u8>)
        ensures
            records(r@, state.deep_view()),
    {
        encode_mode_state(state)
    }

    /// Reads a recorded state.
    pub fn decode_state(data: &[u8]) -> (r: Result<MultiRoundState, MacpError>)
        ensures
            r is Ok <==> recorded_in::<MultiRoundState>(data@) is Some,
            r is Ok ==> r->Ok_0.deep_view() == recorded_in::<MultiRoundState>(data@)->0,
            r is Err ==> r->Err_0 == MacpError::InvalidModeState,
    {
        decode_mode_state::<MultiRoundState>(data)
    }

    /// Whether every participant has contributed and all values are the same.
    pub fn check_convergence(state: &MultiRoundState) -> (r: bool)
        ensures
            r == settled(state.deep_view()),
    {
        let ghost s = state.deep_view();
        let mut i: usize = 0;
        while i < state.participants.len()
            invariant
                i <= state.participants@.len(),
                s == state.deep_view(),
                forall|j: int|
                    0 <= j < i ==> s.contributions.dom().contains(#[trigger] s.participants[j]),
            decreases state.participants@.len() - i,
        {
            assert(s.participants[i as int] == state.participants@[i as int]@);
            if !state.contributions.contains_key(state.participants[i].as_str()) {
                return false;
            }
            i = i + 1;
        }
        let ghost entries = in_order(state.contributions@);
        let n: usize = state.contributions.len();
        let mut k: usize = 0;
        while k < n
            invariant
                k <= n,
                s == state.deep_view(),
                entries == in_order(state.contributions@),
                n == entries.len(),
                lists(entries, state.contributions@),
                forall|j: int| 0 <= j < k ==> (#[trigger] entries[j]).1 == entries[0].1,
            decreases n - k,
        {
            if k > 0 && !same(
                state.contributions.value_at(0).as_str(),
                state.contributions.value_at(k).as_str(),
            ) {
                proof {
                    map_of_entry(entries, 0);
                    map_of_entry(entries, k as int);
                    assert(s.contributions[entries[0].0] != s.contributions[entries[k as int].0]);
                }
                return false;
            }
            k = k + 1;
        }
        assert forall|a: Seq<char>, b: Seq<char>|
            s.contributions.dom().contains(a) && s.contributions.dom().contains(
                b,
            ) implies #[trigger] s.contributions[a] == #[trigger] s.contributions[b] by {
            let x = map_of_key(entries, a);
            let y = map_of_key(entries, b);
        }
        true
    }

    fn handle_contribute(session: &Session, env: &Envelope) -> (r: Result<ModeResponse, MacpError>)
        ensures
            match recorded_in::<MultiRoundState>(session.mode_state@) {
                None => r == Err::<ModeResponse, MacpError>(MacpError::InvalidModeState),
                Some(s) => persists(after_contribution(*session, *env, s), r),
            },
    {
        let state: MultiRoundState = match Self::decode_state(session.mode_state.as_slice()) {
            Ok(state) => state,
            Err(e) => return Err(e),
        };
        if state.converged {
            return Err(MacpError::InvalidPayload);
        }
        let value: String = match parse_contribute_value(
            env.payload.as_slice(),
            session.semantics_rev,
        ) {
            Ok(value) => value,
            Err(e) => return Err(e),
        };
        let value_changed: bool = match state.contributions.get(env.sender.as_str()) {
            Some(previous) => !same(previous.as_str(), value.as_str()),
            None => true,
        };
        let mut next: MultiRoundState = state;
        if value_changed {
            next.round = if next.round == u64::MAX {
                0
            } else {
                next.round + 1
            };
            let mut contributions: TextMap<String> = TextMap::new();
            std::mem::swap(&mut contributions, &mut next.contributions);
            contributions.insert(env.sender.clone(), value);
            next.contributions = contributions;
        }
        assert(next.deep_view() == taken_over(state.deep_view(), env.sender@, value@));
        if Self::check_convergence(&next) {
            next.converged = true;
        }
        Ok(ModeResponse::PersistState(Self::encode_state(&next)))
    }

    fn resolution_bytes(state: &MultiRoundState) -> (r: Vec<u8>)
        ensures
            r@ == json_text(resolution(state.deep_view())),
    {
        let ghost s = state.deep_view();
        let n: usize = state.contributions.len();
        let converged: String = if n > 0 {
            state.contributions.value_at(0).clone()
        } else {
            String::new()
        };
        let members: Members = Members::new()
            .with("converged_value", converged.to_json())
            .with("round", state.round.to_json())
            .with("final", state.contributions.to_json());
        assert(members@ =~= resolution(s)->Object_0);
        proof {
            resolution_keys_differ();
            assert(distinct_keys(members@));
        }
        print(&members.finish())
    }

    fn handle_commitment(session: &Session, env: &Envelope) -> (r: Result<ModeResponse, MacpError>)
        ensures
            match recorded_in::<MultiRoundState>(session.mode_state@) {
                None => r == Err::<ModeResponse, MacpError>(MacpError::InvalidModeState),
                Some(s) => commits(*session, *env, s, r),
            },
    {
        let state: MultiRoundState = match Self::decode_state(session.mode_state.as_slice()) {
            Ok(state) => state,
            Err(e) => return Err(e),
        };
        if !state.converged {
            return Err(MacpError::InvalidPayload);
        }
        match validate_commitment_payload_for_session(session, env.payload.as_slice()) {
            Ok(_) => {},
            Err(e) => return Err(e),
        }
        Ok(
            ModeResponse::PersistAndResolve {
                state: Self::encode_state(&state),
                resolution: Self::resolution_bytes(&state),
            },
        )
    }
}

impl Mode for MultiRoundMode {
    fn on_session_start(&self, session: &Session, env: &Envelope) -> (r: Result<
        ModeResponse,
        MacpError,
    >)
        ensures
            persists(
                if session.participants@.len() > 0 {
                    Ok(first_round(*session))
                } else {
                    Err(MacpError::InvalidPayload)
                },
                r,
            ),
    {
        let _ = env;
        if session.participants.len() == 0 {
            return Err(MacpError::InvalidPayload);
        }
        let state = MultiRoundState {
            round: 0,
            participants: copy_texts(session.participants.as_slice()),
            contributions: TextMap::new(),
            convergence_type: "all_equal".to_owned(),
            converged: false,
        };
        assert(state.participants.deep_view() =~= texts(state.participants@));
        Ok(ModeResponse::PersistState(Self::encode_state(&state)))
    }

    fn on_message(&self, session: &Session, env: &Envelope) -> (r: Result<ModeResponse, MacpError>)
        ensures
            handles(*session, *env, r),
    {
        proof {
            reveal_strlit("Contribute");
            reveal_strlit("Commitment");
            assert("Contribute"@[3] == 't');
            assert("Commitment"@[3] == 'm');
        }
        let message_type: &str = env.message_type.as_str();
        if same(message_type, "Contribute") {
            Self::handle_contribute(session, env)
        } else if same(message_type, "Commitment") {
            Self::handle_commitment(session, env)
        } else {
            Err(MacpError::InvalidPayload)
        }
    }

    fn authorize_sender(&self, session: &Session, env: &Envelope) -> (r: Result<(), MacpError>)
        ensures
            r == if sender_admitted(*session, *env) {
                Ok::<(), MacpError>(())
            } else {
                Err(MacpError::Forbidden)
            },
    {
        if same(env.message_type.as_str(), "Commitment") {
            if !same(env.sender.as_str(), session.initiator_sender.as_str()) {
                return Err(MacpError::Forbidden);
            }
            return Ok(());
        }
        authorize_by_roster(session, env)
    }
}

// ---------------------------------------------------------------------------
// What always holds
// ---------------------------------------------------------------------------

/// Whether a state is one that messages lead to: it has converged exactly where
/// everyone contributes the same value.
pub open spec fn well_kept(s: MultiRoundStateView) -> bool {
    s.converged == settled(s)
}

/// A session that has just been opened with participants is well kept.
pub proof fn first_round_well_kept(session: Session)
    requires
        session.participants@.len() > 0,
    ensures
        well_kept(first_round(session)),
{
    let s = first_round(session);
    assert(!s.contributions.dom().contains(s.participants[0]));
}

/// Every contribution that is accepted leaves the state well kept.
pub proof fn contributions_keep_state(session: Session, env: Envelope, s: MultiRoundStateView)
    requires
        after_contribution(session, env, s) is Ok,
    ensures
        well_kept(after_contribution(session, env, s)->Ok_0),
{
    let next = taken_over(s, env.sender@, contributed(env.payload@, session.semantics_rev)->0);
    assert(settled(after_contribution(session, env, s)->Ok_0) == settled(next));
}

/// The value that the session has come to is the one that each participant
/// contributes.
pub proof fn converged_value_is_everyones(s: MultiRoundStateView, participant: int)
    requires
        well_kept(s),
        s.converged,
        <TextMap<String> as Codec>::valid(s.contributions),
        0 <= participant < s.participants.len(),
    ensures
        s.contributions.dom().contains(s.participants[participant]),
        s.contributions[s.participants[participant]] == converged_value(s),
{
    let entries = in_order(s.contributions);
    let i = map_of_key(entries, s.participants[participant]);
    map_of_entry(entries, 0);
    assert(s.contributions[s.participants[participant]] == s.contributions[entries[0].0]);
}

/// Saying the same again neither starts a round nor changes a contribution.
pub proof fn repeating_changes_nothing(
    session: Session,
    env: Envelope,
    s: MultiRoundStateView,
)
    requires
        well_kept(s),
        after_contribution(session, env, s) is Ok,
        !is_change(s, env.sender@, contributed(env.payload@, session.semantics_rev)->0),
    ensures
        after_contribution(session, env, s)->Ok_0 == s,
{
}

/// A contribution that differs from the last one of its sender starts the next
/// round, and touches no other contribution.
pub proof fn change_starts_a_round(session: Session, env: Envelope, s: MultiRoundStateView)
    requires
        s.round < u64::MAX,
        after_contribution(session, env, s) is Ok,
        is_change(s, env.sender@, contributed(env.payload@, session.semantics_rev)->0),
    ensures
        after_contribution(session, env, s)->Ok_0.round == s.round + 1,
        after_contribution(session, env, s)->Ok_0.contributions == s.contributions.insert(
            env.sender@,
            contributed(env.payload@, session.semantics_rev)->0,
        ),
{
}

/// Once the values have converged, no contribution is accepted.
pub proof fn convergence_is_final(session: Session, env: Envelope, s: MultiRoundStateView)
    requires
        s.converged,
    ensures
        after_contribution(session, env, s) is Err,
{
}

/// What the mode has recorded is what the next message finds.
pub proof fn next_message_starts_here(
    session: Session,
    response: ModeResponse,
    s: MultiRoundStateView,
)
    requires
        response is PersistState,
        records(response->PersistState_0@, s),
    ensures
        recorded_in::<MultiRoundState>(applied(session, response).mode_state@) == Some(s),
{
}

/// Whether the mode state of the one session becomes that of the other: it stays,
/// or a message is handled and what the mode made of it is taken over. What else
/// there is to a session may have changed meanwhile.
pub open spec fn leads_to(before: Session, after: Session) -> bool {
    ||| after.mode_state@ == before.mode_state@
    ||| exists|env: Envelope, response: ModeResponse|
        #[trigger] handles(before, env, Ok(response)) && after.mode_state@ == applied(
            before,
            response,
        ).mode_state@
}

/// Whether each of the sessions leads to the next.
pub open spec fn is_run(sessions: Seq<Session>) -> bool {
    forall|i: int|
        0 <= i < sessions.len() - 1 ==> leads_to(#[trigger] sessions[i], sessions[i + 1])
}

/// What becomes of a session when a message arrives leads on.
pub proof fn steps_lead_on(
    mode: &MultiRoundMode,
    before: Session,
    env: Envelope,
    now_ms: i64,
    after: Session,
    r: Result<StepOutcome, MacpError>,
)
    requires
        steps(before, env, mode, now_ms, after, r),
    ensures
        leads_to(before, after),
{
    if r matches Ok(StepOutcome::Accepted { state }) {
        let v = choose|v: Result<ModeResponse, MacpError>|
            {
                &&& #[trigger] validates(&before, &env, mode, v)
                &&& v is Ok
                &&& commits_message(before, env, v->Ok_0, now_ms, after)
            };
        assert(handles(before, env, v));
    }
}

/// However many messages follow one another: the session has converged exactly
/// where everyone contributes the same value, and once it has, its state stays.
pub proof fn runs_keep_state(sessions: Seq<Session>, i: int, j: int)
    requires
        is_run(sessions),
        0 <= i <= j < sessions.len(),
        recorded_in::<MultiRoundState>(sessions[i].mode_state@) is Some,
        well_kept(recorded_in::<MultiRoundState>(sessions[i].mode_state@)->0),
    ensures
        recorded_in::<MultiRoundState>(sessions[j].mode_state@) is Some,
        well_kept(recorded_in::<MultiRoundState>(sessions[j].mode_state@)->0),
        recorded_in::<MultiRoundState>(sessions[j].mode_state@)->0.participants == recorded_in::<
            MultiRoundState,
        >(sessions[i].mode_state@)->0.participants,
        recorded_in::<MultiRoundState>(sessions[i].mode_state@)->0.converged ==> recorded_in::<
            MultiRoundState,
        >(sessions[j].mode_state@) == recorded_in::<MultiRoundState>(sessions[i].mode_state@),
    decreases j - i,
{
    if i < j {
        let before = sessions[i];
        let after = sessions[i + 1];
        let s = recorded_in::<MultiRoundState>(before.mode_state@)->0;
        assert(leads_to(before, after));
        if after.mode_state@ != before.mode_state@ {
            let (env, response) = choose|env: Envelope, response: ModeResponse|
                #[trigger] handles(before, env, Ok(response)) && after.mode_state@ == applied(
                    before,
                    response,
                ).mode_state@;
            if env.message_type@ == "Contribute"@ {
                contributions_keep_state(before, env, s);
            }
        }
        runs_keep_state(sessions, i + 1, j);
    }
}

/// A message that is handled again on the same session is answered the same, byte
/// for byte.
pub proof fn replays_identically(
    session: Session,
    env: Envelope,
    a: Result<ModeResponse, MacpError>,
    b: Result<ModeResponse, MacpError>,
)
    requires
        handles(session, env, a),
        handles(session, env, b),
    ensures
        same_answer(a, b),
{
}

// ---------------------------------------------------------------------------
// What each message comes to
// ---------------------------------------------------------------------------

proof fn message_types_differ()
    ensures
        "Contribute"@ != "Commitment"@,
{
    reveal_strlit("Contribute");
    reveal_strlit("Commitment");
    assert("Contribute"@[3] == 't');
    assert("Commitment"@[3] == 'm');
}

/// Whether the name stands on the roster of the session.
pub open spec fn takes_part(session: Session, name: Seq<char>) -> bool {
    exists|i: int|
        0 <= i < session.participants@.len() && #[trigger] session.participants@[i]@ == name
}

/// Commitments may be sent by the initiator, be it a participant or not, and by no
/// one else; everything else by the participants and, where there are some, by no
/// one else.
pub proof fn who_may_send_what(session: Session, env: Envelope)
    ensures
        env.message_type@ == "Commitment"@ ==> (sender_admitted(session, env) <==> env.sender@
            == session.initiator_sender@),
        env.message_type@ != "Commitment"@ ==> (sender_admitted(session, env) <==> takes_part(
            session,
            env.sender@,
        ) || session.participants@.len() == 0),
{
    let names = texts(session.participants@);
    if names.contains(env.sender@) {
        let i = names.index_of(env.sender@);
        assert(session.participants@[i]@ == env.sender@);
    }
    if takes_part(session, env.sender@) {
        let i = choose|i: int|
            0 <= i < session.participants@.len() && #[trigger] session.participants@[i]@
                == env.sender@;
        assert(names[i] == env.sender@);
    }
}

/// In a session with participants, a message that is no commitment is accepted only
/// from one of them, and the session stays as it was where it comes from anyone
/// else.
pub proof fn only_participants_contribute(
    mode: &MultiRoundMode,
    before: Session,
    env: Envelope,
    now_ms: i64,
    after: Session,
    r: Result<StepOutcome, MacpError>,
)
    requires
        steps(before, env, mode, now_ms, after, r),
        before.participants@.len() > 0,
        env.message_type@ != "Commitment"@,
        !takes_part(before, env.sender@),
    ensures
        !(r matches Ok(StepOutcome::Accepted { .. })),
        after.mode_state == before.mode_state,
        precheck(before, env, now_ms) == Ok::<Precheck, MacpError>(Precheck::Proceed) ==> r
            == Err::<StepOutcome, MacpError>(MacpError::Forbidden) && after == before,
{
    who_may_send_what(before, env);
}

/// Whether all contributors on record are participants of the session.
pub open spec fn contributors_take_part(session: Session) -> bool {
    match recorded_in::<MultiRoundState>(session.mode_state@) {
        Some(s) => forall|k: Seq<char>| #[trigger]
            s.contributions.dom().contains(k) ==> takes_part(session, k),
        None => false,
    }
}

/// Every message leaves the participants as they are, and all contributors among
/// them.
pub proof fn steps_keep_contributors(
    mode: &MultiRoundMode,
    before: Session,
    env: Envelope,
    now_ms: i64,
    after: Session,
    r: Result<StepOutcome, MacpError>,
)
    requires
        steps(before, env, mode, now_ms, after, r),
        before.participants@.len() > 0,
        contributors_take_part(before),
    ensures
        after.participants == before.participants,
        contributors_take_part(after),
{
    message_types_differ();
    who_may_send_what(before, env);
    if r matches Ok(StepOutcome::Accepted { state }) {
        let v = choose|v: Result<ModeResponse, MacpError>|
            {
                &&& #[trigger] validates(&before, &env, mode, v)
                &&& v is Ok
                &&& commits_message(before, env, v->Ok_0, now_ms, after)
            };
        assert(handles(before, env, v));
        let s = recorded_in::<MultiRoundState>(before.mode_state@)->0;
        let t = recorded_in::<MultiRoundState>(after.mode_state@)->0;
        assert forall|k: Seq<char>| #[trigger] t.contributions.dom().contains(k) implies takes_part(
            after,
            k,
        ) by {
            if s.contributions.dom().contains(k) {
                assert(takes_part(before, k));
            }
            let i = choose|i: int|
                0 <= i < before.participants@.len() && #[trigger] before.participants@[i]@ == k;
            assert(after.participants@[i]@ == k);
        }
    } else {
        assert(after.mode_state == before.mode_state);
        assert(after.participants == before.participants);
        let s = recorded_in::<MultiRoundState>(before.mode_state@)->0;
        assert forall|k: Seq<char>| #[trigger] s.contributions.dom().contains(k) implies takes_part(
            after,
            k,
        ) by {
            assert(takes_part(before, k));
            let i = choose|i: int|
                0 <= i < before.participants@.len() && #[trigger] before.participants@[i]@ == k;
            assert(after.participants@[i]@ == k);
        }
    }
}

/// Whether each of the sessions becomes the next by a message that arrives.
pub open spec fn is_history(mode: &MultiRoundMode, sessions: Seq<Session>) -> bool {
    forall|i: int|
        0 <= i < sessions.len() - 1 ==> exists|
            env: Envelope,
            now_ms: i64,
            r: Result<StepOutcome, MacpError>,
        |
            #[trigger] steps(#[trigger] sessions[i], env, mode, now_ms, sessions[i + 1], r)
}

/// However many messages arrive from the first round on, whoever sends them: all
/// contributors on record are participants.
pub proof fn contributors_are_participants(
    mode: &MultiRoundMode,
    sessions: Seq<Session>,
    i: int,
)
    requires
        is_history(mode, sessions),
        0 <= i < sessions.len(),
        sessions[0].participants@.len() > 0,
        recorded_in::<MultiRoundState>(sessions[0].mode_state@) == Some(first_round(sessions[0])),
    ensures
        sessions[i].participants == sessions[0].participants,
        contributors_take_part(sessions[i]),
    decreases i,
{
    if i > 0 {
        contributors_are_participants(mode, sessions, i - 1);
        let before = sessions[i - 1];
        let (env, now_ms, r) = choose|
            env: Envelope,
            now_ms: i64,
            r: Result<StepOutcome, MacpError>,
        |
            #[trigger] steps(before, env, mode, now_ms, sessions[i - 1 + 1], r);
        steps_keep_contributors(mode, before, env, now_ms, sessions[i], r);
    }
}

/// An accepted contribution is on record under the name of its sender, and no other
/// contribution changes, nor who takes part. The round goes up by one where the
/// value is new or another one, and stays otherwise. The session has converged
/// exactly where everyone on record as taking part contributes, and all contribute
/// the same.
pub proof fn contributions_are_recorded_as_made(
    session: Session,
    env: Envelope,
    s: MultiRoundStateView,
    response: ModeResponse,
)
    requires
        recorded_in::<MultiRoundState>(session.mode_state@) == Some(s),
        env.message_type@ == "Contribute"@,
        handles(session, env, Ok(response)),
    ensures
        response is PersistState,
        contributed(env.payload@, session.semantics_rev) is Some,
        !s.converged,
        ({
            let value = contributed(env.payload@, session.semantics_rev)->0;
            let t = recorded_in::<MultiRoundState>(applied(session, response).mode_state@)->0;
            let same = s.contributions.dom().contains(env.sender@)
                && s.contributions[env.sender@] == value;
            &&& recorded_in::<MultiRoundState>(applied(session, response).mode_state@) is Some
            &&& t.participants == s.participants
            &&& t.convergence_type == s.convergence_type
            &&& t.contributions.dom() == s.contributions.dom().insert(env.sender@)
            &&& t.contributions[env.sender@] == value
            &&& forall|k: Seq<char>|
                s.contributions.dom().contains(k) && k != env.sender@
                    ==> #[trigger] t.contributions[k] == s.contributions[k]
            &&& same ==> t.round == s.round
            &&& !same && s.round < u64::MAX ==> t.round == s.round + 1
            &&& t.converged <==> {
                &&& forall|i: int|
                    0 <= i < s.participants.len() ==> t.contributions.dom().contains(
                        #[trigger] s.participants[i],
                    )
                &&& forall|k: Seq<char>| #[trigger]
                    t.contributions.dom().contains(k) ==> t.contributions[k] == value
            }
        }),
{
    let value = contributed(env.payload@, session.semantics_rev)->0;
    let t = recorded_in::<MultiRoundState>(applied(session, response).mode_state@)->0;
    assert(t.contributions.dom() =~= s.contributions.dom().insert(env.sender@));
    let next = taken_over(s, env.sender@, value);
    assert(t.contributions == next.contributions);
    if t.converged {
        assert forall|k: Seq<char>| #[trigger] t.contributions.dom().contains(k) implies
            t.contributions[k] == value by {
            assert(next.contributions[k] == next.contributions[env.sender@]);
        }
        assert forall|i: int| 0 <= i < s.participants.len() implies t.contributions.dom().contains(
            #[trigger] s.participants[i],
        ) by {
            assert(next.contributions.dom().contains(next.participants[i]));
        }
    }
    if (forall|i: int|
        0 <= i < s.participants.len() ==> t.contributions.dom().contains(
            #[trigger] s.participants[i],
        )) && (forall|k: Seq<char>| #[trigger]
        t.contributions.dom().contains(k) ==> t.contributions[k] == value) {
        assert(settled(next)) by {
            assert forall|i: int| 0 <= i < next.participants.len() implies
                next.contributions.dom().contains(#[trigger] next.participants[i]) by {
                assert(t.contributions.dom().contains(s.participants[i]));
            }
            assert forall|a: Seq<char>, b: Seq<char>|
                next.contributions.dom().contains(a) && next.contributions.dom().contains(
                    b,
                ) implies #[trigger] next.contributions[a] == #[trigger] next.contributions[b] by {
                assert(t.contributions.dom().contains(a));
                assert(t.contributions.dom().contains(b));
            }
        }
    }
}

/// A contribution with a value is accepted as long as the session has not
/// converged, and a commitment that fits the session as soon as it has. All else is
/// refused, and a record that cannot be read refuses both.
pub proof fn when_messages_are_accepted(
    session: Session,
    env: Envelope,
    r: Result<ModeResponse, MacpError>,
)
    requires
        handles(session, env, r),
    ensures
        r is Ok <==> {
            let s = recorded_in::<MultiRoundState>(session.mode_state@)->0;
            &&& recorded_in::<MultiRoundState>(session.mode_state@) is Some
            &&& {
                ||| env.message_type@ == "Contribute"@ && !s.converged && contributed(
                    env.payload@,
                    session.semantics_rev,
                ) is Some
                ||| env.message_type@ == "Commitment"@ && s.converged && fitting_commitment(
                    session,
                    env.payload@,
                ) is Some
            }
        },
        r is Err ==> r->Err_0 == if (env.message_type@ == "Contribute"@ || env.message_type@
            == "Commitment"@) && recorded_in::<MultiRoundState>(session.mode_state@) is None {
            MacpError::InvalidModeState
        } else {
            MacpError::InvalidPayload
        },
{
    message_types_differ();
}

/// A commitment resolves the session with what it has come to: the value that
/// everyone contributes, the round, and every contribution. The state stays as it
/// was.
pub proof fn commitments_tell_the_outcome(
    session: Session,
    env: Envelope,
    s: MultiRoundStateView,
    response: ModeResponse,
)
    requires
        recorded_in::<MultiRoundState>(session.mode_state@) == Some(s),
        env.message_type@ == "Commitment"@,
        handles(session, env, Ok(response)),
        <TextMap<String> as Codec>::valid(s.contributions),
    ensures
        response is PersistAndResolve,
        recorded_in::<MultiRoundState>(applied(session, response).mode_state@) == Some(s),
        exists|members: Seq<(Seq<char>, JsonView)>|
            {
                &&& response->resolution@ == #[trigger] json_text(JsonView::Object(members))
                &&& members.len() == 3
                &&& members[0].0 == "converged_value"@
                &&& members[0].1 is Text
                &&& well_kept(s) ==> forall|k: Seq<char>| #[trigger]
                    s.contributions.dom().contains(k) ==> members[0].1->Text_0
                        == s.contributions[k]
                &&& members[1].0 == "round"@
                &&& members[1].1 == integer_json(s.round as int)
                &&& members[2].0 == "final"@
                &&& <TextMap<String> as Codec>::from_view(members[2].1) == Some(s.contributions)
            },
{
    message_types_differ();
    <TextMap<String> as Codec>::reads_back(s.contributions);
    let members = resolution(s)->Object_0;
    if well_kept(s) {
        assert forall|k: Seq<char>| #[trigger] s.contributions.dom().contains(k) implies
            members[0].1->Text_0 == s.contributions[k] by {
            let entries = in_order(s.contributions);
            let i = map_of_key(entries, k);
            map_of_entry(entries, 0);
            assert(s.contributions[entries[0].0] == s.contributions[k]);
        }
    }
    assert(response->resolution@ == json_text(JsonView::Object(members)));
}

/// A session may be opened exactly where it has participants. It then is in round
/// zero without contributions, has not converged, and has its participants on
/// record in their order.
pub proof fn sessions_start_in_round_zero(
    mode: &MultiRoundMode,
    session: Session,
    env: Envelope,
    r: Result<ModeResponse, MacpError>,
)
    requires
        call_ensures(MultiRoundMode::on_session_start, (mode, &session, &env), r),
    ensures
        r is Ok <==> session.participants@.len() > 0,
        r is Err ==> r->Err_0 == MacpError::InvalidPayload,
        r is Ok ==> ({
            let s = recorded_in::<MultiRoundState>(applied(session, r->Ok_0).mode_state@)->0;
            &&& recorded_in::<MultiRoundState>(applied(session, r->Ok_0).mode_state@) is Some
            &&& s.round == 0
            &&& !s.converged
            &&& s.contributions == Map::<Seq<char>, Seq<char>>::empty()
            &&& s.convergence_type == "all_equal"@
            &&& s.participants.len() == session.participants@.len()
            &&& forall|i: int|
                0 <= i < session.participants@.len() ==> #[trigger] s.participants[i]
                    == session.participants@[i]@
        }),
{
}

/// What a contribution holds: nothing where it is empty, or is neither of its two
/// forms; what the one form says where it is only that one; and where it is both,
/// what JSON says before revision 3, and from then on what the protobuf message
/// says if its bytes are the ones that write it.
pub proof fn one_form_is_enough(payload: Seq<u8>, semantics_rev: u32)
    requires
        payload.len() > 0,
    ensures
        json_contribution(payload) is None && ContributePayload::from_bytes(payload) is None
            ==> contributed(payload, semantics_rev) is None,
        json_contribution(payload) is None && ContributePayload::from_bytes(payload) is Some
            ==> contributed(payload, semantics_rev) == Some(
            ContributePayload::from_bytes(payload)->0.value,
        ),
        json_contribution(payload) is Some && ContributePayload::from_bytes(payload) is None
            ==> contributed(payload, semantics_rev) == json_contribution(payload),
        json_contribution(payload) is Some && ContributePayload::from_bytes(payload) is Some
            && ContributePayload::bytes(ContributePayload::from_bytes(payload)->0) != payload
            ==> contributed(payload, semantics_rev) == json_contribution(payload),
        json_contribution(payload) is Some && ContributePayload::from_bytes(payload) is Some
            && ContributePayload::bytes(ContributePayload::from_bytes(payload)->0) == payload
            ==> contributed(payload, semantics_rev) == if semantics_rev < 3 {
            json_contribution(payload)
        } else {
            Some(ContributePayload::from_bytes(payload)->0.value)
        },
        contributed(Seq::<u8>::empty(), semantics_rev) is None,
{
}

/// A contribution in JSON is an object that names a value once, which is a string,
/// or a list of just that string; whatever else the object names makes no
/// difference.
pub proof fn contributions_name_one_value(payload: Seq<u8>, value: Seq<char>)
    ensures
        json_contribution(payload) == Some(value) <==> {
            let j = view_of(payload);
            &&& j is Object || (j is Array && j->Array_0.len() <= 1)
            &&& given(j, 0, "value"@) == Some(Some(JsonView::Text(value)))
        },
{
}

} // verus!
