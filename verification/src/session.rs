//! The session: its terms, its life cycle, and what it has accepted.

pub use crate::session_id::validate_session_id_for_acceptance;
pub use crate::session_start::{
    extract_ttl_ms, parse_session_start_payload, requires_strict_session_start,
    validate_canonical_session_start_payload, validate_canonical_session_start_payload_for_mode,
    validate_strict_session_start_payload,
};

use crate::arithmetic::{clamp, larger, max, saturating_difference, saturating_sum};
use crate::codec::Codec;
use crate::error::MacpError;
use crate::json::{variant_of, write_text, JsonView};
use crate::json_text::read_variant_text;
use crate::mode::ModeResponse;
use crate::pb::session_start::Root;
use crate::policy::PolicyDefinition;
use crate::suspension::{deadline, walk};
use crate::text::same;
use crate::text_map::{TextMap, TextSet};
use vstd::prelude::*;

verus! {

/// The longest time to live of a session: a day.
pub const MAX_TTL_MS: i64 = 86_400_000;

/// How long a session may be suspended altogether, where it binds no cap of its
/// own: a week.
pub const MAX_SUSPEND_MS: i64 = 604_800_000;

/// How many completed pauses a session records. A session of semantics revision
/// 2 or later that goes beyond expires; an earlier one goes on and records no
/// more.
pub const MAX_SUSPENSION_CYCLES: usize = 1024;

/// The semantics revision that new sessions are accepted under.
///
/// - 0: the handoff mode times implicit acceptance by the clock of the sender.
/// - 1: it times it by the clock of the runtime.
/// - 2: time that the session spends suspended no longer counts towards it.
/// - 3: a contribution in the multi-round mode that is a canonical binary
///   message is read as one, even where its bytes also happen to be JSON.
pub const CURRENT_SEMANTICS_REV: u32 = 3;

/// Where a session stands in its life.
#[derive(Clone, Debug, PartialEq, Eq, Structural)]
pub enum SessionState {
    Open,
    /// A pause of an open session, during which its time to live stands still.
    Suspended,
    Resolved,
    Expired,
    /// Ended by a cancellation.
    Cancelled,
}

impl SessionState {
    /// Whether the session is over.
    pub open spec fn terminal(self) -> bool {
        self is Resolved || self is Expired || self is Cancelled
    }

    /// Whether the session is over. No transition leads out of such a state.
    pub fn is_terminal(&self) -> (r: bool)
        ensures
            r == self.terminal(),
    {
        match self {
            SessionState::Resolved | SessionState::Expired | SessionState::Cancelled => true,
            _ => false,
        }
    }

    /// The same state.
    pub fn copied(&self) -> (r: SessionState)
        ensures
            r == *self,
    {
        match self {
            SessionState::Open => SessionState::Open,
            SessionState::Suspended => SessionState::Suspended,
            SessionState::Resolved => SessionState::Resolved,
            SessionState::Expired => SessionState::Expired,
            SessionState::Cancelled => SessionState::Cancelled,
        }
    }
}

impl DeepView for SessionState {
    type V = SessionState;

    open spec fn deep_view(&self) -> SessionState {
        *self
    }
}

impl SessionState {
    /// The name that records the state.
    pub open spec fn name(self) -> Seq<char> {
        match self {
            SessionState::Open => "Open"@,
            SessionState::Suspended => "Suspended"@,
            SessionState::Resolved => "Resolved"@,
            SessionState::Expired => "Expired"@,
            SessionState::Cancelled => "Cancelled"@,
        }
    }
}

proof fn state_names_differ()
    ensures
        forall|a: SessionState, b: SessionState| #[trigger]
            a.name() == #[trigger] b.name() ==> a == b,
{
    reveal_strlit("Open");
    reveal_strlit("Suspended");
    reveal_strlit("Resolved");
    reveal_strlit("Expired");
    reveal_strlit("Cancelled");
    assert forall|a: SessionState, b: SessionState| #[trigger]
        a.name() == #[trigger] b.name() implies a == b by {
        assert(a.name().len() == b.name().len());
        assert(a.name()[0] == b.name()[0]);
    }
}

impl Codec for SessionState {
    open spec fn json(v: SessionState) -> JsonView {
        JsonView::Text(v.name())
    }

    open spec fn from_view(j: JsonView) -> Option<SessionState> {
        match variant_of(j) {
            Some(name) => if name == "Open"@ {
                Some(SessionState::Open)
            } else if name == "Suspended"@ {
                Some(SessionState::Suspended)
            } else if name == "Resolved"@ {
                Some(SessionState::Resolved)
            } else if name == "Expired"@ {
                Some(SessionState::Expired)
            } else if name == "Cancelled"@ {
                Some(SessionState::Cancelled)
            } else {
                None
            },
            None => None,
        }
    }

    open spec fn depth() -> nat {
        0
    }

    open spec fn valid(v: SessionState) -> bool {
        true
    }

    proof fn reads_back(v: SessionState) {
        state_names_differ();
        assert(SessionState::Open.name() == "Open"@);
        assert(SessionState::Suspended.name() == "Suspended"@);
        assert(SessionState::Resolved.name() == "Resolved"@);
        assert(SessionState::Expired.name() == "Expired"@);
        assert(SessionState::Cancelled.name() == "Cancelled"@);
    }

    fn to_json(&self) -> (r: serde_json::Value) {
        match self {
            SessionState::Open => write_text("Open"),
            SessionState::Suspended => write_text("Suspended"),
            SessionState::Resolved => write_text("Resolved"),
            SessionState::Expired => write_text("Expired"),
            SessionState::Cancelled => write_text("Cancelled"),
        }
    }

    fn from_text(bytes: &[u8]) -> (r: Option<Self>) {
        match read_variant_text(bytes) {
            Some(name) => {
                if same(name.as_str(), "Open") {
                    Some(SessionState::Open)
                } else if same(name.as_str(), "Suspended") {
                    Some(SessionState::Suspended)
                } else if same(name.as_str(), "Resolved") {
                    Some(SessionState::Resolved)
                } else if same(name.as_str(), "Expired") {
                    Some(SessionState::Expired)
                } else if same(name.as_str(), "Cancelled") {
                    Some(SessionState::Cancelled)
                } else {
                    None
                }
            },
            None => None,
        }
    }
}

/// A session. [`Session::builder`] makes one.
#[non_exhaustive]
#[derive(Clone, Debug)]
pub struct Session {
    pub session_id: String,
    pub state: SessionState,
    pub ttl_expiry: i64,
    pub ttl_ms: i64,
    pub started_at_unix_ms: i64,
    pub resolution: Option<Vec<u8>>,
    pub mode: String,
    pub mode_state: Vec<u8>,
    pub participants: Vec<String>,
    pub seen_message_ids: TextSet,
    pub intent: String,
    pub mode_version: String,
    pub configuration_version: String,
    pub policy_version: String,
    pub context_id: String,
    pub extensions: TextMap<Vec<u8>>,
    pub roots: Vec<Root>,
    pub initiator_sender: String,
    pub participant_message_counts: TextMap<u32>,
    pub participant_last_seen: TextMap<i64>,
    pub policy_definition: Option<PolicyDefinition>,
    /// When the session was suspended, while it is.
    pub suspended_at_ms: Option<i64>,
    /// How long the session has been suspended, over all completed pauses.
    pub accumulated_suspended_ms: i64,
    /// The completed pauses, from when to when, in the order in which they
    /// ended.
    pub suspension_intervals: Vec<(i64, i64)>,
    /// The semantics revision that the session was accepted under.
    pub semantics_rev: u32,
    /// The cap on suspension that the session binds; zero for the default.
    pub max_suspend_ms: i64,
}

/// What a pause adds to the time suspended.
pub open spec fn pause(suspended_at: Option<i64>, now_ms: i64) -> int {
    match suspended_at {
        Some(at) => larger(now_ms - at, 0),
        None => 0,
    }
}

/// The completed pauses once another has ended.
pub open spec fn recorded(intervals: Seq<(i64, i64)>, rev: u32, from: i64, to: i64) -> Seq<
    (i64, i64),
> {
    if rev >= 2 || intervals.len() < MAX_SUSPENSION_CYCLES {
        intervals.push((from, to))
    } else {
        intervals
    }
}

/// What suspending a session does: an open one is suspended from `now_ms` on,
/// and any other is left as it is.
pub open spec fn suspends(
    before: Session,
    now_ms: i64,
    after: Session,
    r: Result<(), MacpError>,
) -> bool {
    if before.state is Open {
        &&& r is Ok
        &&& after == (Session {
            state: SessionState::Suspended,
            suspended_at_ms: Some(now_ms),
            ..before
        })
    } else {
        &&& r == Err::<(), MacpError>(MacpError::SessionNotOpen)
        &&& after == before
    }
}

/// What resuming a session does: a suspended one is open again and has its
/// deadline put off by the pause, unless it has been suspended for too long or
/// too often and expires. Either way the pause is counted and recorded. A session
/// that is not suspended is left as it is.
pub open spec fn resumes(
    before: Session,
    now_ms: i64,
    after: Session,
    r: Result<(), MacpError>,
) -> bool {
    if before.state is Suspended {
        let expires = before.suspended_too_much(now_ms);
        &&& r == if expires {
            Err::<(), MacpError>(MacpError::TtlExpired)
        } else {
            Ok(())
        }
        &&& after.suspension_intervals@ == before.pauses_by(now_ms)
        &&& after.same_but_pauses(
            (Session {
                state: if expires {
                    SessionState::Expired
                } else {
                    SessionState::Open
                },
                suspended_at_ms: None,
                accumulated_suspended_ms: before.suspended_by(now_ms) as i64,
                ttl_expiry: if expires {
                    before.ttl_expiry
                } else {
                    clamp(before.ttl_expiry + pause(before.suspended_at_ms, now_ms)) as i64
                },
                ..before
            }),
        )
    } else {
        &&& r == Err::<(), MacpError>(MacpError::SessionNotOpen)
        &&& after == before
    }
}

/// What cancelling a session does: one that is not over is cancelled, and any
/// other is left as it is.
pub open spec fn cancels(before: Session, after: Session, r: Result<(), MacpError>) -> bool {
    if before.state.terminal() {
        &&& r == Err::<(), MacpError>(MacpError::SessionNotOpen)
        &&& after == before
    } else {
        &&& r is Ok
        &&& after == (Session {
            state: SessionState::Cancelled,
            suspended_at_ms: None,
            ..before
        })
    }
}

/// The session once it has taken over what a mode made of a message.
pub open spec fn applied(session: Session, response: ModeResponse) -> Session {
    match response {
        ModeResponse::NoOp => session,
        ModeResponse::PersistState(state) => Session { mode_state: state, ..session },
        ModeResponse::Resolve(resolution) => Session {
            state: SessionState::Resolved,
            resolution: Some(resolution),
            ..session
        },
        ModeResponse::PersistAndResolve { state, resolution } => Session {
            mode_state: state,
            state: SessionState::Resolved,
            resolution: Some(resolution),
            ..session
        },
    }
}

/// No transition leads out of a terminal state: each is refused and changes
/// nothing.
pub proof fn terminal_is_final(before: Session, now_ms: i64, after: Session, r: Result<
    (),
    MacpError,
>)
    requires
        before.state.terminal(),
        suspends(before, now_ms, after, r) || resumes(before, now_ms, after, r) || cancels(
            before,
            after,
            r,
        ),
    ensures
        r == Err::<(), MacpError>(MacpError::SessionNotOpen),
        after == before,
{
}

/// A pause leaves the session as much time to live as it had when it began.
pub proof fn pause_preserves_time_to_live(
    before: Session,
    suspended_at: i64,
    suspended: Session,
    resumed_at: i64,
    after: Session,
)
    requires
        suspends(before, suspended_at, suspended, Ok(())),
        resumes(suspended, resumed_at, after, Ok(())),
        suspended_at <= resumed_at,
        before.ttl_expiry + (resumed_at - suspended_at) <= i64::MAX,
    ensures
        after.state is Open,
        after.ttl_expiry - resumed_at == before.ttl_expiry - suspended_at,
        after.accumulated_suspended_ms == clamp(
            before.accumulated_suspended_ms + (resumed_at - suspended_at),
        ),
{
}

/// A session that was resumed has not been suspended for longer than its cap.
pub proof fn resumed_within_cap(before: Session, now_ms: i64, after: Session)
    requires
        resumes(before, now_ms, after, Ok(())),
    ensures
        after.accumulated_suspended_ms <= after.suspend_cap(),
{
}

/// Whether the record of pauses is within bounds: beyond the cap by one at most,
/// and then only once the session is over.
pub open spec fn pauses_bounded(session: Session) -> bool {
    let n = session.suspension_intervals@.len();
    n <= MAX_SUSPENSION_CYCLES || (n == MAX_SUSPENSION_CYCLES + 1 && session.state.terminal())
}

/// The record of pauses stays within bounds, whatever the session goes through.
pub proof fn pauses_stay_bounded(before: Session, now_ms: i64, after: Session, r: Result<
    (),
    MacpError,
>)
    requires
        pauses_bounded(before),
        suspends(before, now_ms, after, r) || resumes(before, now_ms, after, r) || cancels(
            before,
            after,
            r,
        ),
    ensures
        pauses_bounded(after),
{
}

impl Session {
    /// The cap on suspension that governs the session.
    pub open spec fn suspend_cap(self) -> int {
        if self.max_suspend_ms > 0 {
            self.max_suspend_ms as int
        } else {
            MAX_SUSPEND_MS as int
        }
    }

    /// The time suspended, once the pause that goes on at `now_ms` is over.
    pub open spec fn suspended_by(self, now_ms: i64) -> int {
        clamp(self.accumulated_suspended_ms + pause(self.suspended_at_ms, now_ms))
    }

    /// When the pause that goes on at `now_ms` began.
    pub open spec fn suspended_since(self, now_ms: i64) -> i64 {
        match self.suspended_at_ms {
            Some(at) => at,
            None => now_ms,
        }
    }

    /// The completed pauses, once the pause that goes on at `now_ms` is over.
    pub open spec fn pauses_by(self, now_ms: i64) -> Seq<(i64, i64)> {
        recorded(
            self.suspension_intervals@,
            self.semantics_rev,
            self.suspended_since(now_ms),
            now_ms,
        )
    }

    /// Whether the session must expire, once the pause that goes on at `now_ms`
    /// is over.
    pub open spec fn suspended_too_much(self, now_ms: i64) -> bool {
        ||| self.semantics_rev >= 2 && self.pauses_by(now_ms).len() > MAX_SUSPENSION_CYCLES
        ||| self.suspended_by(now_ms) > self.suspend_cap()
    }

    /// Whether the two sessions agree in all but their recorded pauses.
    pub open spec fn same_but_pauses(self, other: Session) -> bool {
        self == (Session { suspension_intervals: self.suspension_intervals, ..other })
    }

    /// Suspends an open session.
    pub fn suspend(&mut self, now_ms: i64) -> (r: Result<(), MacpError>)
        ensures
            suspends(*old(self), now_ms, *final(self), r),
    {
        if self.state != SessionState::Open {
            return Err(MacpError::SessionNotOpen);
        }
        self.state = SessionState::Suspended;
        self.suspended_at_ms = Some(now_ms);
        Ok(())
    }

    /// The cap on suspension that governs the session: the one that it binds, or
    /// [`MAX_SUSPEND_MS`].
    pub fn effective_max_suspend_ms(&self) -> (r: i64)
        ensures
            r == self.suspend_cap(),
    {
        if self.max_suspend_ms > 0 {
            self.max_suspend_ms
        } else {
            MAX_SUSPEND_MS
        }
    }

    /// Resumes a suspended session. The length of the pause is added to its
    /// deadline and the pause is recorded. A session that has been suspended for
    /// too long or too often expires instead.
    pub fn resume(&mut self, now_ms: i64) -> (r: Result<(), MacpError>)
        requires
            old(self).state is Suspended && old(self).suspended_at_ms is Some ==> i64::MIN
                <= now_ms - old(self).suspended_at_ms->0 <= i64::MAX,
        ensures
            resumes(*old(self), now_ms, *final(self), r),
    {
        if self.state != SessionState::Suspended {
            return Err(MacpError::SessionNotOpen);
        }
        let suspended_at: i64 = match self.suspended_at_ms {
            Some(at) => at,
            None => now_ms,
        };
        let banked: i64 = max(now_ms - suspended_at, 0);
        self.accumulated_suspended_ms = saturating_sum(self.accumulated_suspended_ms, banked);
        self.suspended_at_ms = None;
        if self.semantics_rev >= 2 || self.suspension_intervals.len() < MAX_SUSPENSION_CYCLES {
            self.suspension_intervals.push((suspended_at, now_ms));
        }
        if self.semantics_rev >= 2 && self.suspension_intervals.len() > MAX_SUSPENSION_CYCLES {
            self.state = SessionState::Expired;
            return Err(MacpError::TtlExpired);
        }
        if self.accumulated_suspended_ms > self.effective_max_suspend_ms() {
            self.state = SessionState::Expired;
            return Err(MacpError::TtlExpired);
        }
        self.ttl_expiry = saturating_sum(self.ttl_expiry, banked);
        self.state = SessionState::Open;
        Ok(())
    }

    /// Cancels a session that is not over.
    pub fn cancel(&mut self) -> (r: Result<(), MacpError>)
        ensures
            cancels(*old(self), *final(self), r),
    {
        if self.state.is_terminal() {
            return Err(MacpError::SessionNotOpen);
        }
        self.state = SessionState::Cancelled;
        self.suspended_at_ms = None;
        Ok(())
    }

    /// Whether the session has been suspended for too long, counting the pause
    /// that goes on.
    pub fn suspend_cap_exceeded(&self, now_ms: i64) -> (r: bool)
        requires
            self.suspended_at_ms matches Some(at) ==> i64::MIN <= now_ms - at <= i64::MAX,
        ensures
            r == (self.suspended_by(now_ms) > self.suspend_cap()),
    {
        match self.suspended_at_ms {
            Some(at) => saturating_sum(self.accumulated_suspended_ms, max(now_ms - at, 0))
                > self.effective_max_suspend_ms(),
            None => self.accumulated_suspended_ms > self.effective_max_suspend_ms(),
        }
    }

    /// When `duration_ms` of unsuspended time have passed since `from_ms`, by the
    /// pauses on record.
    pub fn unsuspended_deadline(&self, from_ms: i64, duration_ms: i64) -> (r: i64)
        ensures
            r == deadline(self.suspension_intervals@, from_ms, duration_ms),
    {
        let ghost all = self.suspension_intervals@;
        let mut cur: i64 = from_ms;
        let mut remaining: i64 = duration_ms;
        let mut i: usize = 0;
        assert(all.skip(0) =~= all);
        while i < self.suspension_intervals.len()
            invariant
                i <= all.len(),
                all == self.suspension_intervals@,
                walk(all, from_ms as int, from_ms as int, duration_ms as int) == walk(
                    all.skip(i as int),
                    from_ms as int,
                    cur as int,
                    remaining as int,
                ),
            decreases all.len() - i,
        {
            let (s, e): (i64, i64) = self.suspension_intervals[i];
            proof {
                assert(all.skip(i as int)[0] == all[i as int]);
                assert(all.skip(i as int).drop_first() =~= all.skip(i + 1));
            }
            if s >= from_ms {
                let run: i64 = max(saturating_difference(s, cur), 0);
                if run >= remaining {
                    return saturating_sum(cur, remaining);
                }
                remaining = saturating_difference(remaining, run);
                cur = max(max(e, s), cur);
            }
            i = i + 1;
        }
        saturating_sum(cur, remaining)
    }

    /// Takes over what a mode made of a message.
    pub fn apply_mode_response(&mut self, response: ModeResponse)
        ensures
            *final(self) == applied(*old(self), response),
    {
        match response {
            ModeResponse::NoOp => {},
            ModeResponse::PersistState(state) => {
                self.mode_state = state;
            },
            ModeResponse::Resolve(resolution) => {
                self.state = SessionState::Resolved;
                self.resolution = Some(resolution);
            },
            ModeResponse::PersistAndResolve { state, resolution } => {
                self.mode_state = state;
                self.state = SessionState::Resolved;
                self.resolution = Some(resolution);
            },
        }
    }

    /// How many messages of the sender the session has accepted.
    pub open spec fn message_count(self, sender: Seq<char>) -> nat {
        if self.participant_message_counts@.dom().contains(sender) {
            self.participant_message_counts@[sender] as nat
        } else {
            0
        }
    }

    /// Counts a message of the sender and notes when it came.
    pub fn record_participant_activity(&mut self, sender: &str, timestamp_ms: i64)
        requires
            old(self).message_count(sender@) < u32::MAX,
        ensures
            final(self).participant_message_counts@ == old(self).participant_message_counts@.insert(
                sender@,
                (old(self).message_count(sender@) + 1) as u32,
            ),
            final(self).participant_last_seen@ == old(self).participant_last_seen@.insert(
                sender@,
                timestamp_ms,
            ),
            *final(self) == (Session {
                participant_message_counts: final(self).participant_message_counts,
                participant_last_seen: final(self).participant_last_seen,
                ..*old(self)
            }),
    {
        let count: u32 = match self.participant_message_counts.get(sender) {
            Some(n) => *n,
            None => 0,
        };
        self.participant_message_counts.insert(sender.to_owned(), count + 1);
        self.participant_last_seen.insert(sender.to_owned(), timestamp_ms);
    }
}

impl Session {
    /// Starts to build a session. All but the three arguments has a default: the
    /// session is open, never expires, and everything else is zero or empty.
    pub fn builder(session_id: &str, mode: &str, initiator_sender: &str) -> (r: SessionBuilder)
        ensures
            ({
                let s = r.session();
                &&& s.session_id@ == session_id@
                &&& s.mode@ == mode@
                &&& s.initiator_sender@ == initiator_sender@
                &&& s.state is Open
                &&& s.ttl_expiry == i64::MAX
                &&& s.ttl_ms == 0
                &&& s.started_at_unix_ms == 0
                &&& s.resolution is None
                &&& s.mode_state@.len() == 0
                &&& s.participants@.len() == 0
                &&& s.seen_message_ids@ == Set::<Seq<char>>::empty()
                &&& s.intent@.len() == 0
                &&& s.mode_version@.len() == 0
                &&& s.configuration_version@.len() == 0
                &&& s.policy_version@.len() == 0
                &&& s.context_id@.len() == 0
                &&& s.extensions@ == Map::<Seq<char>, Seq<u8>>::empty()
                &&& s.roots@.len() == 0
                &&& s.participant_message_counts@ == Map::<Seq<char>, u32>::empty()
                &&& s.participant_last_seen@ == Map::<Seq<char>, i64>::empty()
                &&& s.policy_definition is None
                &&& s.suspended_at_ms is None
                &&& s.accumulated_suspended_ms == 0
                &&& s.suspension_intervals@.len() == 0
                &&& s.semantics_rev == CURRENT_SEMANTICS_REV
                &&& s.max_suspend_ms == 0
            }),
    {
        SessionBuilder {
            inner: Session {
                session_id: session_id.to_owned(),
                state: SessionState::Open,
                ttl_expiry: i64::MAX,
                ttl_ms: 0,
                started_at_unix_ms: 0,
                resolution: None,
                mode: mode.to_owned(),
                mode_state: Vec::new(),
                participants: Vec::new(),
                seen_message_ids: TextSet::new(),
                intent: String::new(),
                mode_version: String::new(),
                configuration_version: String::new(),
                policy_version: String::new(),
                context_id: String::new(),
                extensions: TextMap::new(),
                roots: Vec::new(),
                initiator_sender: initiator_sender.to_owned(),
                participant_message_counts: TextMap::new(),
                participant_last_seen: TextMap::new(),
                policy_definition: None,
                suspended_at_ms: None,
                accumulated_suspended_ms: 0,
                suspension_intervals: Vec::new(),
                semantics_rev: CURRENT_SEMANTICS_REV,
                max_suspend_ms: 0,
            },
        }
    }
}

/// Builds a [`Session`].
#[derive(Clone, Debug)]
pub struct SessionBuilder {
    inner: Session,
}

impl SessionBuilder {
    /// The session as it stands.
    pub closed spec fn session(self) -> Session {
        self.inner
    }

    /// Sets `state`.
    pub fn state(self, value: SessionState) -> (r: Self)
        ensures
            r.session() == (Session { state: value, ..self.session() }),
    {
        let mut inner: Session = self.inner;
        inner.state = value;
        SessionBuilder { inner }
    }

    /// Sets `ttl_expiry`.
    pub fn ttl_expiry(self, value: i64) -> (r: Self)
        ensures
            r.session() == (Session { ttl_expiry: value, ..self.session() }),
    {
        let mut inner: Session = self.inner;
        inner.ttl_expiry = value;
        SessionBuilder { inner }
    }

    /// Sets `ttl_ms`.
    pub fn ttl_ms(self, value: i64) -> (r: Self)
        ensures
            r.session() == (Session { ttl_ms: value, ..self.session() }),
    {
        let mut inner: Session = self.inner;
        inner.ttl_ms = value;
        SessionBuilder { inner }
    }

    /// Sets `started_at_unix_ms`.
    pub fn started_at_unix_ms(self, value: i64) -> (r: Self)
        ensures
            r.session() == (Session { started_at_unix_ms: value, ..self.session() }),
    {
        let mut inner: Session = self.inner;
        inner.started_at_unix_ms = value;
        SessionBuilder { inner }
    }

    /// Sets `resolution`.
    pub fn resolution(self, value: Option<Vec<u8>>) -> (r: Self)
        ensures
            r.session() == (Session { resolution: value, ..self.session() }),
    {
        let mut inner: Session = self.inner;
        inner.resolution = value;
        SessionBuilder { inner }
    }

    /// Sets `mode_state`.
    pub fn mode_state(self, value: Vec<u8>) -> (r: Self)
        ensures
            r.session() == (Session { mode_state: value, ..self.session() }),
    {
        let mut inner: Session = self.inner;
        inner.mode_state = value;
        SessionBuilder { inner }
    }

    /// Sets `participants`.
    pub fn participants(self, value: Vec<String>) -> (r: Self)
        ensures
            r.session() == (Session { participants: value, ..self.session() }),
    {
        let mut inner: Session = self.inner;
        inner.participants = value;
        SessionBuilder { inner }
    }

    /// Sets `seen_message_ids`.
    pub fn seen_message_ids(self, value: TextSet) -> (r: Self)
        ensures
            r.session() == (Session { seen_message_ids: value, ..self.session() }),
    {
        let mut inner: Session = self.inner;
        inner.seen_message_ids = value;
        SessionBuilder { inner }
    }

    /// Sets `extensions`.
    pub fn extensions(self, value: TextMap<Vec<u8>>) -> (r: Self)
        ensures
            r.session() == (Session { extensions: value, ..self.session() }),
    {
        let mut inner: Session = self.inner;
        inner.extensions = value;
        SessionBuilder { inner }
    }

    /// Sets `roots`.
    pub fn roots(self, value: Vec<Root>) -> (r: Self)
        ensures
            r.session() == (Session { roots: value, ..self.session() }),
    {
        let mut inner: Session = self.inner;
        inner.roots = value;
        SessionBuilder { inner }
    }

    /// Sets `participant_message_counts`.
    pub fn participant_message_counts(self, value: TextMap<u32>) -> (r: Self)
        ensures
            r.session() == (Session { participant_message_counts: value, ..self.session() }),
    {
        let mut inner: Session = self.inner;
        inner.participant_message_counts = value;
        SessionBuilder { inner }
    }

    /// Sets `participant_last_seen`.
    pub fn participant_last_seen(self, value: TextMap<i64>) -> (r: Self)
        ensures
            r.session() == (Session { participant_last_seen: value, ..self.session() }),
    {
        let mut inner: Session = self.inner;
        inner.participant_last_seen = value;
        SessionBuilder { inner }
    }

    /// Sets `policy_definition`.
    pub fn policy_definition(self, value: Option<PolicyDefinition>) -> (r: Self)
        ensures
            r.session() == (Session { policy_definition: value, ..self.session() }),
    {
        let mut inner: Session = self.inner;
        inner.policy_definition = value;
        SessionBuilder { inner }
    }

    /// Sets `suspended_at_ms`.
    pub fn suspended_at_ms(self, value: Option<i64>) -> (r: Self)
        ensures
            r.session() == (Session { suspended_at_ms: value, ..self.session() }),
    {
        let mut inner: Session = self.inner;
        inner.suspended_at_ms = value;
        SessionBuilder { inner }
    }

    /// Sets `accumulated_suspended_ms`.
    pub fn accumulated_suspended_ms(self, value: i64) -> (r: Self)
        ensures
            r.session() == (Session { accumulated_suspended_ms: value, ..self.session() }),
    {
        let mut inner: Session = self.inner;
        inner.accumulated_suspended_ms = value;
        SessionBuilder { inner }
    }

    /// Sets `suspension_intervals`.
    pub fn suspension_intervals(self, value: Vec<(i64, i64)>) -> (r: Self)
        ensures
            r.session() == (Session { suspension_intervals: value, ..self.session() }),
    {
        let mut inner: Session = self.inner;
        inner.suspension_intervals = value;
        SessionBuilder { inner }
    }

    /// Sets `semantics_rev`.
    pub fn semantics_rev(self, value: u32) -> (r: Self)
        ensures
            r.session() == (Session { semantics_rev: value, ..self.session() }),
    {
        let mut inner: Session = self.inner;
        inner.semantics_rev = value;
        SessionBuilder { inner }
    }

    /// Sets `max_suspend_ms`.
    pub fn max_suspend_ms(self, value: i64) -> (r: Self)
        ensures
            r.session() == (Session { max_suspend_ms: value, ..self.session() }),
    {
        let mut inner: Session = self.inner;
        inner.max_suspend_ms = value;
        SessionBuilder { inner }
    }

    /// Sets `intent`.
    pub fn intent(self, value: &str) -> (r: Self)
        ensures
            r.session().intent@ == value@,
            r.session() == (Session { intent: r.session().intent, ..self.session() }),
    {
        let mut inner: Session = self.inner;
        inner.intent = value.to_owned();
        SessionBuilder { inner }
    }

    /// Sets `mode_version`.
    pub fn mode_version(self, value: &str) -> (r: Self)
        ensures
            r.session().mode_version@ == value@,
            r.session() == (Session { mode_version: r.session().mode_version, ..self.session() }),
    {
        let mut inner: Session = self.inner;
        inner.mode_version = value.to_owned();
        SessionBuilder { inner }
    }

    /// Sets `configuration_version`.
    pub fn configuration_version(self, value: &str) -> (r: Self)
        ensures
            r.session().configuration_version@ == value@,
            r.session() == (Session { configuration_version: r.session().configuration_version, ..self.session() }),
    {
        let mut inner: Session = self.inner;
        inner.configuration_version = value.to_owned();
        SessionBuilder { inner }
    }

    /// Sets `policy_version`.
    pub fn policy_version(self, value: &str) -> (r: Self)
        ensures
            r.session().policy_version@ == value@,
            r.session() == (Session { policy_version: r.session().policy_version, ..self.session() }),
    {
        let mut inner: Session = self.inner;
        inner.policy_version = value.to_owned();
        SessionBuilder { inner }
    }

    /// Sets `context_id`.
    pub fn context_id(self, value: &str) -> (r: Self)
        ensures
            r.session().context_id@ == value@,
            r.session() == (Session { context_id: r.session().context_id, ..self.session() }),
    {
        let mut inner: Session = self.inner;
        inner.context_id = value.to_owned();
        SessionBuilder { inner }
    }

    /// The session.
    pub fn build(self) -> (r: Session)
        ensures
            r == self.session(),
    {
        self.inner
    }
}

// ---------------------------------------------------------------------------
// What the transitions come to
// ---------------------------------------------------------------------------

/// Whether the two sessions agree in what a pause has nothing to do with.
pub open spec fn same_terms(a: Session, b: Session) -> bool {
    &&& a.session_id == b.session_id
    &&& a.ttl_ms == b.ttl_ms
    &&& a.started_at_unix_ms == b.started_at_unix_ms
    &&& a.resolution == b.resolution
    &&& a.mode == b.mode
    &&& a.mode_state == b.mode_state
    &&& a.participants == b.participants
    &&& a.seen_message_ids == b.seen_message_ids
    &&& a.intent == b.intent
    &&& a.mode_version == b.mode_version
    &&& a.configuration_version == b.configuration_version
    &&& a.policy_version == b.policy_version
    &&& a.context_id == b.context_id
    &&& a.extensions == b.extensions
    &&& a.roots == b.roots
    &&& a.initiator_sender == b.initiator_sender
    &&& a.participant_message_counts == b.participant_message_counts
    &&& a.participant_last_seen == b.participant_last_seen
    &&& a.policy_definition == b.policy_definition
    &&& a.semantics_rev == b.semantics_rev
    &&& a.max_suspend_ms == b.max_suspend_ms
}

/// Exactly an open session is suspended, from that time on. Its deadline and the
/// time that it has been suspended so far stay as they are.
pub proof fn open_sessions_are_suspended(
    before: Session,
    now_ms: i64,
    after: Session,
    r: Result<(), MacpError>,
)
    requires
        suspends(before, now_ms, after, r),
    ensures
        r is Ok <==> before.state is Open,
        r is Err ==> r->Err_0 == MacpError::SessionNotOpen && after == before,
        r is Ok ==> {
            &&& after.state is Suspended
            &&& after.suspended_at_ms == Some(now_ms)
            &&& after.ttl_expiry == before.ttl_expiry
            &&& after.accumulated_suspended_ms == before.accumulated_suspended_ms
            &&& after.suspension_intervals == before.suspension_intervals
            &&& same_terms(after, before)
        },
{
}

/// Exactly a session that is not over is cancelled, be it suspended or not. Nothing
/// else changes but that it is no longer suspended.
pub proof fn live_sessions_are_cancelled(before: Session, after: Session, r: Result<(), MacpError>)
    requires
        cancels(before, after, r),
    ensures
        r is Ok <==> before.state is Open || before.state is Suspended,
        r is Err ==> r->Err_0 == MacpError::SessionNotOpen && after == before,
        r is Ok ==> {
            &&& after.state is Cancelled
            &&& after.suspended_at_ms is None
            &&& after.ttl_expiry == before.ttl_expiry
            &&& after.accumulated_suspended_ms == before.accumulated_suspended_ms
            &&& after.suspension_intervals == before.suspension_intervals
            &&& same_terms(after, before)
        },
{
}

/// A session that is not suspended cannot be resumed. One that is counts the pause,
/// which lasted as long as the clock says, and not at all where the clock went back.
/// It is open again exactly where it has not been suspended for longer than its cap
/// and, from revision 2 on, not more than 1024 times; its deadline is then later by
/// the pause. Otherwise it has expired, and its deadline stays.
pub proof fn suspended_sessions_are_resumed(
    before: Session,
    at: i64,
    now_ms: i64,
    after: Session,
    r: Result<(), MacpError>,
)
    requires
        resumes(before, now_ms, after, r),
        before.suspended_at_ms == Some(at),
        before.accumulated_suspended_ms + (now_ms - at) <= i64::MAX,
        before.ttl_expiry + (now_ms - at) <= i64::MAX,
    ensures
        !(before.state is Suspended) ==> r == Err::<(), MacpError>(MacpError::SessionNotOpen)
            && after == before,
        before.state is Suspended ==> ({
            let lasted = if now_ms < at {
                0
            } else {
                now_ms - at
            };
            let total = before.accumulated_suspended_ms + lasted;
            let cap = if before.max_suspend_ms > 0 {
                before.max_suspend_ms as int
            } else {
                604_800_000
            };
            let too_often = before.semantics_rev >= 2 && before.suspension_intervals@.len() >= 1024;
            &&& after.accumulated_suspended_ms == total
            &&& after.suspended_at_ms is None
            &&& same_terms(after, before)
            &&& r is Ok <==> total <= cap && !too_often
            &&& r is Ok ==> after.state is Open && after.ttl_expiry == before.ttl_expiry + lasted
            &&& r is Err ==> r->Err_0 == MacpError::TtlExpired && after.state is Expired
                && after.ttl_expiry == before.ttl_expiry
        }),
{
}

/// A pause is recorded behind all others, from when to when it was, and none of
/// these changes. Only before revision 2 a session with 1024 of them records no
/// more.
pub proof fn pauses_are_recorded_in_order(
    before: Session,
    at: i64,
    now_ms: i64,
    after: Session,
    r: Result<(), MacpError>,
)
    requires
        resumes(before, now_ms, after, r),
        before.state is Suspended,
        before.suspended_at_ms == Some(at),
    ensures
        before.semantics_rev >= 2 || before.suspension_intervals@.len() < 1024 ==> {
            &&& after.suspension_intervals@.drop_last() == before.suspension_intervals@
            &&& after.suspension_intervals@.len() == before.suspension_intervals@.len() + 1
            &&& after.suspension_intervals@.last() == (at, now_ms)
        },
        before.semantics_rev < 2 && before.suspension_intervals@.len() >= 1024
            ==> after.suspension_intervals@ == before.suspension_intervals@,
{
    if before.semantics_rev >= 2 || before.suspension_intervals@.len() < 1024 {
        assert(after.suspension_intervals@.drop_last() =~= before.suspension_intervals@);
    }
}

/// A session that is suspended with no record of since when has not been suspended
/// for any time.
pub proof fn unrecorded_pauses_count_for_nothing(
    before: Session,
    now_ms: i64,
    after: Session,
    r: Result<(), MacpError>,
)
    requires
        resumes(before, now_ms, after, r),
        before.state is Suspended,
        before.suspended_at_ms is None,
    ensures
        after.accumulated_suspended_ms == before.accumulated_suspended_ms,
        after.ttl_expiry == before.ttl_expiry,
{
}

/// Whether a session is over its cap can be told while it is suspended: resuming it
/// at that time would let it expire, and before revision 2 only then.
pub proof fn the_cap_can_be_told_in_advance(
    before: Session,
    now_ms: i64,
    after: Session,
    r: Result<(), MacpError>,
)
    requires
        resumes(before, now_ms, after, r),
        before.state is Suspended,
    ensures
        before.suspended_by(now_ms) > before.suspend_cap() ==> r == Err::<(), MacpError>(
            MacpError::TtlExpired,
        ),
        before.semantics_rev < 2 && before.suspended_by(now_ms) <= before.suspend_cap() ==> r is Ok,
        before.suspended_by(now_ms) == after.accumulated_suspended_ms,
{
}

/// The cap is the one that the session binds where it binds one, and a week
/// otherwise.
pub proof fn the_cap_is_bound_or_a_week(session: Session)
    ensures
        session.max_suspend_ms > 0 ==> session.suspend_cap() == session.max_suspend_ms,
        session.max_suspend_ms <= 0 ==> session.suspend_cap() == 7 * 24 * 60 * 60 * 1000,
{
}

/// What a mode makes of a message touches the mode state, the resolution and the
/// state of the session alone: the mode state where it is to be replaced, and the
/// other two exactly where the session is to be resolved.
pub proof fn responses_are_taken_over(session: Session, response: ModeResponse)
    ensures
        ({
            let after = applied(session, response);
            let resolves = response is Resolve || response is PersistAndResolve;
            &&& !resolves ==> after.state == session.state && after.resolution
                == session.resolution
            &&& resolves ==> after.state is Resolved && after.resolution is Some
            &&& response matches ModeResponse::Resolve(bytes) ==> after.resolution == Some(bytes)
            &&& response matches ModeResponse::PersistState(bytes) ==> after.mode_state == bytes
            &&& response matches ModeResponse::PersistAndResolve { state, resolution }
                ==> after.mode_state == state && after.resolution == Some(resolution)
            &&& response is NoOp || response is Resolve ==> after.mode_state == session.mode_state
            &&& after.ttl_expiry == session.ttl_expiry
            &&& after.suspended_at_ms == session.suspended_at_ms
            &&& after.accumulated_suspended_ms == session.accumulated_suspended_ms
            &&& after.suspension_intervals == session.suspension_intervals
            &&& same_terms(
                after,
                (Session { mode_state: after.mode_state, resolution: after.resolution, ..session }),
            )
        }),
{
}

/// A session is over exactly once it has been resolved, has expired or has been
/// cancelled.
pub proof fn over_means_for_good(state: SessionState)
    ensures
        state.terminal() <==> state != SessionState::Open && state != SessionState::Suspended,
{
}

} // verus!
