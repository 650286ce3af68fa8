//! How often a sender may do something.
//!
//! For each sender the times of what was let through are kept, oldest first, as
//! long as they lie within the window. Times are nanoseconds on a clock that
//! never goes back, whatever it starts from.

use crate::error::MacpError;
use crate::text_map::{in_order, lists, map_of_entry, map_of_key, TextMap};
use std::collections::VecDeque;
use vstd::prelude::*;

verus! {

/// How many times something may be done within a window of time.
#[derive(Clone, Debug)]
pub struct RateLimitConfig {
    pub limit: usize,
    /// The length of the window in nanoseconds.
    pub window_ns: u64,
}

/// A window of a minute, in nanoseconds.
pub const MINUTE_NS: u64 = 60_000_000_000;

/// How many requests pass from one sweep to the next.
pub const SWEEP_EVERY: u64 = 128;

/// Whether a time lies within the window that ends now.
pub open spec fn recent(at: u64, now: u64, window: u64) -> bool {
    now - at <= window
}

/// The times without the leading ones that lie before the window.
pub open spec fn trimmed(times: Seq<u64>, now: u64, window: u64) -> Seq<u64>
    decreases times.len(),
{
    if times.len() > 0 && !recent(times[0], now, window) {
        trimmed(times.drop_first(), now, window)
    } else {
        times
    }
}

/// Whether the last of the times lies within the window.
pub open spec fn active(times: Seq<u64>, now: u64, window: u64) -> bool {
    times.len() > 0 && recent(times.last(), now, window)
}

/// The senders that have been active within the window.
pub open spec fn swept(events: Map<Seq<char>, Seq<u64>>, now: u64, window: u64) -> Map<
    Seq<char>,
    Seq<u64>,
> {
    events.restrict(
        Set::new(|k: Seq<char>| events.dom().contains(k) && active(events[k], now, window)),
    )
}

/// The times of a sender.
pub open spec fn times_of(events: Map<Seq<char>, Seq<u64>>, sender: Seq<char>) -> Seq<u64> {
    if events.dom().contains(sender) {
        events[sender]
    } else {
        seq![]
    }
}

/// What has been let through, by sender.
#[derive(Debug)]
pub struct EventLog {
    events: TextMap<VecDeque<u64>>,
    requests: u64,
}

/// What an [`EventLog`] holds.
pub struct EventLogView {
    pub events: Map<Seq<char>, Seq<u64>>,
    /// How many requests there have been, in the arithmetic of 64 bits.
    pub requests: u64,
}

impl View for EventLog {
    type V = EventLogView;

    closed spec fn view(&self) -> EventLogView {
        EventLogView { events: self.events@, requests: self.requests }
    }
}

/// What a request finds: every so often the senders that are no longer active are
/// forgotten first.
pub open spec fn met(log: EventLogView, now: u64, window: u64) -> Map<Seq<char>, Seq<u64>> {
    if log.requests % SWEEP_EVERY == 0 {
        swept(log.events, now, window)
    } else {
        log.events
    }
}

/// Whether a request of the sender is let through: fewer than the limit have been
/// within the window.
pub open spec fn let_through(
    log: EventLogView,
    sender: Seq<char>,
    now: u64,
    config: RateLimitConfig,
) -> bool {
    trimmed(times_of(met(log, now, config.window_ns), sender), now, config.window_ns).len()
        < config.limit
}

/// The log once a request has been answered.
pub open spec fn after_request(
    log: EventLogView,
    sender: Seq<char>,
    now: u64,
    config: RateLimitConfig,
) -> EventLogView {
    let found = met(log, now, config.window_ns);
    let left = trimmed(times_of(found, sender), now, config.window_ns);
    EventLogView {
        events: found.insert(
            sender,
            if let_through(log, sender, now, config) {
                left.push(now)
            } else {
                left
            },
        ),
        requests: if log.requests == u64::MAX {
            0
        } else {
            (log.requests + 1) as u64
        },
    }
}

/// Whether the time lies within the window that ends now. A time that is still to
/// come does.
fn is_recent(at: u64, now: u64, window: u64) -> (r: bool)
    ensures
        r == recent(at, now, window),
{
    now <= at || now - at <= window
}

fn is_active(times: &VecDeque<u64>, now: u64, window: u64) -> (r: bool)
    ensures
        r == active(times.deep_view(), now, window),
{
    assert(times.deep_view() =~= times@);
    let n: usize = times.len();
    n > 0 && is_recent(times[n - 1], now, window)
}

impl EventLog {
    /// The log of which nothing has been asked yet.
    pub fn new() -> (r: Self)
        ensures
            r@.events == Map::<Seq<char>, Seq<u64>>::empty(),
            r@.requests == 0,
    {
        EventLog { events: TextMap::new(), requests: 0 }
    }

    /// How many senders the log knows of.
    pub fn senders(&self) -> (r: usize)
        ensures
            r == self@.events.dom().len(),
    {
        let n: usize = self.events.len();
        proof {
            crate::text_map::keys_count(in_order(self.events@));
        }
        n
    }

    /// Whether the log knows of the sender.
    pub fn knows(&self, sender: &str) -> (r: bool)
        ensures
            r == self@.events.dom().contains(sender@),
    {
        self.events.contains_key(sender)
    }

    fn sweep(events: &mut TextMap<VecDeque<u64>>, now: u64, window: u64)
        ensures
            final(events)@ == swept(old(events)@, now, window),
    {
        let ghost m = events@;
        let ghost all = in_order(m);
        let ghost mut done: int = 0;
        let ghost mut kept: Seq<(Seq<char>, Seq<u64>)> = Seq::empty();
        let mut n: usize = events.len();
        let mut i: usize = 0;
        proof {
            assert(kept + all.skip(0) =~= all);
            assert forall|k: Seq<char>| m.dom().contains(k) implies unswept(
                all,
                0,
                now,
                window,
            ).contains(k) by {
                let t = map_of_key(all, k);
            }
            assert(m.restrict(unswept(all, 0, now, window)) =~= m);
        }
        while i < n
            invariant
                all == in_order(m),
                lists(all, m),
                0 <= done <= all.len(),
                i == kept.len(),
                in_order(events@) == kept + all.skip(done),
                n == in_order(events@).len(),
                events@ == m.restrict(unswept(all, done, now, window)),
            decreases all.len() - done,
        {
            let ghost before = events@;
            let ghost entry = all[done];
            proof {
                assert(done < all.len());
                assert(in_order(events@)[i as int] == entry);
                map_of_entry(all, done);
                unswept_next(all, done, now, window);
            }
            if is_active(events.value_at(i), now, window) {
                proof {
                    assert(kept + all.skip(done) =~= kept.push(entry) + all.skip(done + 1));
                    kept = kept.push(entry);
                    assert(m.restrict(unswept(all, done + 1, now, window)) =~= before);
                }
                i = i + 1;
            } else {
                let _ = events.remove_at(i);
                proof {
                    assert((kept + all.skip(done)).remove(i as int) =~= kept + all.skip(done + 1));
                    assert(m.restrict(unswept(all, done + 1, now, window)) =~= before.remove(
                        entry.0,
                    ));
                }
                n = n - 1;
            }
            proof {
                done = done + 1;
            }
        }
        proof {
            assert(done == all.len());
            assert forall|k: Seq<char>|
                m.dom().contains(k) implies unswept(all, done, now, window).contains(k) == active(
                m[k],
                now,
                window,
            ) by {
                let t = map_of_key(all, k);
                unswept_key(all, t, done, now, window);
            }
            assert(m.restrict(unswept(all, done, now, window)) =~= swept(m, now, window));
        }
    }

    fn trim(times: &mut VecDeque<u64>, now: u64, window: u64)
        ensures
            final(times)@ == trimmed(old(times)@, now, window),
    {
        let ghost all = times@;
        while times.len() > 0 && !is_recent(times[0], now, window)
            invariant
                trimmed(times@, now, window) == trimmed(all, now, window),
            decreases times@.len(),
        {
            let ghost before = times@;
            let _ = times.pop_front();
            assert(times@ =~= before.drop_first());
        }
    }

    /// Answers a request of the sender, and notes it where it is let through.
    pub fn check(&mut self, sender: &str, now: u64, config: &RateLimitConfig) -> (r: Result<
        (),
        MacpError,
    >)
        ensures
            final(self)@ == after_request(old(self)@, sender@, now, *config),
            r == if let_through(old(self)@, sender@, now, *config) {
                Ok::<(), MacpError>(())
            } else {
                Err(MacpError::RateLimited)
            },
    {
        let ghost before = self@;
        let tick: u64 = self.requests;
        self.requests = if tick == u64::MAX {
            0
        } else {
            tick + 1
        };
        if tick % SWEEP_EVERY == 0 {
            Self::sweep(&mut self.events, now, config.window_ns);
        }
        let ghost found = self.events@;
        assert(found == met(before, now, config.window_ns));
        let mut times: VecDeque<u64> = match self.events.remove(sender) {
            Some(times) => times,
            None => VecDeque::new(),
        };
        assert(times@ =~= times_of(found, sender@)) by {
            assert(times.deep_view() =~= times@);
        }
        Self::trim(&mut times, now, config.window_ns);
        let allowed: bool = times.len() < config.limit;
        if allowed {
            times.push_back(now);
        }
        assert(times.deep_view() =~= times@);
        self.events.insert(sender.to_owned(), times);
        assert(self@.events =~= after_request(before, sender@, now, *config).events);
        if allowed {
            Ok(())
        } else {
            Err(MacpError::RateLimited)
        }
    }
}

/// The keys of the entries that a sweep which has looked at the first `done` of
/// them has left in place.
spec fn unswept(all: Seq<(Seq<char>, Seq<u64>)>, done: int, now: u64, window: u64) -> Set<
    Seq<char>,
> {
    Set::new(
        |k: Seq<char>|
            exists|t: int|
                0 <= t < all.len() && #[trigger] all[t].0 == k && (t >= done || active(
                    all[t].1,
                    now,
                    window,
                )),
    )
}

proof fn unswept_key(
    all: Seq<(Seq<char>, Seq<u64>)>,
    t: int,
    done: int,
    now: u64,
    window: u64,
)
    requires
        crate::text_map::ascending(all),
        0 <= t < all.len(),
    ensures
        unswept(all, done, now, window).contains(all[t].0) == (t >= done || active(
            all[t].1,
            now,
            window,
        )),
{
    if unswept(all, done, now, window).contains(all[t].0) {
        let u = choose|u: int|
            0 <= u < all.len() && #[trigger] all[u].0 == all[t].0 && (u >= done || active(
                all[u].1,
                now,
                window,
            ));
        if u < t {
            crate::text::text_before_asymmetric(all[u].0, all[t].0);
        } else if t < u {
            crate::text::text_before_asymmetric(all[t].0, all[u].0);
        }
    }
}

proof fn unswept_next(all: Seq<(Seq<char>, Seq<u64>)>, done: int, now: u64, window: u64)
    requires
        crate::text_map::ascending(all),
        0 <= done < all.len(),
    ensures
        unswept(all, done + 1, now, window) == if active(all[done].1, now, window) {
            unswept(all, done, now, window)
        } else {
            unswept(all, done, now, window).remove(all[done].0)
        },
{
    let a = unswept(all, done, now, window);
    let b = unswept(all, done + 1, now, window);
    let key = all[done].0;
    unswept_key(all, done, done, now, window);
    unswept_key(all, done, done + 1, now, window);
    assert forall|k: Seq<char>| k != key implies a.contains(k) == b.contains(k) by {
        if a.contains(k) {
            let u = choose|u: int|
                0 <= u < all.len() && #[trigger] all[u].0 == k && (u >= done || active(
                    all[u].1,
                    now,
                    window,
                ));
            assert(all[u].0 == k && (u >= done + 1 || active(all[u].1, now, window)));
        }
    }
    assert(b =~= if active(all[done].1, now, window) {
        a
    } else {
        a.remove(key)
    });
}

// ---------------------------------------------------------------------------
// What always holds
// ---------------------------------------------------------------------------

/// Whether the times stand in their order and none is still to come.
pub open spec fn in_time(times: Seq<u64>, now: u64) -> bool {
    &&& forall|i: int, j: int| 0 <= i <= j < times.len() ==> #[trigger] times[i] <= #[trigger] times[j]
    &&& forall|i: int| 0 <= i < times.len() ==> #[trigger] times[i] <= now
}

/// Whether the times of every sender stand in their order and none is still to
/// come.
pub open spec fn well_kept(log: EventLogView, now: u64) -> bool {
    forall|k: Seq<char>| #[trigger]
        log.events.dom().contains(k) ==> in_time(log.events[k], now)
}

/// How many of the times lie within the window.
pub open spec fn recent_count(times: Seq<u64>, now: u64, window: u64) -> nat
    decreases times.len(),
{
    if times.len() == 0 {
        0
    } else {
        recent_count(times.drop_last(), now, window) + if recent(times.last(), now, window) {
            1nat
        } else {
            0
        }
    }
}

proof fn all_recent(times: Seq<u64>, now: u64, window: u64)
    requires
        forall|i: int| 0 <= i < times.len() ==> recent(#[trigger] times[i], now, window),
    ensures
        recent_count(times, now, window) == times.len(),
    decreases times.len(),
{
    if times.len() > 0 {
        all_recent(times.drop_last(), now, window);
        assert(recent(times[times.len() - 1], now, window));
    }
}

proof fn first_not_counted(times: Seq<u64>, now: u64, window: u64)
    requires
        times.len() > 0,
        !recent(times[0], now, window),
    ensures
        recent_count(times, now, window) == recent_count(times.drop_first(), now, window),
    decreases times.len(),
{
    if times.len() == 1 {
        assert(times.drop_last() =~= seq![]);
        assert(times.drop_first() =~= seq![]);
    } else {
        first_not_counted(times.drop_last(), now, window);
        assert(times.drop_last().drop_first() =~= times.drop_first().drop_last());
    }
}

/// Where the times stand in their order, what is left of them are those within
/// the window.
pub proof fn trimmed_are_the_recent(times: Seq<u64>, now: u64, window: u64)
    requires
        in_time(times, now),
    ensures
        trimmed(times, now, window).len() == recent_count(times, now, window),
        in_time(trimmed(times, now, window), now),
        forall|i: int|
            0 <= i < trimmed(times, now, window).len() ==> recent(
                #[trigger] trimmed(times, now, window)[i],
                now,
                window,
            ),
    decreases times.len(),
{
    if times.len() > 0 && !recent(times[0], now, window) {
        first_not_counted(times, now, window);
        assert(in_time(times.drop_first(), now)) by {
            let d = times.drop_first();
            assert forall|i: int, j: int| 0 <= i <= j < d.len() implies #[trigger] d[i]
                <= #[trigger] d[j] by {
                assert(times[i + 1] <= times[j + 1]);
            }
        }
        trimmed_are_the_recent(times.drop_first(), now, window);
    } else {
        assert forall|i: int| 0 <= i < times.len() implies recent(
            #[trigger] times[i],
            now,
            window,
        ) by {
            assert(times[0] <= times[i]);
        }
        all_recent(times, now, window);
    }
}

proof fn none_recent(times: Seq<u64>, now: u64, window: u64)
    requires
        in_time(times, now),
        !active(times, now, window),
    ensures
        recent_count(times, now, window) == 0,
    decreases times.len(),
{
    if times.len() > 0 {
        let d = times.drop_last();
        assert(in_time(d, now)) by {
            assert forall|i: int, j: int| 0 <= i <= j < d.len() implies #[trigger] d[i]
                <= #[trigger] d[j] by {
                assert(times[i] <= times[j]);
            }
        }
        if d.len() > 0 {
            assert(times[d.len() - 1] <= times[times.len() - 1]);
        }
        none_recent(d, now, window);
    }
}

/// A request is let through exactly where fewer than the limit of requests by the
/// same sender have been let through within the window. When senders are
/// forgotten makes no difference.
pub proof fn limit_within_the_window(
    log: EventLogView,
    sender: Seq<char>,
    now: u64,
    config: RateLimitConfig,
)
    requires
        well_kept(log, now),
    ensures
        let_through(log, sender, now, config) <==> recent_count(
            times_of(log.events, sender),
            now,
            config.window_ns,
        ) < config.limit,
{
    let times = times_of(log.events, sender);
    assert(in_time(times, now));
    trimmed_are_the_recent(times, now, config.window_ns);
    let found = met(log, now, config.window_ns);
    if log.events.dom().contains(sender) && !found.dom().contains(sender) {
        none_recent(times, now, config.window_ns);
        assert(trimmed(seq![], now, config.window_ns).len() == 0);
    }
}

/// A request leaves the log well kept.
pub proof fn requests_keep_log(
    log: EventLogView,
    sender: Seq<char>,
    now: u64,
    config: RateLimitConfig,
)
    requires
        well_kept(log, now),
    ensures
        well_kept(after_request(log, sender, now, config), now),
{
    let after = after_request(log, sender, now, config);
    let found = met(log, now, config.window_ns);
    let times = times_of(found, sender);
    assert(in_time(times, now));
    trimmed_are_the_recent(times, now, config.window_ns);
    let left = trimmed(times, now, config.window_ns);
    assert(in_time(left.push(now), now)) by {
        let p = left.push(now);
        assert forall|i: int, j: int| 0 <= i <= j < p.len() implies #[trigger] p[i]
            <= #[trigger] p[j] by {
            if j < left.len() {
                assert(left[i] <= left[j]);
            } else if i < left.len() {
                assert(left[i] <= now);
            }
        }
    }
    assert forall|k: Seq<char>| #[trigger] after.events.dom().contains(k) implies in_time(
        after.events[k],
        now,
    ) by {
        if k != sender {
            assert(log.events.dom().contains(k));
        }
    }
}

/// A well kept log stays so as time passes.
pub proof fn time_keeps_log(log: EventLogView, now: u64, later: u64)
    requires
        well_kept(log, now),
        now <= later,
    ensures
        well_kept(log, later),
{
    assert forall|k: Seq<char>| #[trigger] log.events.dom().contains(k) implies in_time(
        log.events[k],
        later,
    ) by {
        assert(in_time(log.events[k], now));
    }
}

/// No more than the limit of requests by one sender are ever within a window.
pub proof fn never_beyond_the_limit(
    log: EventLogView,
    sender: Seq<char>,
    now: u64,
    config: RateLimitConfig,
)
    requires
        well_kept(log, now),
        recent_count(times_of(log.events, sender), now, config.window_ns) <= config.limit,
    ensures
        recent_count(
            times_of(after_request(log, sender, now, config).events, sender),
            now,
            config.window_ns,
        ) <= config.limit,
{
    let found = met(log, now, config.window_ns);
    let times = times_of(found, sender);
    let left = trimmed(times, now, config.window_ns);
    assert(in_time(times, now));
    trimmed_are_the_recent(times, now, config.window_ns);
    all_recent(left, now, config.window_ns);
    if let_through(log, sender, now, config) {
        assert(left.push(now).drop_last() =~= left);
    } else {
        trimmed_are_the_recent(times_of(log.events, sender), now, config.window_ns);
        if log.events.dom().contains(sender) && !found.dom().contains(sender) {
            assert(trimmed(seq![], now, config.window_ns).len() == 0);
        }
    }
}

/// A request of one sender leaves the verdict on every other as it was.
pub proof fn senders_are_independent(
    log: EventLogView,
    sender: Seq<char>,
    other: Seq<char>,
    now: u64,
    config: RateLimitConfig,
)
    requires
        well_kept(log, now),
        sender != other,
    ensures
        let_through(after_request(log, sender, now, config), other, now, config) == let_through(
            log,
            other,
            now,
            config,
        ),
{
    let after = after_request(log, sender, now, config);
    requests_keep_log(log, sender, now, config);
    limit_within_the_window(log, other, now, config);
    limit_within_the_window(after, other, now, config);
    let found = met(log, now, config.window_ns);
    if log.events.dom().contains(other) && !found.dom().contains(other) {
        none_recent(log.events[other], now, config.window_ns);
    }
}

/// A sweep forgets every sender that has not been active within the window, but
/// the one that asks.
pub proof fn sweep_forgets_the_inactive(
    log: EventLogView,
    sender: Seq<char>,
    other: Seq<char>,
    now: u64,
    config: RateLimitConfig,
)
    requires
        log.requests % SWEEP_EVERY == 0,
        sender != other,
        !active(times_of(log.events, other), now, config.window_ns),
    ensures
        !after_request(log, sender, now, config).events.dom().contains(other),
{
}

proof fn recent_count_is_filtered(times: Seq<u64>, now: u64, window: u64)
    ensures
        recent_count(times, now, window) == times.filter(|at: u64| now - at <= window).len(),
    decreases times.len(),
{
    reveal(Seq::filter);
    if times.len() > 0 {
        recent_count_is_filtered(times.drop_last(), now, window);
    }
}

/// A request is let through exactly where, of the times at which requests of the
/// same sender were let through, fewer than the limit lie no further back than the
/// length of the window.
pub proof fn fewer_than_the_limit_are_let_through(
    log: EventLogView,
    sender: Seq<char>,
    now: u64,
    config: RateLimitConfig,
)
    requires
        well_kept(log, now),
    ensures
        log.events.dom().contains(sender) ==> (let_through(log, sender, now, config)
            <==> log.events[sender].filter(|at: u64| now - at <= config.window_ns).len()
            < config.limit),
        !log.events.dom().contains(sender) ==> (let_through(log, sender, now, config) <==> 0
            < config.limit),
{
    limit_within_the_window(log, sender, now, config);
    recent_count_is_filtered(times_of(log.events, sender), now, config.window_ns);
}

/// What was let through is noted last, and what was refused is not noted. Of what
/// was noted before, what lies within the window stays, in its order.
pub proof fn let_through_is_noted(
    log: EventLogView,
    sender: Seq<char>,
    now: u64,
    config: RateLimitConfig,
)
    requires
        well_kept(log, now),
        log.events.dom().contains(sender),
    ensures
        ({
            let after = after_request(log, sender, now, config).events[sender];
            let kept = log.events[sender].filter(|at: u64| now - at <= config.window_ns);
            &&& after_request(log, sender, now, config).events.dom().contains(sender)
            &&& let_through(log, sender, now, config) ==> after == kept.push(now)
            &&& !let_through(log, sender, now, config) ==> after == kept
        }),
{
    let times = log.events[sender];
    trimmed_is_filtered(times, now, config.window_ns);
    let found = met(log, now, config.window_ns);
    if !found.dom().contains(sender) {
        none_recent(times, now, config.window_ns);
        trimmed_are_the_recent(times, now, config.window_ns);
        assert(trimmed(times, now, config.window_ns) =~= seq![]);
        assert(trimmed(seq![], now, config.window_ns) =~= seq![]);
    }
}

proof fn trimmed_is_filtered(times: Seq<u64>, now: u64, window: u64)
    requires
        in_time(times, now),
    ensures
        trimmed(times, now, window) == times.filter(|at: u64| now - at <= window),
    decreases times.len(),
{
    reveal(Seq::filter);
    if times.len() > 0 {
        let d = times.drop_last();
        assert(in_time(d, now)) by {
            assert forall|i: int, j: int| 0 <= i <= j < d.len() implies #[trigger] d[i]
                <= #[trigger] d[j] by {
                assert(times[i] <= times[j]);
            }
        }
        trimmed_is_filtered(d, now, window);
        trimmed_from_the_front(times, now, window);
    }
}

/// Trimming from the front and looking at the last time can be done in either order.
proof fn trimmed_from_the_front(times: Seq<u64>, now: u64, window: u64)
    requires
        in_time(times, now),
        times.len() > 0,
    ensures
        trimmed(times, now, window) == if recent(times.last(), now, window) {
            trimmed(times.drop_last(), now, window).push(times.last())
        } else {
            trimmed(times.drop_last(), now, window)
        },
    decreases times.len(),
{
    let d = times.drop_last();
    if !recent(times[0], now, window) {
        if times.len() == 1 {
            assert(times.drop_first() =~= seq![]);
            assert(d =~= seq![]);
        } else {
            let f = times.drop_first();
            assert(in_time(f, now)) by {
                assert forall|i: int, j: int| 0 <= i <= j < f.len() implies #[trigger] f[i]
                    <= #[trigger] f[j] by {
                    assert(times[i + 1] <= times[j + 1]);
                }
            }
            trimmed_from_the_front(f, now, window);
            assert(f.drop_last() =~= d.drop_first());
        }
    } else {
        assert(times[0] <= times[times.len() - 1]);
        assert(d.push(times.last()) =~= times);
        if d.len() > 0 {
            assert(d[0] == times[0]);
        }
    }
}

/// A request makes no difference to what lies within the window for any other
/// sender, and between two sweeps, which are 128 requests apart, to nothing of it.
pub proof fn others_keep_what_is_recent(
    log: EventLogView,
    sender: Seq<char>,
    other: Seq<char>,
    now: u64,
    config: RateLimitConfig,
)
    requires
        well_kept(log, now),
        sender != other,
        log.events.dom().contains(other),
    ensures
        ({
            let after = after_request(log, sender, now, config);
            &&& after.events.dom().contains(other) ==> after.events[other] == log.events[other]
            &&& !after.events.dom().contains(other) ==> log.requests % 128 == 0 && log.events[other]
                .filter(|at: u64| now - at <= config.window_ns).len() == 0
            &&& log.events[other].filter(|at: u64| now - at <= config.window_ns).len() == 0
                && log.requests % 128 == 0 ==> !after.events.dom().contains(other)
        }),
{
    let times = log.events[other];
    recent_count_is_filtered(times, now, config.window_ns);
    if !active(times, now, config.window_ns) {
        none_recent(times, now, config.window_ns);
    }
}

/// Every request counts towards the next sweep, whoever sends it and whether it is
/// let through or not.
pub proof fn requests_are_counted(
    log: EventLogView,
    sender: Seq<char>,
    now: u64,
    config: RateLimitConfig,
)
    ensures
        log.requests < u64::MAX ==> after_request(log, sender, now, config).requests
            == log.requests + 1,
        log.requests == u64::MAX ==> after_request(log, sender, now, config).requests == 0,
        after_request(log, sender, now, config).events.dom().contains(sender),
{
}

} // verus!
