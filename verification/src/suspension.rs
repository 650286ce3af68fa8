//! Time that a session spends suspended: the deadline of a wait that suspension
//! interrupts, and what holds of it.

use crate::arithmetic::{clamp, larger};
use vstd::prelude::*;

verus! {

/// Where unsuspended time of `remaining` ends that runs from `cur` on, with
/// pauses to come. A pause that starts before `from` is passed over. The run up
/// to the start of a pause is used up first, and time stands still until its
/// end; a pause that ends before it starts has no width.
pub open spec fn walk(intervals: Seq<(i64, i64)>, from: int, cur: int, remaining: int) -> int
    decreases intervals.len(),
{
    if intervals.len() == 0 {
        clamp(cur + remaining)
    } else {
        let (s, e) = intervals[0];
        let rest = intervals.drop_first();
        let run = larger(clamp(s - cur), 0);
        if s < from {
            walk(rest, from, cur, remaining)
        } else if run >= remaining {
            clamp(cur + remaining)
        } else {
            walk(rest, from, larger(larger(e as int, s as int), cur), clamp(remaining - run))
        }
    }
}

/// When `duration` of unsuspended time have passed since `from`, given the pauses
/// on record.
pub open spec fn deadline(intervals: Seq<(i64, i64)>, from: i64, duration: i64) -> int {
    walk(intervals, from as int, from as int, duration as int)
}

/// Whether the integer is an `i64`.
pub open spec fn in_range(i: int) -> bool {
    i64::MIN <= i <= i64::MAX
}

/// A walk ends no earlier than it would without any pause.
proof fn walk_no_earlier(intervals: Seq<(i64, i64)>, from: int, cur: int, remaining: int)
    requires
        in_range(cur),
        in_range(remaining),
    ensures
        walk(intervals, from, cur, remaining) >= clamp(cur + remaining),
        in_range(walk(intervals, from, cur, remaining)),
    decreases intervals.len(),
{
    if intervals.len() > 0 {
        let (s, e) = intervals[0];
        let rest = intervals.drop_first();
        let run = larger(clamp(s - cur), 0);
        if s < from {
            walk_no_earlier(rest, from, cur, remaining);
        } else if run < remaining {
            walk_no_earlier(
                rest,
                from,
                larger(larger(e as int, s as int), cur),
                clamp(remaining - run),
            );
        }
    }
}

/// A wait never ends before its time: the deadline is not before the duration
/// has passed on the clock.
pub proof fn deadline_not_before_duration(intervals: Seq<(i64, i64)>, from: i64, duration: i64)
    ensures
        deadline(intervals, from, duration) >= clamp(from + duration),
{
    walk_no_earlier(intervals, from as int, from as int, duration as int);
}

proof fn walk_grows(intervals: Seq<(i64, i64)>, from: int, cur: int, less: int, more: int)
    requires
        in_range(cur),
        in_range(less),
        in_range(more),
        less <= more,
    ensures
        walk(intervals, from, cur, less) <= walk(intervals, from, cur, more),
    decreases intervals.len(),
{
    if intervals.len() > 0 {
        let (s, e) = intervals[0];
        let rest = intervals.drop_first();
        let run = larger(clamp(s - cur), 0);
        let next = larger(larger(e as int, s as int), cur);
        if s < from {
            walk_grows(rest, from, cur, less, more);
        } else if run < less {
            walk_grows(rest, from, next, clamp(less - run), clamp(more - run));
        } else if run < more {
            walk_no_earlier(rest, from, next, clamp(more - run));
        }
    }
}

/// A longer wait never ends earlier, whatever the pauses.
pub proof fn longer_wait_ends_no_earlier(
    intervals: Seq<(i64, i64)>,
    from: i64,
    shorter: i64,
    longer: i64,
)
    requires
        shorter <= longer,
    ensures
        deadline(intervals, from, shorter) <= deadline(intervals, from, longer),
{
    walk_grows(intervals, from as int, from as int, shorter as int, longer as int);
}

/// How long the pauses that start at `from` or later last, each on its own.
pub open spec fn total_width(intervals: Seq<(i64, i64)>, from: int) -> int
    decreases intervals.len(),
{
    if intervals.len() == 0 {
        0
    } else {
        let (s, e) = intervals[0];
        total_width(intervals.drop_first(), from) + if s < from {
            0
        } else {
            larger(e - s, 0)
        }
    }
}

proof fn total_width_nonnegative(intervals: Seq<(i64, i64)>, from: int)
    ensures
        total_width(intervals, from) >= 0,
    decreases intervals.len(),
{
    if intervals.len() > 0 {
        total_width_nonnegative(intervals.drop_first(), from);
    }
}

proof fn walk_no_later(intervals: Seq<(i64, i64)>, from: int, cur: int, remaining: int)
    requires
        in_range(cur),
        in_range(remaining),
    ensures
        walk(intervals, from, cur, remaining) <= clamp(
            cur + remaining + total_width(intervals, from),
        ),
    decreases intervals.len(),
{
    total_width_nonnegative(intervals, from);
    if intervals.len() > 0 {
        let (s, e) = intervals[0];
        let rest = intervals.drop_first();
        let run = larger(clamp(s - cur), 0);
        total_width_nonnegative(rest, from);
        if s < from {
            walk_no_later(rest, from, cur, remaining);
        } else if run < remaining {
            walk_no_later(
                rest,
                from,
                larger(larger(e as int, s as int), cur),
                clamp(remaining - run),
            );
        }
    }
}

/// Pauses are never counted for more than they last: the deadline is put off by
/// their total width at most, however they overlap, nest or run backwards.
pub proof fn deadline_put_off_by_width_at_most(
    intervals: Seq<(i64, i64)>,
    from: i64,
    duration: i64,
)
    ensures
        deadline(intervals, from, duration) <= clamp(
            from + duration + total_width(intervals, from as int),
        ),
{
    walk_no_later(intervals, from as int, from as int, duration as int);
}

/// Whether the pauses stand in the order in which they began.
pub open spec fn by_start(intervals: Seq<(i64, i64)>) -> bool {
    forall|i: int, j: int|
        0 <= i < j < intervals.len() ==> (#[trigger] intervals[i]).0 <= (#[trigger] intervals[j]).0
}

proof fn by_start_rest(intervals: Seq<(i64, i64)>)
    requires
        by_start(intervals),
        intervals.len() > 0,
    ensures
        by_start(intervals.drop_first()),
        forall|j: int|
            0 <= j < intervals.drop_first().len() ==> intervals[0].0 <= (
            #[trigger] intervals.drop_first()[j]).0,
{
    let rest = intervals.drop_first();
    assert forall|i: int, j: int| 0 <= i < j < rest.len() implies (#[trigger] rest[i]).0 <= (
    #[trigger] rest[j]).0 by {
        assert(intervals[i + 1].0 <= intervals[j + 1].0);
    }
    assert forall|j: int| 0 <= j < rest.len() implies intervals[0].0 <= (#[trigger] rest[j]).0 by {
        assert(intervals[0].0 <= intervals[j + 1].0);
    }
}

/// A walk that has less left, by the time `low` that all pauses to come start
/// after, ends no later.
proof fn walk_monotone(
    intervals: Seq<(i64, i64)>,
    from: int,
    low: int,
    cur1: int,
    rem1: int,
    cur2: int,
    rem2: int,
)
    requires
        by_start(intervals),
        forall|j: int| 0 <= j < intervals.len() ==> low <= (#[trigger] intervals[j]).0,
        from <= low,
        in_range(cur1),
        in_range(rem1),
        in_range(cur2),
        in_range(rem2),
        cur1 <= cur2,
        low <= cur2,
        rem2 > 0,
        rem2 >= rem1 - larger(low - cur1, 0),
    ensures
        walk(intervals, from, cur1, rem1) <= walk(intervals, from, cur2, rem2),
    decreases intervals.len(),
{
    walk_no_earlier(intervals, from, cur2, rem2);
    if intervals.len() > 0 {
        let (s, e) = intervals[0];
        let rest = intervals.drop_first();
        by_start_rest(intervals);
        let run1 = larger(clamp(s - cur1), 0);
        let run2 = larger(clamp(s - cur2), 0);
        if run1 < rem1 && run2 < rem2 {
            walk_monotone(
                rest,
                from,
                s as int,
                larger(larger(e as int, s as int), cur1),
                clamp(rem1 - run1),
                larger(larger(e as int, s as int), cur2),
                clamp(rem2 - run2),
            );
        }
    }
}

proof fn walk_without(intervals: Seq<(i64, i64)>, from: int, cur: int, remaining: int, k: int)
    requires
        by_start(intervals),
        in_range(cur),
        in_range(remaining),
        0 <= k < intervals.len(),
    ensures
        walk(intervals.remove(k), from, cur, remaining) <= walk(intervals, from, cur, remaining),
    decreases intervals.len(),
{
    let (s, e) = intervals[0];
    let rest = intervals.drop_first();
    let less = intervals.remove(k);
    by_start_rest(intervals);
    let run = larger(clamp(s - cur), 0);
    if k == 0 {
        assert(less =~= rest);
        if s >= from {
            if run < remaining {
                walk_monotone(
                    rest,
                    from,
                    s as int,
                    cur,
                    remaining,
                    larger(larger(e as int, s as int), cur),
                    clamp(remaining - run),
                );
            } else {
                walk_stops(rest, from, cur, remaining, s as int);
            }
        }
    } else {
        assert(less[0] == intervals[0]);
        assert(less.drop_first() =~= rest.remove(k - 1));
        if s < from {
            walk_without(rest, from, cur, remaining, k - 1);
        } else if run < remaining {
            walk_without(
                rest,
                from,
                larger(larger(e as int, s as int), cur),
                clamp(remaining - run),
                k - 1,
            );
        }
    }
}

/// A walk that is over before any pause begins.
proof fn walk_stops(intervals: Seq<(i64, i64)>, from: int, cur: int, remaining: int, low: int)
    requires
        forall|j: int| 0 <= j < intervals.len() ==> low <= (#[trigger] intervals[j]).0,
        from <= low,
        in_range(cur),
        in_range(remaining),
        in_range(low),
        larger(clamp(low - cur), 0) >= remaining,
    ensures
        walk(intervals, from, cur, remaining) == clamp(cur + remaining),
{
}

/// A pause that is missing from the record can only make the deadline earlier,
/// where the pauses stand in the order in which they began.
pub proof fn missing_pause_moves_deadline_earlier(
    intervals: Seq<(i64, i64)>,
    from: i64,
    duration: i64,
    k: int,
)
    requires
        by_start(intervals),
        0 <= k < intervals.len(),
    ensures
        deadline(intervals.remove(k), from, duration) <= deadline(intervals, from, duration),
{
    walk_without(intervals, from as int, from as int, duration as int, k);
}

proof fn walk_push(
    intervals: Seq<(i64, i64)>,
    from: int,
    cur: int,
    remaining: int,
    next: (i64, i64),
)
    requires
        in_range(cur),
        in_range(remaining),
        next.0 >= walk(intervals, from, cur, remaining),
    ensures
        walk(intervals.push(next), from, cur, remaining) == walk(
            intervals,
            from,
            cur,
            remaining,
        ),
    decreases intervals.len(),
{
    let more = intervals.push(next);
    if intervals.len() == 0 {
        reveal_with_fuel(walk, 2);
    } else {
        let (s, e) = intervals[0];
        let rest = intervals.drop_first();
        let run = larger(clamp(s - cur), 0);
        assert(more[0] == intervals[0]);
        assert(more.drop_first() =~= rest.push(next));
        if s < from {
            walk_push(rest, from, cur, remaining, next);
        } else if run < remaining {
            walk_push(
                rest,
                from,
                larger(larger(e as int, s as int), cur),
                clamp(remaining - run),
                next,
            );
        }
    }
}

/// A pause that begins at the deadline or behind it does not change it: the
/// deadline does not depend on when it is asked for.
pub proof fn later_pause_leaves_deadline(
    intervals: Seq<(i64, i64)>,
    from: i64,
    duration: i64,
    next: (i64, i64),
)
    requires
        next.0 >= deadline(intervals, from, duration),
    ensures
        deadline(intervals.push(next), from, duration) == deadline(intervals, from, duration),
{
    walk_push(intervals, from as int, from as int, duration as int, next);
}

/// Whether the pauses follow one another: each ends no earlier than it starts,
/// and before the next one starts.
pub open spec fn in_succession(intervals: Seq<(i64, i64)>) -> bool {
    &&& forall|i: int| 0 <= i < intervals.len() ==> (#[trigger] intervals[i]).0 <= intervals[i].1
    &&& forall|i: int, j: int|
        0 <= i < j < intervals.len() ==> (#[trigger] intervals[i]).1 <= (#[trigger] intervals[j]).0
}

/// How much of the time from `from` to `until` was suspended.
pub open spec fn suspended_within(intervals: Seq<(i64, i64)>, from: int, until: int) -> int
    decreases intervals.len(),
{
    if intervals.len() == 0 {
        0
    } else {
        let (s, e) = intervals[0];
        let end = if e < until {
            e as int
        } else {
            until
        };
        suspended_within(intervals.drop_first(), from, until) + if s < from {
            0
        } else {
            larger(end - s, 0)
        }
    }
}

proof fn suspended_within_bounds(intervals: Seq<(i64, i64)>, from: int, until: int)
    ensures
        suspended_within(intervals, from, until) >= 0,
        (forall|j: int| 0 <= j < intervals.len() ==> until <= (#[trigger] intervals[j]).0)
            ==> suspended_within(intervals, from, until) == 0,
    decreases intervals.len(),
{
    if intervals.len() > 0 {
        let rest = intervals.drop_first();
        suspended_within_bounds(rest, from, until);
        if forall|j: int| 0 <= j < intervals.len() ==> until <= (#[trigger] intervals[j]).0 {
            assert(until <= intervals[0].0);
            assert forall|j: int| 0 <= j < rest.len() implies until <= (#[trigger] rest[j]).0 by {
                assert(until <= intervals[j + 1].0);
            }
        }
    }
}

/// The walk over pauses that follow one another.
proof fn walk_exact(intervals: Seq<(i64, i64)>, from: int, cur: int, remaining: int)
    requires
        in_succession(intervals),
        forall|j: int|
            0 <= j < intervals.len() && (#[trigger] intervals[j]).0 >= from ==> cur
                <= intervals[j].0,
        from <= cur,
        in_range(cur),
        0 <= remaining <= i64::MAX,
        walk(intervals, from, cur, remaining) < i64::MAX,
    ensures
        ({
            let t = walk(intervals, from, cur, remaining);
            &&& t >= cur
            &&& t - cur - suspended_within(intervals, from, t) == remaining
            &&& forall|u: int|
                cur <= u < t ==> u - cur - #[trigger] suspended_within(intervals, from, u)
                    < remaining
        }),
    decreases intervals.len(),
{
    let t = walk(intervals, from, cur, remaining);
    walk_no_earlier(intervals, from, cur, remaining);
    if intervals.len() > 0 {
        let (s, e) = intervals[0];
        let rest = intervals.drop_first();
        assert(s <= e);
        assert forall|i: int| 0 <= i < rest.len() implies (#[trigger] rest[i]).0 <= rest[i].1 && e
            <= rest[i].0 by {
            assert(intervals[i + 1].0 <= intervals[i + 1].1);
            assert(intervals[0].1 <= intervals[i + 1].0);
        }
        assert forall|i: int, j: int| 0 <= i < j < rest.len() implies (#[trigger] rest[i]).1 <= (
        #[trigger] rest[j]).0 by {
            assert(intervals[i + 1].1 <= intervals[j + 1].0);
        }
        if s < from {
            assert forall|j: int| 0 <= j < rest.len() && (#[trigger] rest[j]).0 >= from implies cur
                <= rest[j].0 by {
                assert(intervals[j + 1].0 >= from);
            }
            walk_exact(rest, from, cur, remaining);
            assert forall|u: int| cur <= u < t implies u - cur - #[trigger] suspended_within(
                intervals,
                from,
                u,
            ) < remaining by {
                assert(u - cur - suspended_within(rest, from, u) < remaining);
            }
        } else {
            let run = s - cur;
            assert(cur <= s);
            if run >= remaining {
                assert forall|u: int| cur <= u <= t implies #[trigger] suspended_within(
                    intervals,
                    from,
                    u,
                ) == 0 by {
                    suspended_within_bounds(rest, from, u);
                }
            } else {
                walk_exact(rest, from, e as int, remaining - run);
                assert forall|u: int| cur <= u < t implies u - cur - #[trigger] suspended_within(
                    intervals,
                    from,
                    u,
                ) < remaining by {
                    suspended_within_bounds(rest, from, u);
                    if u >= e {
                        assert(u - e - suspended_within(rest, from, u) < remaining - run);
                    }
                }
            }
        }
    }
}

/// For pauses that follow one another, the deadline is the earliest time by which
/// `duration` have passed that were not suspended.
pub proof fn deadline_is_earliest(intervals: Seq<(i64, i64)>, from: i64, duration: i64)
    requires
        in_succession(intervals),
        duration >= 0,
        deadline(intervals, from, duration) < i64::MAX,
    ensures
        ({
            let t = deadline(intervals, from, duration);
            &&& t - from - suspended_within(intervals, from as int, t) == duration
            &&& forall|u: int|
                from <= u < t ==> u - from - #[trigger] suspended_within(intervals, from as int, u)
                    < duration
        }),
{
    walk_exact(intervals, from as int, from as int, duration as int);
}

/// A walk that uses up its time until all pauses to come begin.
proof fn walk_shift(intervals: Seq<(i64, i64)>, from: int, cur: int, remaining: int, low: int)
    requires
        forall|j: int| 0 <= j < intervals.len() ==> low <= (#[trigger] intervals[j]).0,
        0 <= from <= low,
        0 <= cur <= low,
        in_range(low),
        low - cur < remaining,
        in_range(remaining),
    ensures
        walk(intervals, from, cur, remaining) == walk(
            intervals,
            from,
            low,
            remaining - (low - cur),
        ),
{
    if intervals.len() > 0 {
        assert(low <= intervals[0].0);
    }
}

proof fn walk_without_empty(
    intervals: Seq<(i64, i64)>,
    from: int,
    cur: int,
    remaining: int,
    k: int,
)
    requires
        by_start(intervals),
        0 <= from <= cur,
        in_range(cur),
        in_range(remaining),
        0 <= k < intervals.len(),
        intervals[k].1 <= intervals[k].0,
    ensures
        walk(intervals.remove(k), from, cur, remaining) == walk(intervals, from, cur, remaining),
    decreases intervals.len(),
{
    let (s, e) = intervals[0];
    let rest = intervals.drop_first();
    let less = intervals.remove(k);
    by_start_rest(intervals);
    let run = larger(clamp(s - cur), 0);
    let next = larger(larger(e as int, s as int), cur);
    if k == 0 {
        assert(less =~= rest);
        if s >= from {
            if run < remaining {
                if s >= cur {
                    walk_shift(rest, from, cur, remaining, s as int);
                }
            } else {
                walk_stops(rest, from, cur, remaining, s as int);
            }
        }
    } else {
        assert(less[0] == intervals[0]);
        assert(less.drop_first() =~= rest.remove(k - 1));
        if s < from {
            walk_without_empty(rest, from, cur, remaining, k - 1);
        } else if run < remaining {
            walk_without_empty(rest, from, next, clamp(remaining - run), k - 1);
        }
    }
}

/// A pause that ends when it begins, or before that, is no pause: without it the
/// deadline is the same.
pub proof fn pauses_without_width_change_nothing(
    intervals: Seq<(i64, i64)>,
    from: i64,
    duration: i64,
    k: int,
)
    requires
        by_start(intervals),
        from >= 0,
        0 <= k < intervals.len(),
        intervals[k].1 <= intervals[k].0,
    ensures
        deadline(intervals.remove(k), from, duration) == deadline(intervals, from, duration),
{
    walk_without_empty(intervals, from as int, from as int, duration as int, k);
}

proof fn walk_merged(intervals: Seq<(i64, i64)>, from: int, cur: int, remaining: int, k: int)
    requires
        in_range(cur),
        in_range(remaining),
        0 <= k < intervals.len() - 1,
        from <= intervals[k].0 <= intervals[k + 1].0 <= intervals[k].1,
    ensures
        ({
            let end = if intervals[k].1 < intervals[k + 1].1 {
                intervals[k + 1].1
            } else {
                intervals[k].1
            };
            walk(
                intervals.remove(k + 1).update(k, (intervals[k].0, end)),
                from,
                cur,
                remaining,
            ) == walk(intervals, from, cur, remaining)
        }),
    decreases intervals.len(),
{
    let (s, e) = intervals[0];
    let rest = intervals.drop_first();
    let run = larger(clamp(s - cur), 0);
    let end = if intervals[k].1 < intervals[k + 1].1 {
        intervals[k + 1].1
    } else {
        intervals[k].1
    };
    let merged = intervals.remove(k + 1).update(k, (intervals[k].0, end));
    if k == 0 {
        reveal_with_fuel(walk, 3);
        assert(merged.drop_first() =~= rest.drop_first());
        assert(rest[0] == intervals[1]);
    } else {
        assert(merged[0] == intervals[0]);
        assert(merged.drop_first() =~= rest.remove(k).update(k - 1, (rest[k - 1].0, end)));
        if s < from {
            walk_merged(rest, from, cur, remaining, k - 1);
        } else if run < remaining {
            walk_merged(
                rest,
                from,
                larger(larger(e as int, s as int), cur),
                clamp(remaining - run),
                k - 1,
            );
        }
    }
}

/// A pause that begins before the one recorded ahead of it is over goes on with it:
/// the two count as one, from the beginning of the one to the later of the two ends.
/// In particular one that lies within the other counts for nothing.
pub proof fn overlapping_pauses_count_as_one(
    intervals: Seq<(i64, i64)>,
    from: i64,
    duration: i64,
    k: int,
)
    requires
        0 <= k < intervals.len() - 1,
        from <= intervals[k].0 <= intervals[k + 1].0 <= intervals[k].1,
    ensures
        ({
            let end = if intervals[k].1 < intervals[k + 1].1 {
                intervals[k + 1].1
            } else {
                intervals[k].1
            };
            deadline(
                intervals.remove(k + 1).update(k, (intervals[k].0, end)),
                from,
                duration,
            ) == deadline(intervals, from, duration)
        }),
{
    walk_merged(intervals, from as int, from as int, duration as int, k);
}

proof fn walk_passes_over(
    intervals: Seq<(i64, i64)>,
    from: int,
    cur: int,
    remaining: int,
    k: int,
)
    requires
        0 <= k < intervals.len(),
        intervals[k].0 < from,
    ensures
        walk(intervals.remove(k), from, cur, remaining) == walk(intervals, from, cur, remaining),
    decreases intervals.len(),
{
    let (s, e) = intervals[0];
    let rest = intervals.drop_first();
    let less = intervals.remove(k);
    let run = larger(clamp(s - cur), 0);
    if k == 0 {
        assert(less =~= rest);
    } else {
        assert(less[0] == intervals[0]);
        assert(less.drop_first() =~= rest.remove(k - 1));
        if s < from {
            walk_passes_over(rest, from, cur, remaining, k - 1);
        } else if run < remaining {
            walk_passes_over(
                rest,
                from,
                larger(larger(e as int, s as int), cur),
                clamp(remaining - run),
                k - 1,
            );
        }
    }
}

/// A pause that began before the wait makes no difference to it, whenever it ended.
pub proof fn earlier_pauses_make_no_difference(
    intervals: Seq<(i64, i64)>,
    from: i64,
    duration: i64,
    k: int,
)
    requires
        0 <= k < intervals.len(),
        intervals[k].0 < from,
    ensures
        deadline(intervals.remove(k), from, duration) == deadline(intervals, from, duration),
{
    walk_passes_over(intervals, from as int, from as int, duration as int, k);
}

/// Without pauses a wait is over when its duration has passed.
pub proof fn no_pause_puts_nothing_off(from: i64, duration: i64)
    requires
        i64::MIN <= from + duration <= i64::MAX,
    ensures
        deadline(Seq::empty(), from, duration) == from + duration,
{
}

} // verus!
