//! Saturating arithmetic on signed integers.

use vstd::prelude::*;

verus! {

/// The integer, held within the range of an `i64`.
pub open spec fn clamp(i: int) -> int {
    if i < i64::MIN {
        i64::MIN as int
    } else if i > i64::MAX {
        i64::MAX as int
    } else {
        i
    }
}

/// The larger of two integers.
pub open spec fn larger(a: int, b: int) -> int {
    if a < b {
        b
    } else {
        a
    }
}

/// The sum, held within the range of the type.
pub fn saturating_sum(a: i64, b: i64) -> (r: i64)
    ensures
        r == clamp(a + b),
{
    match a.checked_add(b) {
        Some(sum) => sum,
        None => {
            if a < 0 {
                i64::MIN
            } else {
                i64::MAX
            }
        },
    }
}

/// The difference, held within the range of the type.
pub fn saturating_difference(a: i64, b: i64) -> (r: i64)
    ensures
        r == clamp(a - b),
{
    match a.checked_sub(b) {
        Some(difference) => difference,
        None => {
            if a < 0 {
                i64::MIN
            } else {
                i64::MAX
            }
        },
    }
}

/// The larger of two numbers.
pub fn max(a: i64, b: i64) -> (r: i64)
    ensures
        r == larger(a as int, b as int),
{
    if a < b {
        b
    } else {
        a
    }
}

/// What an `i64` can hold is kept, and all else becomes the nearest that it can.
pub proof fn clamp_is_nearest(i: int, other: i64)
    ensures
        i64::MIN <= clamp(i) <= i64::MAX,
        i <= clamp(i) ==> clamp(i) <= other || other < i,
        clamp(i) <= i ==> other <= clamp(i) || i < other,
        i64::MIN <= i <= i64::MAX ==> clamp(i) == i,
{
}

/// The larger of two integers is one of them, and no less than either.
pub proof fn larger_is_one_of_them(a: int, b: int)
    ensures
        larger(a, b) == a || larger(a, b) == b,
        larger(a, b) >= a,
        larger(a, b) >= b,
{
}

} // verus!
