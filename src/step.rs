//! The brightness step policy: one step is five percent of the maximum,
//! and a decrease never goes below one percent of the maximum.
use vstd::prelude::*;

verus! {

/// Value after one increase: `min(max, current + max / 20)`.
pub open spec fn increased(max: int, current: int) -> int {
    if current + max / 20 <= max {
        current + max / 20
    } else {
        max
    }
}

/// Value after one decrease: `max(max / 100, current - max / 20)`.
pub open spec fn decreased(max: int, current: int) -> int {
    if current - max / 20 >= max / 100 {
        current - max / 20
    } else {
        max / 100
    }
}

/// Raises `current` by five percent of `max`, clamped to `max`.
pub fn increase(max: u32, current: u32) -> (r: u32)
    ensures
        r == increased(max as int, current as int),
        r <= max,
{
    let step: u32 = max / 20;
    if current <= max - step {
        current + step
    } else {
        max
    }
}

/// Lowers `current` by five percent of `max`, clamped below to one percent
/// of `max`.
pub fn decrease(max: u32, current: u32) -> (r: u32)
    ensures
        r == decreased(max as int, current as int),
        max / 100 <= r,
        current <= max ==> r <= max,
{
    let step: u32 = max / 20;
    let floor: u32 = max / 100;
    if current >= step && current - step >= floor {
        current - step
    } else {
        floor
    }
}

/// Value after `n` increases in a row, starting from `current`.
pub open spec fn increased_times(max: int, current: int, n: nat) -> int
    decreases n,
{
    if n == 0 {
        current
    } else {
        increased_times(max, increased(max, current), (n - 1) as nat)
    }
}

/// Value after `n` decreases in a row, starting from `current`.
pub open spec fn decreased_times(max: int, current: int, n: nat) -> int
    decreases n,
{
    if n == 0 {
        current
    } else {
        decreased_times(max, decreased(max, current), (n - 1) as nat)
    }
}

/// An increase at the maximum leaves it there.
proof fn lemma_increased_times_at_max(max: int, n: nat)
    requires
        0 <= max,
    ensures
        increased_times(max, max, n) == max,
    decreases n,
{
    if n > 0 {
        lemma_increased_times_at_max(max, (n - 1) as nat);
    }
}

/// A decrease at the floor leaves it there.
proof fn lemma_decreased_times_at_floor(max: int, n: nat)
    requires
        0 <= max,
    ensures
        decreased_times(max, max / 100, n) == max / 100,
    decreases n,
{
    if n > 0 {
        lemma_decreased_times_at_floor(max, (n - 1) as nat);
    }
}

/// Repeated increases settle on the maximum: once the step is at least one
/// (a maximum of 20 or more), `max - current` increases from any value in
/// `[0, max]` reach exactly `max`, and an increase at `max` changes nothing.
pub proof fn lemma_increase_settles(max: int, current: int, n: nat)
    requires
        20 <= max,
        0 <= current <= max,
        n >= max - current,
    ensures
        increased_times(max, current, n) == max,
        increased(max, max) == max,
    decreases n,
{
    if current == max {
        lemma_increased_times_at_max(max, n);
    } else {
        let next = increased(max, current);
        assert(current < next <= max);
        lemma_increase_settles(max, next, (n - 1) as nat);
    }
}

/// Repeated decreases settle on the floor: once the step is at least one
/// (a maximum of 20 or more), `current - max / 100` decreases, and at least
/// one, from any value in `[0, max]` reach exactly `max / 100`, and a
/// decrease at `max / 100` changes nothing.
pub proof fn lemma_decrease_settles(max: int, current: int, n: nat)
    requires
        20 <= max,
        0 <= current <= max,
        n >= current - max / 100,
        n >= 1,
    ensures
        decreased_times(max, current, n) == max / 100,
        decreased(max, max / 100) == max / 100,
    decreases n,
{
    if current == max / 100 {
        lemma_decreased_times_at_floor(max, n);
    } else {
        let next = decreased(max, current);
        if next == max / 100 {
            lemma_decreased_times_at_floor(max, (n - 1) as nat);
        } else {
            lemma_decrease_settles(max, next, (n - 1) as nat);
        }
    }
}

} // verus!
