//! Circular rotation over the enabled positions of a list of flags.

use vstd::arithmetic::div_mod::{
    lemma_add_mod_noop, lemma_mod_add_multiples_vanish, lemma_mod_self_0, lemma_mod_twice,
    lemma_small_mod,
};
use vstd::prelude::*;

verus! {

/// The position reached from `current` by looking `step`, `step + 1`, ...
/// places ahead, wrapping round, for the first one that is enabled. A whole
/// round without one ends where it began.
pub open spec fn scan_forward(flags: Seq<bool>, current: int, step: int) -> int
    decreases flags.len() - step,
{
    if step >= flags.len() {
        current
    } else if flags[(current + step) % (flags.len() as int)] {
        (current + step) % (flags.len() as int)
    } else {
        scan_forward(flags, current, step + 1)
    }
}

/// The same, looking back.
pub open spec fn scan_backward(flags: Seq<bool>, current: int, step: int) -> int
    decreases flags.len() - step,
{
    if step >= flags.len() {
        current
    } else if flags[(current - step) % (flags.len() as int)] {
        (current - step) % (flags.len() as int)
    } else {
        scan_backward(flags, current, step + 1)
    }
}

/// The next enabled position after `current`, wrapping round; `current`
/// itself where no other position is enabled.
pub open spec fn next_enabled(flags: Seq<bool>, current: int) -> int {
    scan_forward(flags, current, 1)
}

/// The enabled position before `current`, wrapping round; `current` itself
/// where no other position is enabled.
pub open spec fn previous_enabled(flags: Seq<bool>, current: int) -> int {
    scan_backward(flags, current, 1)
}

/// The first enabled position at or after `from`, or none.
pub open spec fn first_enabled(flags: Seq<bool>, from: int) -> Option<int>
    decreases flags.len() - from,
{
    if from < 0 || from >= flags.len() {
        None
    } else if flags[from] {
        Some(from)
    } else {
        first_enabled(flags, from + 1)
    }
}

/// How many positions from `from` up to, not including, `to` are enabled.
pub open spec fn count_enabled(flags: Seq<bool>, from: int, to: int) -> nat
    decreases to - from,
{
    if to <= from {
        0
    } else if flags[to - 1] {
        1 + count_enabled(flags, from, to - 1)
    } else {
        count_enabled(flags, from, to - 1)
    }
}

/// How many positions are enabled.
pub open spec fn enabled_total(flags: Seq<bool>) -> nat {
    count_enabled(flags, 0, flags.len() as int)
}

/// The position reached from `current` by going to the next enabled
/// position `times` times.
pub open spec fn rotate(flags: Seq<bool>, current: int, times: nat) -> int
    decreases times,
{
    if times == 0 {
        current
    } else {
        next_enabled(flags, rotate(flags, current, (times - 1) as nat))
    }
}

/// Finds the next enabled position after `current`.
pub fn find_next_enabled(flags: &Vec<bool>, current: usize) -> (next: usize)
    requires
        current < flags@.len(),
    ensures
        next == next_enabled(flags@, current as int),
        next < flags@.len(),
{
    let len = flags.len();
    let mut index = current;
    let mut step: usize = 1;
    assert(current as int % (len as int) == current) by {
        vstd::arithmetic::div_mod::lemma_small_mod(current as nat, len as nat);
    }
    while step < len
        invariant
            len == flags@.len(),
            current < len,
            1 <= step <= len,
            index == (current + step - 1) % (len as int),
            next_enabled(flags@, current as int) == scan_forward(flags@, current as int, step as int),
        decreases len - step,
    {
        index = if index + 1 == len {
            0
        } else {
            index + 1
        };
        assert(index == (current + step) % (len as int)) by {
            lemma_step_forward(current as int, step as int, len as int);
        }
        if flags[index] {
            return index;
        }
        step = step + 1;
    }
    current
}

/// Finds the enabled position before `current`.
pub fn find_previous_enabled(flags: &Vec<bool>, current: usize) -> (previous: usize)
    requires
        current < flags@.len(),
    ensures
        previous == previous_enabled(flags@, current as int),
        previous < flags@.len(),
{
    let len = flags.len();
    let mut index = current;
    let mut step: usize = 1;
    assert(current as int % (len as int) == current) by {
        vstd::arithmetic::div_mod::lemma_small_mod(current as nat, len as nat);
    }
    while step < len
        invariant
            len == flags@.len(),
            current < len,
            1 <= step <= len,
            index == (current - (step - 1)) % (len as int),
            previous_enabled(flags@, current as int) == scan_backward(
                flags@,
                current as int,
                step as int,
            ),
        decreases len - step,
    {
        index = if index == 0 {
            len - 1
        } else {
            index - 1
        };
        assert(index == (current - step) % (len as int)) by {
            lemma_step_backward(current as int, step as int, len as int);
        }
        if flags[index] {
            return index;
        }
        step = step + 1;
    }
    current
}

/// Finds the first enabled position.
pub fn find_first_enabled(flags: &Vec<bool>) -> (first: Option<usize>)
    ensures
        match first {
            Some(index) => first_enabled(flags@, 0) == Some(index as int) && index < flags@.len(),
            None => first_enabled(flags@, 0) is None,
        },
{
    let mut index: usize = 0;
    while index < flags.len()
        invariant
            first_enabled(flags@, 0) == first_enabled(flags@, index as int),
        decreases flags@.len() - index,
    {
        if flags[index] {
            return Some(index);
        }
        index = index + 1;
    }
    None
}

proof fn lemma_step_forward(current: int, step: int, len: int)
    requires
        0 <= current < len,
        1 <= step,
    ensures
        (current + step) % len == if (current + step - 1) % len + 1 == len {
            0
        } else {
            (current + step - 1) % len + 1
        },
{
    let before = current + step - 1;
    assert(before == len * (before / len) + before % len) by (nonlinear_arith)
        requires
            len > 0,
    ;
    if before % len + 1 == len {
        assert((before + 1) % len == 0) by (nonlinear_arith)
            requires
                len > 0,
                before == len * (before / len) + before % len,
                before % len + 1 == len,
        ;
    } else {
        assert((before + 1) % len == before % len + 1) by (nonlinear_arith)
            requires
                len > 0,
                before == len * (before / len) + before % len,
                0 <= before % len,
                before % len + 1 < len,
        ;
    }
}

proof fn lemma_step_backward(current: int, step: int, len: int)
    requires
        0 <= current < len,
        1 <= step,
    ensures
        (current - step) % len == if (current - (step - 1)) % len == 0 {
            len - 1
        } else {
            (current - (step - 1)) % len - 1
        },
{
    let before = current - (step - 1);
    assert(before == len * (before / len) + before % len && 0 <= before % len < len)
        by (nonlinear_arith)
        requires
            len > 0,
    ;
    if before % len == 0 {
        assert((before - 1) % len == len - 1) by (nonlinear_arith)
            requires
                len > 0,
                before == len * (before / len) + before % len,
                before % len == 0,
        ;
    } else {
        assert((before - 1) % len == before % len - 1) by (nonlinear_arith)
            requires
                len > 0,
                before == len * (before / len) + before % len,
                0 < before % len < len,
        ;
    }
}

/// Going `step` places ahead of `current` on a ring of `len` places.
proof fn lemma_wrap(current: int, step: int, len: int)
    requires
        0 <= current < len,
        0 <= step <= len,
    ensures
        (current + step) % len == if current + step < len {
            current + step
        } else {
            current + step - len
        },
{
    if current + step < len {
        lemma_small_mod((current + step) as nat, len as nat);
    } else {
        lemma_small_mod((current + step - len) as nat, len as nat);
        lemma_mod_add_multiples_vanish(current + step - len, len);
    }
}

/// How far `scan_forward` gets: the number of places ahead of `current` at
/// which it stops. No place that it passed is enabled, and it stops short
/// of a whole round only at an enabled one.
proof fn lemma_scan_forward(flags: Seq<bool>, current: int, step: int) -> (reach: int)
    requires
        0 <= current < flags.len(),
        1 <= step <= flags.len(),
    ensures
        step <= reach <= flags.len(),
        scan_forward(flags, current, step) == (current + reach) % (flags.len() as int),
        forall|j: int| step <= j < reach ==> !flags[#[trigger] ((current + j) % (flags.len() as int))],
        reach < flags.len() ==> flags[(current + reach) % (flags.len() as int)],
    decreases flags.len() - step,
{
    let len = flags.len() as int;
    if step >= len {
        lemma_wrap(current, len, len);
        len
    } else if flags[(current + step) % len] {
        step
    } else {
        lemma_scan_forward(flags, current, step + 1)
    }
}

/// The next enabled position is enabled wherever any position is, and no
/// position that the rotation skips on its way there is.
pub proof fn lemma_next_enabled_skips_disabled(flags: Seq<bool>, current: int)
    requires
        0 <= current < flags.len(),
    ensures
        0 <= next_enabled(flags, current) < flags.len(),
        (exists|i: int| 0 <= i < flags.len() && flags[i]) ==> flags[next_enabled(flags, current)],
        forall|i: int|
            current < i < flags.len() && (next_enabled(flags, current) <= current || i
                < next_enabled(flags, current)) ==> !#[trigger] flags[i],
        forall|i: int|
            0 <= i < next_enabled(flags, current) <= current ==> !#[trigger] flags[i],
{
    let len = flags.len() as int;
    let reach = lemma_scan_forward(flags, current, 1);
    let next = next_enabled(flags, current);
    lemma_wrap(current, reach, len);
    assert forall|i: int| current < i < len && (next <= current || i < next) implies !flags[i] by {
        lemma_wrap(current, i - current, len);
    }
    assert forall|i: int| 0 <= i < next <= current implies !flags[i] by {
        lemma_wrap(current, i - current + len, len);
    }
    if exists|i: int| 0 <= i < len && flags[i] {
        let i = choose|i: int| 0 <= i < len && flags[i];
        if reach == len {
            if i > current {
                lemma_wrap(current, i - current, len);
            } else if i < current {
                lemma_wrap(current, i - current + len, len);
            }
        }
    }
}

/// Going `step` places back from `current` on a ring of `len` places.
proof fn lemma_wrap_back(current: int, step: int, len: int)
    requires
        0 <= current < len,
        0 <= step <= len,
    ensures
        (current - step) % len == if current - step >= 0 {
            current - step
        } else {
            current - step + len
        },
{
    if current - step >= 0 {
        lemma_small_mod((current - step) as nat, len as nat);
    } else {
        lemma_small_mod((current - step + len) as nat, len as nat);
        lemma_mod_add_multiples_vanish(current - step, len);
    }
}

/// How far `scan_backward` gets, as `lemma_scan_forward` has it for the
/// other direction.
proof fn lemma_scan_backward(flags: Seq<bool>, current: int, step: int) -> (reach: int)
    requires
        0 <= current < flags.len(),
        1 <= step <= flags.len(),
    ensures
        step <= reach <= flags.len(),
        scan_backward(flags, current, step) == (current - reach) % (flags.len() as int),
        forall|j: int| step <= j < reach ==> !flags[#[trigger] ((current - j) % (flags.len() as int))],
        reach < flags.len() ==> flags[(current - reach) % (flags.len() as int)],
    decreases flags.len() - step,
{
    let len = flags.len() as int;
    if step >= len {
        lemma_wrap_back(current, len, len);
        len
    } else if flags[(current - step) % len] {
        step
    } else {
        lemma_scan_backward(flags, current, step + 1)
    }
}

/// The enabled position before is enabled wherever any position is, and
/// no position that the rotation skips on its way back there is.
pub proof fn lemma_previous_enabled_skips_disabled(flags: Seq<bool>, current: int)
    requires
        0 <= current < flags.len(),
    ensures
        0 <= previous_enabled(flags, current) < flags.len(),
        (exists|i: int| 0 <= i < flags.len() && flags[i]) ==> flags[previous_enabled(
            flags,
            current,
        )],
        forall|i: int|
            0 <= i < current && (previous_enabled(flags, current) >= current
                || previous_enabled(flags, current) < i) ==> !#[trigger] flags[i],
        forall|i: int|
            current <= previous_enabled(flags, current) < i < flags.len() ==> !#[trigger] flags[i],
{
    let len = flags.len() as int;
    let reach = lemma_scan_backward(flags, current, 1);
    let previous = previous_enabled(flags, current);
    lemma_wrap_back(current, reach, len);
    assert forall|i: int| 0 <= i < current && (previous >= current || previous < i) implies !flags[i] by {
        lemma_wrap_back(current, current - i, len);
    }
    assert forall|i: int| current <= previous < i < len implies !flags[i] by {
        lemma_wrap_back(current, current - i + len, len);
    }
    if exists|i: int| 0 <= i < len && flags[i] {
        let i = choose|i: int| 0 <= i < len && flags[i];
        if reach == len {
            if i < current {
                lemma_wrap_back(current, current - i, len);
            } else if i > current {
                lemma_wrap_back(current, current - i + len, len);
            }
        }
    }
}

/// What `first_enabled` finds is enabled and nothing before it is; it
/// finds nothing only where nothing from `from` on is enabled.
pub proof fn lemma_first_enabled(flags: Seq<bool>, from: int)
    requires
        0 <= from,
    ensures
        match first_enabled(flags, from) {
            Some(found) => {
                &&& from <= found < flags.len()
                &&& flags[found]
                &&& forall|i: int| from <= i < found ==> !#[trigger] flags[i]
            },
            None => forall|i: int| from <= i < flags.len() ==> !#[trigger] flags[i],
        },
    decreases flags.len() - from,
{
    if from < flags.len() && !flags[from] {
        lemma_first_enabled(flags, from + 1);
    }
}

proof fn lemma_count_split(flags: Seq<bool>, from: int, mid: int, to: int)
    requires
        from <= mid <= to,
    ensures
        count_enabled(flags, from, to) == count_enabled(flags, from, mid) + count_enabled(
            flags,
            mid,
            to,
        ),
    decreases to - mid,
{
    if mid < to {
        lemma_count_split(flags, from, mid, to - 1);
    }
}

proof fn lemma_count_none(flags: Seq<bool>, from: int, to: int)
    requires
        forall|i: int| from <= i < to ==> !#[trigger] flags[i],
    ensures
        count_enabled(flags, from, to) == 0,
    decreases to - from,
{
    if from < to {
        lemma_count_none(flags, from, to - 1);
    }
}

/// Of two enabled positions, the later one has more enabled positions in
/// front of it.
proof fn lemma_rank_grows(flags: Seq<bool>, first: int, second: int)
    requires
        0 <= first < second,
        flags[first],
    ensures
        count_enabled(flags, 0, first) < count_enabled(flags, 0, second),
{
    lemma_count_split(flags, 0, first, second);
    lemma_count_split(flags, first, first + 1, second);
    assert(count_enabled(flags, first, first + 1) == 1) by {
        reveal_with_fuel(count_enabled, 2);
    }
}

/// From an enabled position, the next enabled position is the one with one
/// more enabled position in front of it, or the first of all after the last.
proof fn lemma_next_enabled_rank(flags: Seq<bool>, current: int)
    requires
        0 <= current < flags.len(),
        flags[current],
    ensures
        0 <= next_enabled(flags, current) < flags.len(),
        flags[next_enabled(flags, current)],
        enabled_total(flags) > 0,
        count_enabled(flags, 0, next_enabled(flags, current)) == ((count_enabled(flags, 0, current)
            + 1) as int) % (enabled_total(flags) as int),
{
    let len = flags.len() as int;
    let next = next_enabled(flags, current);
    let total = enabled_total(flags) as int;
    let rank = count_enabled(flags, 0, current) as int;
    lemma_next_enabled_skips_disabled(flags, current);
    lemma_count_split(flags, 0, current, len);
    lemma_count_split(flags, current, current + 1, len);
    assert(count_enabled(flags, current, current + 1) == 1) by {
        reveal_with_fuel(count_enabled, 2);
    }
    if next > current {
        lemma_count_split(flags, 0, current, next);
        lemma_count_split(flags, current, current + 1, next);
        lemma_count_none(flags, current + 1, next);
        lemma_rank_grows(flags, next, len);
        lemma_small_mod((rank + 1) as nat, total as nat);
    } else {
        lemma_count_none(flags, current + 1, len);
        lemma_count_none(flags, 0, next);
        lemma_mod_self_0(total);
    }
}

/// Going on `times` times from an enabled position ends on an enabled
/// position, the one that has `times` more enabled positions in front of
/// it, counted round the ring.
proof fn lemma_rotate_rank(flags: Seq<bool>, current: int, times: nat)
    requires
        0 <= current < flags.len(),
        flags[current],
    ensures
        0 <= rotate(flags, current, times) < flags.len(),
        flags[rotate(flags, current, times)],
        enabled_total(flags) > 0,
        count_enabled(flags, 0, rotate(flags, current, times)) == ((count_enabled(flags, 0, current)
            + times) as int) % (enabled_total(flags) as int),
    decreases times,
{
    let total = enabled_total(flags) as int;
    let rank = count_enabled(flags, 0, current) as int;
    lemma_rank_grows(flags, current, flags.len() as int);
    if times == 0 {
        lemma_small_mod(rank as nat, total as nat);
    } else {
        let before = rotate(flags, current, (times - 1) as nat);
        lemma_rotate_rank(flags, current, (times - 1) as nat);
        lemma_next_enabled_rank(flags, before);
        lemma_add_mod_noop(rank + times - 1, 1, total);
        lemma_mod_twice(rank + times - 1, total);
        if total > 1 {
            lemma_small_mod(1, total as nat);
        }
    }
}

/// Rotation is circular over the enabled positions: from an enabled
/// position, going on to the next enabled one as many times as there are
/// enabled positions leads back to where it began.
pub proof fn lemma_rotation_is_circular(flags: Seq<bool>, current: int)
    requires
        0 <= current < flags.len(),
        flags[current],
    ensures
        rotate(flags, current, enabled_total(flags)) == current,
{
    let total = enabled_total(flags);
    let end = rotate(flags, current, total);
    let rank = count_enabled(flags, 0, current) as int;
    lemma_rotate_rank(flags, current, total);
    lemma_rank_grows(flags, current, flags.len() as int);
    lemma_mod_add_multiples_vanish(rank, total as int);
    lemma_small_mod(rank as nat, total);
    if end < current {
        lemma_rank_grows(flags, end, current);
    } else if current < end {
        lemma_rank_grows(flags, current, end);
    }
}

} // verus!
