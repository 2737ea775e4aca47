use vstd::prelude::*;
use crate::list::SelectedItem;

verus! {

/// Sent when the selected table changes; carries the newly selected index.
pub struct TableSelectionChanged {
    pub _selected_index: usize,
}

/// `n` wrapped around `max`: its least nonnegative remainder modulo `max`,
/// and 0 when there is nothing to wrap around.
pub open spec fn wrap_around_spec(n: i16, max: usize) -> int {
    if max == 0 {
        0
    } else {
        (n as int) % (max as int)
    }
}

/// The remainder of a negative number: a whole number of moduli above it,
/// so it is the modulus minus the remainder of its magnitude, or 0.
pub proof fn lemma_mod_of_negative(a: int, m: int)
    requires
        a < 0,
        m > 0,
    ensures
        0 <= (-a) % m < m,
        (-a) % m == 0 ==> a % m == 0,
        (-a) % m != 0 ==> a % m == m - (-a) % m,
{
    let k = (-a) % m;
    vstd::arithmetic::div_mod::lemma_fundamental_div_mod(-a, m);
    vstd::arithmetic::div_mod::lemma_mod_bound(-a, m);
    let q = (-a) / m;
    if k == 0 {
        assert(a == (-q) * m) by (nonlinear_arith)
            requires
                -a == m * q + k,
                k == 0,
        ;
        vstd::arithmetic::div_mod::lemma_mod_multiples_basic(-q, m);
    } else {
        assert(a == m * (-q - 1) + (m - k)) by (nonlinear_arith)
            requires
                -a == m * q + k,
        ;
        vstd::arithmetic::div_mod::lemma_fundamental_div_mod_converse(a, m, -q - 1, m - k);
    }
}

/// Wraps a number around a maximum value.
pub fn wrap_around(n: i16, max: usize) -> (r: usize)
    ensures
        r == wrap_around_spec(n, max),
        max > 0 ==> r == (n as int) % (max as int),
        max > 0 ==> r < max,
        max == 0 ==> r == 0,
{
    if n == 0 || max == 0 {
        proof {
            if max > 0 {
                vstd::arithmetic::div_mod::lemma_small_mod(0, max as nat);
            }
        }
        0
    } else if n > 0 {
        let r = (n as usize) % max;
        proof {
            vstd::arithmetic::div_mod::lemma_mod_bound(n as int, max as int);
        }
        r
    } else {
        let magnitude = (0 - (n as i32)) as usize;
        let below = magnitude % max;
        proof {
            lemma_mod_of_negative(n as int, max as int);
        }
        if below == 0 {
            0
        } else {
            max - below
        }
    }
}

/// Wrapping is the least nonnegative remainder modulo the count: it lies
/// below the count and differs from the number by a whole number of counts.
pub proof fn lemma_wrap_around_is_remainder(n: i16, max: usize)
    requires
        max > 0,
    ensures
        0 <= wrap_around_spec(n, max) < max,
        ((n as int) - wrap_around_spec(n, max)) % (max as int) == 0,
        0 <= n < max ==> wrap_around_spec(n, max) == n,
{
    let m = max as int;
    vstd::arithmetic::div_mod::lemma_mod_bound(n as int, m);
    vstd::arithmetic::div_mod::lemma_fundamental_div_mod(n as int, m);
    let q = (n as int) / m;
    assert((n as int) - (n as int) % m == q * m) by (nonlinear_arith)
        requires
            n as int == m * q + (n as int) % m,
    ;
    vstd::arithmetic::div_mod::lemma_mod_multiples_basic(q, m);
    if 0 <= n < max {
        vstd::arithmetic::div_mod::lemma_small_mod(n as nat, max as nat);
    }
}

/// Numbers a count apart wrap to the same index.
pub proof fn lemma_wrap_around_periodic(n: i16, max: usize)
    requires
        max > 0,
        n + max <= i16::MAX,
    ensures
        wrap_around_spec((n + max) as i16, max) == wrap_around_spec(n, max),
{
    assert(((n + max) as i16) == n + max);
    vstd::arithmetic::div_mod::lemma_mod_add_multiples_vanish(n as int, max as int);
}

/// The index that the selection moves to: the current index (0 when there
/// is none), read as an `i16`, moved by `delta` and wrapped around the count.
pub open spec fn stepped_index(current: Option<usize>, delta: i16, table_count: usize) -> int {
    wrap_around_spec(((current.unwrap_or(0) as i16) + delta) as i16, table_count)
}

/// The steps that can be taken: the moved index fits in an `i16`.
pub open spec fn step_defined(current: Option<usize>, delta: i16) -> bool {
    i16::MIN <= (current.unwrap_or(0) as i16) + delta <= i16::MAX
}

/// Moves the selection by `delta` tables, wrapping around the table count,
/// and records the new index. The selection stays below the count (0 when
/// there are no tables). A change notice comes back exactly when the
/// recorded index changed.
pub fn apply_selection_change(selected: &mut SelectedItem, delta: i16, table_count: usize) -> (changed:
    Option<TableSelectionChanged>)
    requires
        step_defined(old(selected).index, delta),
    ensures
        final(selected).index == Some(stepped_index(old(selected).index, delta, table_count) as usize),
        table_count > 0 ==> final(selected).index == Some(
            ((((old(selected).index.unwrap_or(0) as i16) as int) + delta) % (table_count as int)) as usize,
        ),
        table_count > 0 ==> stepped_index(old(selected).index, delta, table_count) < table_count,
        table_count == 0 ==> final(selected).index == Some(0usize),
        changed is Some <==> old(selected).index != final(selected).index,
        changed matches Some(event) ==> event._selected_index == stepped_index(
            old(selected).index,
            delta,
            table_count,
        ),
        changed matches Some(event) ==> final(selected).index == Some(event._selected_index),
{
    let current = match selected.index {
        Some(i) => i,
        None => 0,
    };
    let moved = current as i16 + delta;
    let next = wrap_around(moved, table_count);
    let event = if selected.index != Some(next) {
        Some(TableSelectionChanged { _selected_index: next })
    } else {
        None
    };
    selected.index = Some(next);
    event
}

/// A step of `delta` moves the selection by exactly `delta` tables around
/// the ring: the new index is below the count and differs from the old one
/// plus `delta` by a whole number of counts.
pub proof fn lemma_step_moves_by_delta(start: usize, delta: i16, table_count: usize)
    requires
        table_count > 0,
        start <= i16::MAX,
        i16::MIN <= start + delta <= i16::MAX,
    ensures
        0 <= stepped_index(Some(start), delta, table_count) < table_count,
        (start + delta - stepped_index(Some(start), delta, table_count)) % (table_count as int) == 0,
        0 <= start + delta < table_count ==> stepped_index(Some(start), delta, table_count) == start
            + delta,
{
    let moved = start + delta;
    assert(((start as i16) + delta) as i16 == moved);
    lemma_wrap_around_is_remainder(moved as i16, table_count);
}

/// Two steps in a row land where one step of their sum lands.
pub proof fn lemma_steps_compose(start: usize, first: i16, second: i16, table_count: usize)
    requires
        table_count > 0,
        start <= i16::MAX,
        stepped_index(Some(start), first, table_count) <= i16::MAX,
        i16::MIN <= start + first <= i16::MAX,
        i16::MIN <= first + second <= i16::MAX,
        i16::MIN <= start + first + second <= i16::MAX,
        i16::MIN <= stepped_index(Some(start), first, table_count) + second <= i16::MAX,
    ensures
        stepped_index(
            Some(stepped_index(Some(start), first, table_count) as usize),
            second,
            table_count,
        ) == stepped_index(Some(start), (first + second) as i16, table_count),
{
    let m = table_count as int;
    let once = stepped_index(Some(start), first, table_count);
    assert(((start as i16) + first) as i16 == start + first);
    assert(once == (start + first) % m);
    vstd::arithmetic::div_mod::lemma_mod_bound(start + first, m);
    let mid = once as usize;
    assert(mid as i16 == once);
    assert(((mid as i16) + second) as i16 == once + second);
    assert(((first + second) as i16) as int == first + second);
    assert(((start as i16) + ((first + second) as i16)) as i16 == start + first + second);
    vstd::arithmetic::div_mod::lemma_add_mod_noop(start + first, second as int, m);
    vstd::arithmetic::div_mod::lemma_add_mod_noop(once, second as int, m);
    vstd::arithmetic::div_mod::lemma_mod_twice(start + first, m);
    vstd::arithmetic::div_mod::lemma_mod_bound(second as int, m);
}

/// Moving the selection by `delta` and then by `-delta` brings it back to
/// where it was, as long as both indices can be read as an `i16`.
pub proof fn lemma_step_undone(start: usize, delta: i16, table_count: usize)
    requires
        start < table_count,
        start <= i16::MAX,
        delta > i16::MIN,
        i16::MIN <= start + delta <= i16::MAX,
        stepped_index(Some(start), delta, table_count) <= i16::MAX,
        i16::MIN <= stepped_index(Some(start), delta, table_count) - delta <= i16::MAX,
    ensures
        stepped_index(
            Some(stepped_index(Some(start), delta, table_count) as usize),
            -delta as i16,
            table_count,
        ) == start,
{
    let m = table_count as int;
    let moved = start + delta;
    assert(((start as i16) + delta) as i16 == moved);
    let once = stepped_index(Some(start), delta, table_count);
    assert(once == moved % m);
    vstd::arithmetic::div_mod::lemma_mod_bound(moved, m);
    let back_start = once as usize;
    assert(back_start as i16 == once);
    assert(-delta as i16 == -delta);
    assert(((back_start as i16) + (-delta as i16)) as i16 == once - delta);
    vstd::arithmetic::div_mod::lemma_sub_mod_noop(moved, delta as int, m);
    vstd::arithmetic::div_mod::lemma_sub_mod_noop(once, delta as int, m);
    vstd::arithmetic::div_mod::lemma_mod_twice(moved, m);
    vstd::arithmetic::div_mod::lemma_small_mod(start as nat, m as nat);
    assert(moved - delta == start);
}

} // verus!
