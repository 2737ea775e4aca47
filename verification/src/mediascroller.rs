use vstd::prelude::*;
use crate::input::lemma_mod_of_negative;
use crate::table::{
    TableEntry, blank, capitalized, is_blank, lemma_not_blank_not_empty, to_uppercase, uppercased,
};
use vstd::string::*;

verus! {

/// Remainder of `a` by `b` rounded toward zero, as Rust's `%` on signed
/// integers computes it: the sign follows `a`, the magnitude is `|a| mod |b|`.
pub open spec fn rem_toward_zero(a: int, b: int) -> int {
    if a >= 0 { a % b } else { -((-a) % b) }
}

/// The remainder rounded toward zero lies strictly within one modulus of
/// zero, and adding the modulus to a negative one gives the least
/// nonnegative remainder.
proof fn lemma_rem_toward_zero(a: int, n: int)
    requires
        n > 0,
    ensures
        -n < rem_toward_zero(a, n) < n,
        rem_toward_zero(a, n) >= 0 ==> rem_toward_zero(a, n) == a % n,
        rem_toward_zero(a, n) < 0 ==> rem_toward_zero(a, n) + n == a % n,
{
    vstd::arithmetic::div_mod::lemma_mod_bound(a, n);
    if a < 0 {
        lemma_mod_of_negative(a, n);
    }
}

/// Shortest signed number of steps from `from` to `to` on a ring of `count`:
/// the value congruent to `to - from` modulo `count` that lies in
/// `[-count / 2, count / 2]`; when both ends of that range qualify (an even
/// count, exactly half way round), it has the sign of `to - from`.
pub open spec fn circular_signed_spec(from: int, to: int, count: int) -> int {
    let m = (to - from) % count;
    if 2 * m < count {
        m
    } else if 2 * m > count {
        m - count
    } else if to > from {
        m
    } else {
        m - count
    }
}

proof fn lemma_circular_signed(r: int, n: int)
    requires
        n > 0,
    ensures
        ({
            let d = rem_toward_zero(r, n);
            let out = if d > n / 2 { d - n } else if d < -(n / 2) { d + n } else { d };
            out == circular_signed_spec(0, r, n)
        }),
        -n < rem_toward_zero(r, n) < n,
{
    let d = rem_toward_zero(r, n);
    let m = r % n;
    lemma_rem_toward_zero(r, n);
    vstd::arithmetic::div_mod::lemma_fundamental_div_mod(n, 2);
    vstd::arithmetic::div_mod::lemma_mod_bound(n, 2);
    assert(circular_signed_spec(0, r, n) == {
        if 2 * m < n { m } else if 2 * m > n { m - n } else if r > 0 { m } else { m - n }
    });
    assert(n == 2 * (n / 2) + n % 2);
    if r >= 0 {
        if r == 0 {
            vstd::arithmetic::div_mod::lemma_small_mod(0, n as nat);
        }
        assert(d > n / 2 <==> 2 * m > n);
        assert(2 * m == n ==> r > 0);
    } else {
        let k = (-r) % n;
        assert(d == -k);
        assert(d < -(n / 2) <==> 2 * k > n);
    }
}

/// Absolute value.
pub open spec fn magnitude(x: int) -> int {
    if x < 0 { -x } else { x }
}

/// The steps from `from` land on `to` around the ring, there are at most half
/// a ring of them, no other way round is shorter, and no steps are taken from
/// a table to itself.
pub proof fn lemma_circular_signed_is_shortest(from: int, to: int, count: int, other: int)
    requires
        count > 0,
    ensures
        (from + circular_signed_spec(from, to, count) - to) % count == 0,
        -(count / 2) <= circular_signed_spec(from, to, count) <= count / 2,
        (from + other - to) % count == 0 ==> magnitude(circular_signed_spec(from, to, count))
            <= magnitude(other),
        circular_signed_spec(from, from, count) == 0,
{
    let r = to - from;
    let m = r % count;
    let d = circular_signed_spec(from, to, count);
    vstd::arithmetic::div_mod::lemma_mod_bound(r, count);
    vstd::arithmetic::div_mod::lemma_fundamental_div_mod(count, 2);
    vstd::arithmetic::div_mod::lemma_mod_bound(count, 2);
    vstd::arithmetic::div_mod::lemma_fundamental_div_mod(r, count);
    let q = r / count;
    assert(r == count * q + m);
    // d differs from r by a whole number of rings.
    assert(d - r == count * (-q) || d - r == count * (-q - 1)) by (nonlinear_arith)
        requires
            r == count * q + m,
            d == m || d == m - count;
    if d - r == count * (-q) {
        vstd::arithmetic::div_mod::lemma_mod_multiples_basic(-q, count);
        assert((-q) * count == count * (-q)) by (nonlinear_arith);
    } else {
        vstd::arithmetic::div_mod::lemma_mod_multiples_basic(-q - 1, count);
        assert((-q - 1) * count == count * (-q - 1)) by (nonlinear_arith);
    }
    assert(from + d - to == d - r);
    if (from + other - to) % count == 0 {
        // other is congruent to r, hence lies a whole number of rings from m.
        let k = other - m;
        vstd::arithmetic::div_mod::lemma_fundamental_div_mod(other - r, count);
        let j = (other - r) / count;
        assert(other - r == count * j);
        assert(other == m + count * (q + j)) by (nonlinear_arith)
            requires
                other - r == count * j,
                r == count * q + m;
        let t = q + j;
        if t >= 0 {
            assert(count * t >= 0) by (nonlinear_arith)
                requires
                    count > 0,
                    t >= 0;
        } else {
            assert(count * t <= -count) by (nonlinear_arith)
                requires
                    count > 0,
                    t <= -1;
        }
    }
    vstd::arithmetic::div_mod::lemma_small_mod(0, count as nat);
}

/// Shortest signed number of steps from `from` to `to` on a ring of `count`.
pub fn circular_signed(from: usize, to: usize, count: usize) -> (d: i64)
    requires
        0 < count <= i64::MAX,
        from <= i64::MAX,
        to <= i64::MAX,
    ensures
        d == circular_signed_spec(from as int, to as int, count as int),
        (from + d - to) % (count as int) == 0,
        -(count / 2) <= d <= count / 2,
        2 * d == count ==> to > from,
        2 * d == -count ==> to < from,
{
    proof {
        lemma_circular_signed_is_shortest(from as int, to as int, count as int, 0);
        let m = (to - from) % (count as int);
        vstd::arithmetic::div_mod::lemma_mod_bound(to - from, count as int);
        if to == from {
            vstd::arithmetic::div_mod::lemma_small_mod(0, count as nat);
        }
    }
    let n = count as i64;
    let mut d = (to as i64 - from as i64) % n;
    proof {
        lemma_circular_signed(to - from, n as int);
    }
    if d > n / 2 {
        d -= n;
    } else if d < -n / 2 {
        d += n;
    }
    d
}

/// Which table of a ring of `count` a scroller slot at `world_index` shows:
/// the least nonnegative remainder of the slot's position.
pub fn slot_table_index(world_index: i64, count: usize) -> (r: usize)
    requires
        0 < count <= i64::MAX,
    ensures
        r == (world_index as int) % (count as int),
        r < count,
{
    let n = count as i64;
    let below = world_index % n;
    proof {
        lemma_rem_toward_zero(world_index as int, n as int);
    }
    if below < 0 {
        (below + n) as usize
    } else {
        below as usize
    }
}

/// The table the scroller shows as selected.
pub struct SelectedItem {
    pub index: Option<usize>,
}

impl Default for SelectedItem {
    fn default() -> (r: Self)
        ensures
            r.index is None,
    {
        SelectedItem { index: None }
    }
}

/// The display name of a table: its name when present and not blank,
/// otherwise its file stem, in either case with the first letter in upper
/// case.
pub open spec fn display_line(table: TableEntry) -> Seq<char> {
    match table.table_name {
        Some(name) if !is_blank(name@) => capitalized(name@),
        _ => capitalized(table.file_stem->0@),
    }
}

/// The inputs on which the display name can be written: the path has a file
/// stem, and where the name is absent or blank that stem is not empty.
pub open spec fn display_line_defined(table: TableEntry) -> bool {
    &&& table.file_stem is Some
    &&& match table.table_name {
        Some(name) if !is_blank(name@) => true,
        _ => table.file_stem->0@.len() > 0,
    }
}

/// The display name for a table: its table name, falling back to the file stem.
pub fn display_table_line(table: &TableEntry) -> (r: String)
    requires
        display_line_defined(*table),
    ensures
        r@ == display_line(*table),
        r@ == match table.table_name {
            Some(name) => if !is_blank(name@) {
                capitalized(name@)
            } else {
                capitalized(table.file_stem->0@)
            },
            None => capitalized(table.file_stem->0@),
        },
{
    let file_name = match &table.file_stem {
        Some(stem) => stem.clone(),
        None => {
            proof { assert(false); }
            String::new()
        },
    };
    match &table.table_name {
        Some(name) => {
            if !blank(name.as_str()) {
                proof {
                    lemma_not_blank_not_empty(name@);
                }
                capitalize_first_letter(name.as_str())
            } else {
                capitalize_first_letter(file_name.as_str())
            }
        },
        None => capitalize_first_letter(file_name.as_str()),
    }
}

/// The display name for a table where one can be written: `None` where the
/// path has no file stem, or where the name is absent or blank and the stem
/// is empty.
pub fn try_display_table_line(table: &TableEntry) -> (r: Option<String>)
    ensures
        r is Some <==> display_line_defined(*table),
        r matches Some(line) ==> line@ == display_line(*table),
{
    let shown_is_stem = match &table.table_name {
        Some(name) => blank(name.as_str()),
        None => true,
    };
    match &table.file_stem {
        Some(stem) => {
            if shown_is_stem && stem.unicode_len() == 0 {
                None
            } else {
                Some(display_table_line(table))
            }
        },
        None => None,
    }
}

/// `s` with its first character in upper case.
pub fn capitalize_first_letter(s: &str) -> (r: String)
    requires
        s@.len() > 0,
    ensures
        r@ == capitalized(s@),
        r@ == uppercased(s@.take(1)) + s@.skip(1),
{
    let len = s.unicode_len();
    let first = s.substring_char(0, 1);
    let rest = s.substring_char(1, len);
    let mut r = to_uppercase(first);
    r.append(rest);
    r
}

} // verus!
