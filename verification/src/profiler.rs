//! The performance profile scene: how its table is ordered and scrolled,
//! and how memory deltas are written.

use vstd::prelude::*;
use crate::transform::{lemma_text_le_antisym, lemma_text_le_refl, lemma_text_le_total, lemma_text_le_trans, text_le, text_le_exec};
use crate::text::{decimal, decimal_string, digit, digit_char, push_char};

verus! {

/// The column the profile table is ordered by.
#[derive(Clone, Copy, Debug, PartialEq, Eq, Structural)]
pub enum SortKey {
    Total,
    Avg,
    Calls,
    Memory,
    Name,
}

/// Which way the profile table is ordered.
#[derive(Clone, Copy, Debug, PartialEq, Eq, Structural)]
pub enum SortDirection {
    Asc,
    Desc,
}

/// Ordering and scroll position of the profile table.
#[derive(Clone, Copy, Debug)]
pub struct PerformanceProfileState {
    pub sort_key: SortKey,
    pub sort_direction: SortDirection,
    pub scroll_offset: usize,
}

/// The direction a column starts in when it is first chosen: names
/// ascending, numbers largest first.
pub open spec fn first_direction(key: SortKey) -> SortDirection {
    if key == SortKey::Name { SortDirection::Asc } else { SortDirection::Desc }
}

pub open spec fn flipped(d: SortDirection) -> SortDirection {
    match d {
        SortDirection::Asc => SortDirection::Desc,
        SortDirection::Desc => SortDirection::Asc,
    }
}

/// The last scroll position that still fills `visible` rows out of `total`.
pub open spec fn last_offset(total: usize, visible: usize) -> int {
    if total >= visible { total - visible } else { 0 }
}

/// The state once the table is ordered by `key`: choosing the current column
/// again flips the direction, choosing another starts it in that column's
/// first direction; either way the table scrolls back to the top.
pub open spec fn sort_set(p: PerformanceProfileState, key: SortKey) -> PerformanceProfileState {
    PerformanceProfileState {
        sort_key: key,
        sort_direction: if p.sort_key == key { flipped(p.sort_direction) } else { first_direction(key) },
        scroll_offset: 0,
    }
}

/// The table a row further up, unless at its top.
pub open spec fn rows_up(p: PerformanceProfileState) -> PerformanceProfileState {
    PerformanceProfileState { scroll_offset: if p.scroll_offset > 0 { (p.scroll_offset - 1) as usize } else { 0 }, ..p }
}

/// The table a row further down, unless the last `visible` of `total` rows
/// show.
pub open spec fn rows_down(p: PerformanceProfileState, total: usize, visible: usize) -> PerformanceProfileState {
    PerformanceProfileState {
        scroll_offset: if p.scroll_offset < last_offset(total, visible) { (p.scroll_offset + 1) as usize } else { p.scroll_offset },
        ..p
    }
}

/// How the average memory delta of a function is shown.
#[derive(Clone, Copy, Debug, PartialEq, Eq, Structural)]
pub enum MemTone {
    /// More than a KiB was allocated on average.
    Growth,
    /// More than a KiB was released on average.
    Release,
    /// Within a KiB either way.
    Quiet,
}

pub open spec fn tone_of(bytes: int) -> MemTone {
    if bytes > 1024 { MemTone::Growth } else if bytes < -1024 { MemTone::Release } else { MemTone::Quiet }
}

/// The tone a memory delta of `bytes` is shown in.
pub fn mem_tone(bytes: i64) -> (t: MemTone)
    ensures
        t == tone_of(bytes as int),
{
    if bytes > 1024 {
        MemTone::Growth
    } else if bytes < -1024 {
        MemTone::Release
    } else {
        MemTone::Quiet
    }
}

impl PerformanceProfileState {
    /// Ordered by total time, largest first, scrolled to the top.
    pub fn new() -> (s: Self)
        ensures
            s.sort_key == SortKey::Total,
            s.sort_direction == SortDirection::Desc,
            s.scroll_offset == 0,
    {
        PerformanceProfileState { sort_key: SortKey::Total, sort_direction: SortDirection::Desc, scroll_offset: 0 }
    }

    /// Orders by `key`: choosing the current column again flips the
    /// direction, choosing another starts it in that column's first
    /// direction. Either way the table scrolls back to the top.
    pub fn set_sort(&mut self, key: SortKey)
        ensures
            *final(self) == sort_set(*old(self), key),
    {
        if self.sort_key == key {
            self.sort_direction = match self.sort_direction {
                SortDirection::Asc => SortDirection::Desc,
                SortDirection::Desc => SortDirection::Asc,
            };
        } else {
            self.sort_key = key;
            self.sort_direction = match key {
                SortKey::Name => SortDirection::Asc,
                _ => SortDirection::Desc,
            };
        }
        self.scroll_offset = 0;
    }

    /// One row up, unless at the top.
    pub fn scroll_up(&mut self)
        ensures
            *final(self) == rows_up(*old(self)),
    {
        if self.scroll_offset > 0 {
            self.scroll_offset -= 1;
        }
    }

    /// One row down, unless the last `visible` of `total` rows are shown.
    pub fn scroll_down(&mut self, total: usize, visible: usize)
        ensures
            *final(self) == rows_down(*old(self), total, visible),
    {
        let max = total.saturating_sub(visible);
        if self.scroll_offset < max {
            self.scroll_offset += 1;
        }
    }

    /// The rows `start..end` of `total` to show in `visible` lines. A scroll
    /// position past the end is first pulled back so the last rows show.
    pub fn visible_window(&mut self, total: usize, visible: usize) -> (w: (usize, usize))
        ensures
            final(self).sort_key == old(self).sort_key,
            final(self).sort_direction == old(self).sort_direction,
            final(self).scroll_offset == (if old(self).scroll_offset >= total {
                last_offset(total, visible)
            } else {
                old(self).scroll_offset as int
            }),
            w.0 == final(self).scroll_offset,
            w.1 == (if final(self).scroll_offset + visible <= total {
                final(self).scroll_offset + visible
            } else {
                total as int
            }),
            w.0 <= w.1 <= total,
    {
        if self.scroll_offset >= total {
            self.scroll_offset = total.saturating_sub(visible);
        }
        let start = self.scroll_offset;
        let end = if start <= total && visible <= total - start { start + visible } else { total };
        (start, end)
    }

    /// The arrow shown beside a column heading: the direction for the column
    /// the table is ordered by, nothing for the others.
    pub fn arrow(&self, key: SortKey) -> (a: &'static str)
        ensures
            a@ == (if self.sort_key != key {
                ""@
            } else if self.sort_direction == SortDirection::Asc {
                "↑"@
            } else {
                "↓"@
            }),
    {
        if self.sort_key == key {
            match self.sort_direction {
                SortDirection::Asc => "↑",
                SortDirection::Desc => "↓",
            }
        } else {
            ""
        }
    }
}

/// The name a sort column is shown under.
pub open spec fn key_label(key: SortKey) -> Seq<char> {
    match key {
        SortKey::Total => "Total"@,
        SortKey::Avg => "Avg"@,
        SortKey::Calls => "Calls"@,
        SortKey::Memory => "Memory"@,
        SortKey::Name => "Name"@,
    }
}

/// The name a sort column is shown under.
pub fn sort_key_label(key: SortKey) -> (s: &'static str)
    ensures
        s@ == key_label(key),
{
    match key {
        SortKey::Total => "Total",
        SortKey::Avg => "Avg",
        SortKey::Calls => "Calls",
        SortKey::Memory => "Memory",
        SortKey::Name => "Name",
    }
}

// ---------------------------------------------------------------------------
// Byte counts
// ---------------------------------------------------------------------------

/// `num / den` rounded to the nearest integer, a tie going to the even one:
/// the rounding `{:.N}` applies to the exact value of a float.
pub open spec fn round_half_even(num: nat, den: nat) -> nat
    recommends
        den > 0,
{
    let q = num / den;
    let r = num % den;
    if 2 * r < den {
        q
    } else if 2 * r > den {
        q + 1
    } else if q % 2 == 0 {
        q
    } else {
        q + 1
    }
}

/// The spacing of `f64` values around `n`: 1 below 2^53, doubling with each
/// binary digit above.
pub open spec fn f64_unit(n: nat) -> nat
    decreases n,
{
    if n < 0x20_0000_0000_0000 { 1 } else { 2 * f64_unit(n / 2) }
}

/// The value `n as f64` holds: `n` rounded to the nearest `f64`, a tie going
/// to the even mantissa.
pub open spec fn as_f64(n: nat) -> nat {
    let u = f64_unit(n);
    round_half_even(n, u) * u
}

/// `d` tenths written with one decimal place.
pub open spec fn one_place(d: nat) -> Seq<char> {
    decimal(d / 10) + seq!['.', digit_char(d % 10)]
}

/// `d` hundredths written with two decimal places.
pub open spec fn two_places(d: nat) -> Seq<char> {
    decimal(d / 100) + seq!['.', digit_char((d / 10) % 10), digit_char(d % 10)]
}

pub open spec fn magnitude(b: int) -> nat {
    if b < 0 { (-b) as nat } else { b as nat }
}

/// A memory delta of `b` bytes as the profile shows it: signed, in the
/// largest of B, KB, MB and GB (powers of 1024) that keeps it at least 1,
/// with one decimal place for KB and MB and two for GB.
pub open spec fn bytes_text(b: int) -> Seq<char> {
    let a = magnitude(b);
    let sign = if b < 0 { seq!['-'] } else if b > 0 { seq!['+'] } else { Seq::<char>::empty() };
    let body = if a < 1024 {
        decimal(a) + seq![' ', 'B']
    } else if a < 0x10_0000 {
        one_place(round_half_even(a * 10, 1024)) + seq![' ', 'K', 'B']
    } else if a < 0x4000_0000 {
        one_place(round_half_even(a * 10, 0x10_0000)) + seq![' ', 'M', 'B']
    } else {
        two_places(round_half_even(as_f64(a) * 100, 0x4000_0000)) + seq![' ', 'G', 'B']
    };
    sign + body
}

fn rounded_quotient(num: u128, den: u128) -> (r: u128)
    requires
        0 < den <= 0x1_0000_0000_0000_0000,
        num <= 0x1_0000_0000_0000_0000_0000,
    ensures
        r == round_half_even(num as nat, den as nat),
{
    let q = num / den;
    let rem = num % den;
    if 2 * rem < den {
        q
    } else if 2 * rem > den {
        q + 1
    } else if q % 2 == 0 {
        q
    } else {
        q + 1
    }
}

proof fn lemma_f64_unit_small(n: nat)
    requires
        n < 0x20_0000_0000_0000,
    ensures
        f64_unit(n) == 1,
{
}

/// The value `n as f64` holds, as an integer.
fn f64_value(n: u64) -> (v: u128)
    requires
        n <= 0x8000_0000_0000_0000,
    ensures
        v == as_f64(n as nat),
        v <= 0x1_0000_0000_0000_0000,
{
    let mut u: u64 = 1;
    let mut m: u64 = n;
    while m >= 0x20_0000_0000_0000
        invariant
            1 <= u <= 0x800,
            m == n as nat / u as nat,
            f64_unit(n as nat) == u * f64_unit(m as nat),
            n <= 0x8000_0000_0000_0000,
        decreases m,
    {
        proof {
            vstd::arithmetic::div_mod::lemma_div_denominator(n as int, u as int, 2);
            assert(u * 0x20_0000_0000_0000 <= n) by (nonlinear_arith)
                requires m == n as nat / u as nat, m >= 0x20_0000_0000_0000, u >= 1;
            assert(u <= 0x400) by (nonlinear_arith)
                requires u * 0x20_0000_0000_0000 <= n, n <= 0x8000_0000_0000_0000;
            assert(f64_unit(m as nat) == 2 * f64_unit((m / 2) as nat));
            let fm = f64_unit((m / 2) as nat);
            assert(u * (2 * fm) == (u * 2) * fm) by (nonlinear_arith);
        }
        m = m / 2;
        u = u * 2;
    }
    proof {
        lemma_f64_unit_small(m as nat);
    }
    let r = rounded_quotient(n as u128, u as u128);
    proof {
        assert(r <= n as nat / u as nat + 1);
        assert(r * u <= n + u) by (nonlinear_arith)
            requires r <= n as nat / u as nat + 1, u >= 1;
    }
    r * (u as u128)
}

/// `d` tenths with one decimal place.
fn one_place_text(d: u64) -> (s: String)
    ensures
        s@ == one_place(d as nat),
{
    let mut s = decimal_string(d / 10);
    push_char(&mut s, '.');
    push_char(&mut s, digit(d % 10));
    s
}

/// `d` hundredths with two decimal places.
fn two_places_text(d: u64) -> (s: String)
    ensures
        s@ == two_places(d as nat),
{
    let mut s = decimal_string(d / 100);
    push_char(&mut s, '.');
    push_char(&mut s, digit((d / 10) % 10));
    push_char(&mut s, digit(d % 10));
    s
}

/// A memory delta as the profile table shows it, e.g. `+1.5 KB` or `-12 B`.
pub fn format_bytes(bytes: i64) -> (s: String)
    ensures
        s@ == bytes_text(bytes as int),
{
    let a: u64 = if bytes < 0 { (-(bytes as i128)) as u64 } else { bytes as u64 };
    assert(a == magnitude(bytes as int));
    let mut s = String::new();
    if bytes < 0 {
        push_char(&mut s, '-');
    } else if bytes > 0 {
        push_char(&mut s, '+');
    }
    let ghost sign = s@;
    if a < 1024 {
        let digits = decimal_string(a);
        s.append(digits.as_str());
        push_char(&mut s, ' ');
        push_char(&mut s, 'B');
    } else if a < 0x10_0000 {
        let d = rounded_quotient(a as u128 * 10, 1024);
        let t = one_place_text(d as u64);
        s.append(t.as_str());
        push_char(&mut s, ' ');
        push_char(&mut s, 'K');
        push_char(&mut s, 'B');
    } else if a < 0x4000_0000 {
        let d = rounded_quotient(a as u128 * 10, 0x10_0000);
        let t = one_place_text(d as u64);
        s.append(t.as_str());
        push_char(&mut s, ' ');
        push_char(&mut s, 'M');
        push_char(&mut s, 'B');
    } else {
        let v = f64_value(a);
        let d = rounded_quotient(v * 100, 0x4000_0000);
        proof {
            assert(d <= v * 100 / 0x4000_0000 + 1);
        }
        let t = two_places_text(d as u64);
        s.append(t.as_str());
        push_char(&mut s, ' ');
        push_char(&mut s, 'G');
        push_char(&mut s, 'B');
    }
    proof {
        let body = s@.subrange(sign.len() as int, s@.len() as int);
        assert(s@ =~= sign + body);
    }
    s
}

// ---------------------------------------------------------------------------
// Row order
// ---------------------------------------------------------------------------

/// Row `a` comes before row `b` when the rows are sorted by `keys` smallest
/// first, stably: by key, then by their original position.
pub open spec fn key_before(keys: Seq<i64>, a: int, b: int) -> bool {
    keys[a] < keys[b] || (keys[a] == keys[b] && a < b)
}

/// `order` lists each of the positions `0..n` once.
pub open spec fn is_arrangement(order: Seq<usize>, n: nat) -> bool {
    &&& order.len() == n
    &&& forall|i: int| 0 <= i < order.len() ==> order[i] < n
    &&& forall|i: int, j: int| 0 <= i < j < order.len() ==> order[i] != order[j]
}

/// `order` lists the rows as a stable sort by `keys` does, followed by a
/// reversal when the direction is descending.
pub open spec fn ordered_by_keys(keys: Seq<i64>, order: Seq<usize>, direction: SortDirection) -> bool {
    &&& is_arrangement(order, keys.len())
    &&& forall|i: int, j: int| 0 <= i < j < order.len() ==> if direction == SortDirection::Asc {
        key_before(keys, order[i] as int, order[j] as int)
    } else {
        key_before(keys, order[j] as int, order[i] as int)
    }
}

/// The positions of the rows with the given sort `keys`, in the order the
/// table lists them: a stable sort by key, reversed when descending.
pub fn order_by_keys(keys: &Vec<i64>, direction: SortDirection) -> (order: Vec<usize>)
    ensures
        ordered_by_keys(keys@, order@, direction),
{
    let mut r: Vec<usize> = Vec::new();
    let mut i: usize = 0;
    while i < keys.len()
        invariant
            i <= keys@.len(),
            r@.len() == i,
            forall|a: int| 0 <= a < r@.len() ==> r@[a] < i,
            forall|a: int, b: int| 0 <= a < b < r@.len() ==> r@[a] != r@[b],
            forall|a: int, b: int| 0 <= a < b < r@.len() ==> key_before(keys@, r@[a] as int, r@[b] as int),
        decreases keys.len() - i,
    {
        let k = keys[i];
        let mut p: usize = 0;
        while p < r.len() && keys[r[p]] <= k
            invariant
                p <= r@.len(),
                i < keys@.len(),
                k == keys@[i as int],
                forall|a: int| 0 <= a < r@.len() ==> r@[a] < i,
                forall|a: int| 0 <= a < p ==> keys@[r@[a] as int] <= k,
            decreases r.len() - p,
        {
            p += 1;
        }
        let ghost before = r@;
        r.insert(p, i);
        proof {
            assert forall|a: int, b: int| 0 <= a < b < r@.len() implies key_before(keys@, r@[a] as int, r@[b] as int) by {
                if b < p {
                    assert(r@[a] == before[a] && r@[b] == before[b]);
                } else if b == p {
                    assert(r@[a] == before[a]);
                } else if a < p {
                    assert(r@[a] == before[a] && r@[b] == before[b - 1]);
                } else if a == p {
                    assert(r@[b] == before[b - 1]);
                    assert(!(keys@[before[p as int] as int] <= k));
                    if b - 1 > p {
                        assert(key_before(keys@, before[p as int] as int, before[b - 1] as int));
                    }
                } else {
                    assert(r@[a] == before[a - 1] && r@[b] == before[b - 1]);
                }
            }
            assert forall|a: int, b: int| 0 <= a < b < r@.len() implies r@[a] != r@[b] by {
                if b < p {
                    assert(r@[a] == before[a] && r@[b] == before[b]);
                } else if b == p {
                    assert(r@[a] == before[a]);
                } else if a < p {
                    assert(r@[a] == before[a] && r@[b] == before[b - 1]);
                } else if a == p {
                    assert(r@[b] == before[b - 1]);
                } else {
                    assert(r@[a] == before[a - 1] && r@[b] == before[b - 1]);
                }
            }
            assert forall|a: int| 0 <= a < r@.len() implies r@[a] < i + 1 by {
                if a < p {
                    assert(r@[a] == before[a]);
                } else if a > p {
                    assert(r@[a] == before[a - 1]);
                }
            }
        }
        i += 1;
    }
    if direction == SortDirection::Desc {
        let ghost asc = r@;
        let mut d: Vec<usize> = Vec::new();
        let mut j: usize = r.len();
        while j > 0
            invariant
                j <= r@.len(),
                r@ == asc,
                d@.len() == asc.len() - j,
                forall|a: int| 0 <= a < d@.len() ==> d@[a] == asc[asc.len() - 1 - a],
            decreases j,
        {
            j -= 1;
            d.push(r[j]);
        }
        assert forall|a: int, b: int| 0 <= a < b < d@.len() implies d@[a] != d@[b] by {
            assert(d@[a] == asc[asc.len() - 1 - a] && d@[b] == asc[asc.len() - 1 - b]);
        }
        assert forall|a: int, b: int| 0 <= a < b < d@.len() implies key_before(keys@, d@[b] as int, d@[a] as int) by {
            assert(d@[a] == asc[asc.len() - 1 - a] && d@[b] == asc[asc.len() - 1 - b]);
        }
        assert forall|a: int| 0 <= a < d@.len() implies d@[a] < keys@.len() by {
            assert(d@[a] == asc[asc.len() - 1 - a]);
        }
        d
    } else {
        r
    }
}

/// Row `a` comes before row `b` when the rows are sorted by `names` in the
/// order of `String`'s `Ord`, stably.
pub open spec fn name_before(names: Seq<String>, a: int, b: int) -> bool {
    if names[a]@ == names[b]@ { a < b } else { text_le(names[a]@, names[b]@) }
}

/// `order` lists the rows as a stable sort by `names` does, followed by a
/// reversal when the direction is descending.
pub open spec fn ordered_by_names(names: Seq<String>, order: Seq<usize>, direction: SortDirection) -> bool {
    &&& is_arrangement(order, names.len())
    &&& forall|i: int, j: int| 0 <= i < j < order.len() ==> if direction == SortDirection::Asc {
        name_before(names, order[i] as int, order[j] as int)
    } else {
        name_before(names, order[j] as int, order[i] as int)
    }
}

proof fn lemma_name_before_trans(names: Seq<String>, a: int, b: int, c: int)
    requires
        0 <= a < names.len(),
        0 <= b < names.len(),
        0 <= c < names.len(),
        name_before(names, a, b),
        name_before(names, b, c),
    ensures
        name_before(names, a, c),
{
    if names[a]@ == names[c]@ {
        if names[a]@ != names[b]@ {
            lemma_text_le_antisym(names[a]@, names[b]@);
        }
    } else {
        lemma_text_le_refl(names[b]@);
        lemma_text_le_trans(names[a]@, names[b]@, names[c]@);
    }
}

/// The positions of the rows named `names`, in the order the table lists
/// them: a stable sort by name, reversed when descending.
pub fn order_by_names(names: &Vec<String>, direction: SortDirection) -> (order: Vec<usize>)
    ensures
        ordered_by_names(names@, order@, direction),
{
    let mut r: Vec<usize> = Vec::new();
    let mut i: usize = 0;
    while i < names.len()
        invariant
            i <= names@.len(),
            r@.len() == i,
            forall|a: int| 0 <= a < r@.len() ==> r@[a] < i,
            forall|a: int, b: int| 0 <= a < b < r@.len() ==> r@[a] != r@[b],
            forall|a: int, b: int| 0 <= a < b < r@.len() ==> name_before(names@, r@[a] as int, r@[b] as int),
        decreases names.len() - i,
    {
        let mut p: usize = 0;
        while p < r.len() && text_le_exec(names[r[p]].as_str(), names[i].as_str())
            invariant
                p <= r@.len(),
                i < names@.len(),
                forall|a: int| 0 <= a < r@.len() ==> r@[a] < i,
                forall|a: int| 0 <= a < p ==> text_le(names@[r@[a] as int]@, names@[i as int]@),
            decreases r.len() - p,
        {
            p += 1;
        }
        let ghost before = r@;
        r.insert(p, i);
        proof {
            let x = names@[i as int]@;
            assert forall|a: int| 0 <= a < p implies name_before(names@, before[a] as int, i as int) by {
                if names@[before[a] as int]@ == x {
                } else {
                }
            }
            if p < before.len() {
                let y = names@[before[p as int] as int]@;
                assert(!text_le(y, x));
                lemma_text_le_total(y, x);
                assert(name_before(names@, i as int, before[p as int] as int)) by {
                    if y == x {
                        assert(false);
                    }
                }
            }
            assert forall|a: int, b: int| 0 <= a < b < r@.len() implies name_before(names@, r@[a] as int, r@[b] as int) by {
                if b < p {
                    assert(r@[a] == before[a] && r@[b] == before[b]);
                } else if b == p {
                    assert(r@[a] == before[a]);
                } else if a < p {
                    assert(r@[a] == before[a] && r@[b] == before[b - 1]);
                    lemma_name_before_trans(names@, before[a] as int, i as int, before[p as int] as int);
                    if b - 1 > p {
                        lemma_name_before_trans(names@, before[a] as int, before[p as int] as int, before[b - 1] as int);
                    }
                } else if a == p {
                    assert(r@[b] == before[b - 1]);
                    if b - 1 > p {
                        lemma_name_before_trans(names@, i as int, before[p as int] as int, before[b - 1] as int);
                    }
                } else {
                    assert(r@[a] == before[a - 1] && r@[b] == before[b - 1]);
                }
            }
            assert forall|a: int, b: int| 0 <= a < b < r@.len() implies r@[a] != r@[b] by {
                if b < p {
                    assert(r@[a] == before[a] && r@[b] == before[b]);
                } else if b == p {
                    assert(r@[a] == before[a]);
                } else if a < p {
                    assert(r@[a] == before[a] && r@[b] == before[b - 1]);
                } else if a == p {
                    assert(r@[b] == before[b - 1]);
                } else {
                    assert(r@[a] == before[a - 1] && r@[b] == before[b - 1]);
                }
            }
            assert forall|a: int| 0 <= a < r@.len() implies r@[a] < i + 1 by {
                if a < p {
                    assert(r@[a] == before[a]);
                } else if a > p {
                    assert(r@[a] == before[a - 1]);
                }
            }
        }
        i += 1;
    }
    if direction == SortDirection::Desc {
        let ghost asc = r@;
        let mut d: Vec<usize> = Vec::new();
        let mut j: usize = r.len();
        while j > 0
            invariant
                j <= r@.len(),
                r@ == asc,
                d@.len() == asc.len() - j,
                forall|a: int| 0 <= a < d@.len() ==> d@[a] == asc[asc.len() - 1 - a],
            decreases j,
        {
            j -= 1;
            d.push(r[j]);
        }
        assert forall|a: int, b: int| 0 <= a < b < d@.len() implies d@[a] != d@[b] by {
            assert(d@[a] == asc[asc.len() - 1 - a] && d@[b] == asc[asc.len() - 1 - b]);
        }
        assert forall|a: int, b: int| 0 <= a < b < d@.len() implies name_before(names@, d@[b] as int, d@[a] as int) by {
            assert(d@[a] == asc[asc.len() - 1 - a] && d@[b] == asc[asc.len() - 1 - b]);
        }
        assert forall|a: int| 0 <= a < d@.len() implies d@[a] < names@.len() by {
            assert(d@[a] == asc[asc.len() - 1 - a]);
        }
        d
    } else {
        r
    }
}

// ---------------------------------------------------------------------------
// Memory deltas
// ---------------------------------------------------------------------------

/// The sum of `s`, added up from the front.
pub open spec fn total(s: Seq<i64>) -> int
    decreases s.len(),
{
    if s.len() == 0 { 0 } else { total(s.drop_last()) + s.last() }
}

/// Adding up `s` from the front stays within `i64` at every step.
pub open spec fn sums_fit(s: Seq<i64>) -> bool {
    forall|k: int| 0 <= k <= s.len() ==> i64::MIN <= #[trigger] total(s.take(k)) <= i64::MAX
}

/// `a / b` rounded toward zero, as Rust divides integers.
pub open spec fn div_toward_zero(a: int, b: int) -> int {
    if a >= 0 { a / b } else { -((-a) / b) }
}

/// The average memory delta of a function over its calls, rounded toward
/// zero; 0 before any call.
pub fn average_delta(deltas: &Vec<i64>) -> (a: i64)
    requires
        sums_fit(deltas@),
        deltas@.len() <= i64::MAX,
    ensures
        a == (if deltas@.len() == 0 { 0 } else { div_toward_zero(total(deltas@), deltas@.len() as int) }),
{
    if deltas.len() == 0 {
        return 0;
    }
    let mut sum: i64 = 0;
    let mut i: usize = 0;
    assert(deltas@.take(0) =~= Seq::<i64>::empty());
    while i < deltas.len()
        invariant
            i <= deltas@.len(),
            sums_fit(deltas@),
            sum == total(deltas@.take(i as int)),
        decreases deltas.len() - i,
    {
        assert(deltas@.take(i + 1).drop_last() =~= deltas@.take(i as int));
        assert(i64::MIN <= total(deltas@.take(i + 1)) <= i64::MAX);
        sum = sum + deltas[i];
        i += 1;
    }
    assert(deltas@.take(deltas@.len() as int) =~= deltas@);
    let n = deltas.len() as i128;
    let s = sum as i128;
    let q: i128 = if s >= 0 {
        let r = s / n;
        assert(0 <= r <= s) by (nonlinear_arith)
            requires r == s / n, n >= 1, s >= 0;
        r
    } else {
        let m = -s;
        let r = m / n;
        assert(0 <= r <= m) by (nonlinear_arith)
            requires r == m / n, n >= 1, m >= 0;
        -r
    };
    q as i64
}

/// Choosing the column the table is already ordered by twice restores the
/// direction, back at the top of the table.
pub proof fn law_same_column_twice(p: PerformanceProfileState)
    ensures
        sort_set(sort_set(p, p.sort_key), p.sort_key) == (PerformanceProfileState { scroll_offset: 0, ..p }),
{
}

/// Scrolling never moves the table past its last full page.
pub proof fn law_rows_stay_on_page(p: PerformanceProfileState, total: usize, visible: usize)
    requires
        p.scroll_offset <= last_offset(total, visible),
    ensures
        rows_down(p, total, visible).scroll_offset <= last_offset(total, visible),
        rows_up(p).scroll_offset <= p.scroll_offset,
{
}

} // verus!
