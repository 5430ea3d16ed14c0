//! Faiss release numbers: parsing the text that the library reports,
//! rendering it back, and ordering releases.

use vstd::prelude::*;
use crate::text::{is_digit, digit_char, digit_value, decimal, chars_of, append_decimal, push_char};
use crate::number::{digits_value, all_digits};

verus! {

/// A Faiss release number `major.minor.patch`.
#[derive(Debug, Clone, Copy, PartialEq, Eq, Structural, PartialOrd, Ord)]
pub struct FaissVersion {
    pub major: u32,
    pub minor: u32,
    pub patch: u32,
}

/// How many chars at the front of `s` are not '.'.
pub open spec fn leading_non_dots(s: Seq<char>) -> nat
    decreases s.len(),
{
    if s.len() == 0 || s[0] == '.' {
        0
    } else {
        1 + leading_non_dots(s.drop_first())
    }
}

/// How many chars at the front of `s` are ASCII digits.
pub open spec fn digit_run(s: Seq<char>) -> nat
    decreases s.len(),
{
    if s.len() == 0 || !is_digit(s[0]) {
        0
    } else {
        1 + digit_run(s.drop_first())
    }
}

/// The text before the first '.' of `s` (all of `s` when it has none).
pub open spec fn split_head(s: Seq<char>) -> Seq<char> {
    s.take(leading_non_dots(s) as int)
}

/// The text after the first '.' of `s`, when `s` has one.
pub open spec fn split_rest(s: Seq<char>) -> Option<Seq<char>> {
    if leading_non_dots(s) < s.len() {
        Some(s.skip(leading_non_dots(s) + 1int))
    } else {
        None
    }
}

/// The number that a version field starts with: its leading digits, when
/// there is at least one and their value fits in a `u32`.
pub open spec fn field_value(field: Seq<char>) -> Option<u32> {
    let ds = field.take(digit_run(field) as int);
    if ds.len() == 0 || digits_value(ds) > u32::MAX {
        None
    } else {
        Some(digits_value(ds) as u32)
    }
}

/// The release that a version text names: its first three '.'-separated
/// fields must each start with a number; anything after those numbers, and
/// any further fields, are ignored.
pub open spec fn parse_version(s: Seq<char>) -> Option<FaissVersion> {
    match split_rest(s) {
        None => None,
        Some(r1) => match split_rest(r1) {
            None => None,
            Some(r2) => match (
                field_value(split_head(s)),
                field_value(split_head(r1)),
                field_value(split_head(r2)),
            ) {
                (Some(major), Some(minor), Some(patch)) => Some(
                    FaissVersion { major, minor, patch },
                ),
                _ => None,
            },
        },
    }
}

/// `major.minor.patch` in decimal.
pub open spec fn version_text(v: FaissVersion) -> Seq<char> {
    decimal(v.major as nat) + seq!['.'] + decimal(v.minor as nat) + seq!['.'] + decimal(
        v.patch as nat,
    )
}

/// Release `a` comes before release `b`: the fields compared in order.
pub open spec fn version_precedes(a: FaissVersion, b: FaissVersion) -> bool {
    ||| a.major < b.major
    ||| a.major == b.major && a.minor < b.minor
    ||| a.major == b.major && a.minor == b.minor && a.patch < b.patch
}

/// The first release with IVF-RaBitQ indexes: 1.11.0.
pub open spec fn spec_min_ivf_rabitq_version() -> FaissVersion {
    FaissVersion { major: 1, minor: 11, patch: 0 }
}

/// The first release with IVF-RaBitQ indexes: 1.11.0.
pub fn min_ivf_rabitq_version() -> (v: FaissVersion)
    ensures
        v == spec_min_ivf_rabitq_version(),
{
    FaissVersion::new(1, 11, 0)
}

fn digit_at(c: char) -> (b: bool)
    ensures
        b == is_digit(c),
{
    '0' <= c && c <= '9'
}

proof fn lemma_run_step(s: Seq<char>, i: int)
    requires
        0 <= i < s.len(),
    ensures
        s.skip(i).drop_first() == s.skip(i + 1),
        s.skip(i)[0] == s[i],
{
    assert(s.skip(i).drop_first() =~= s.skip(i + 1));
}

/// The end (exclusive) of the field of `cs` that starts at `start`.
fn field_end(cs: &[char], start: usize) -> (e: usize)
    requires
        start <= cs@.len(),
    ensures
        e == start + leading_non_dots(cs@.skip(start as int)),
        e <= cs@.len(),
{
    let mut i = start;
    while i < cs.len() && cs[i] != '.'
        invariant
            start <= i <= cs@.len(),
            leading_non_dots(cs@.skip(start as int)) == (i - start) + leading_non_dots(
                cs@.skip(i as int),
            ),
        decreases cs@.len() - i,
    {
        proof { lemma_run_step(cs@, i as int); }
        i = i + 1;
    }
    proof {
        if i < cs@.len() {
            lemma_run_step(cs@, i as int);
        } else {
            assert(cs@.skip(i as int).len() == 0);
        }
    }
    i
}

/// The number at the start of the field `cs[start..end]`.
fn field_number(cs: &[char], start: usize, end: usize) -> (r: Option<u32>)
    requires
        start <= end <= cs@.len(),
    ensures
        r == field_value(cs@.subrange(start as int, end as int)),
{
    let ghost f = cs@.subrange(start as int, end as int);
    let mut i = start;
    let mut v: u64 = 0;
    assert(f.skip(0) == f);
    assert(f.take(0) == Seq::<char>::empty());
    while i < end && digit_at(cs[i])
        invariant
            start <= i <= end <= cs@.len(),
            f == cs@.subrange(start as int, end as int),
            digit_run(f) == (i - start) + digit_run(f.skip(i - start)),
            all_digits(f.take(i - start)),
            v == digits_value(f.take(i - start)),
            v <= u32::MAX,
        decreases end - i,
    {
        proof { lemma_run_step(f, i - start); }
        let d: u64 = ((cs[i] as u32) - 48u32) as u64;
        let ghost pre = f.take(i - start);
        let ghost next = f.take(i + 1 - start);
        assert(next.drop_last() == pre);
        assert(next.last() == cs@[i as int]);
        assert(all_digits(next)) by {
            assert forall|j: int| 0 <= j < next.len() implies #[trigger] is_digit(next[j]) by {
                if j < pre.len() {
                    assert(next[j] == pre[j]);
                }
            }
        }
        let nv = v * 10 + d;
        if nv > 4294967295u64 {
            proof { lemma_digits_value_grows(f, (i + 1 - start) as int); }
            return None;
        }
        v = nv;
        i = i + 1;
    }
    proof {
        if i < end {
            lemma_run_step(f, i - start);
        } else {
            assert(f.skip(i - start).len() == 0);
        }
        assert(digit_run(f) == i - start);
    }
    if i == start {
        None
    } else {
        Some(v as u32)
    }
}

/// Reading more digits never makes the value smaller.
proof fn lemma_digits_value_grows(f: Seq<char>, k: int)
    requires
        0 <= k <= digit_run(f),
    ensures
        digits_value(f.take(k)) <= digits_value(f.take(digit_run(f) as int)),
    decreases digit_run(f) - k,
{
    lemma_digit_run_bound(f);
    if k < digit_run(f) {
        lemma_digits_value_grows(f, k + 1);
        let next = f.take(k + 1);
        assert(next.drop_last() == f.take(k));
    }
}

proof fn lemma_digit_run_bound(f: Seq<char>)
    ensures
        digit_run(f) <= f.len(),
    decreases f.len(),
{
    if f.len() > 0 && is_digit(f[0]) {
        lemma_digit_run_bound(f.drop_first());
    }
}

impl FaissVersion {
    /// The release `major.minor.patch`.
    pub fn new(major: u32, minor: u32, patch: u32) -> (v: Self)
        ensures
            v.major == major,
            v.minor == minor,
            v.patch == patch,
    {
        FaissVersion { major, minor, patch }
    }

    /// Reads a version text such as "1.11.0" or "1.11.0-dev": see
    /// `parse_version`.
    pub fn parse(version: &str) -> (r: Option<Self>)
        ensures
            r == parse_version(version@),
    {
        let cs = chars_of(version);
        let s = cs.as_slice();
        let ghost g = s@;
        let e0 = field_end(s, 0);
        assert(g.skip(0) == g);
        if e0 >= s.len() {
            return None;
        }
        let ghost r1 = g.skip(e0 + 1);
        let e1 = field_end(s, e0 + 1);
        proof { lemma_skip_skip(g, e0 + 1, 0); }
        if e1 >= s.len() {
            assert(leading_non_dots(r1) == r1.len());
            return None;
        }
        let ghost r2 = r1.skip(leading_non_dots(r1) + 1int);
        proof { lemma_skip_skip(g, e0 + 1, leading_non_dots(r1) + 1int); }
        let e2 = field_end(s, e1 + 1);
        let major = field_number(s, 0, e0);
        let minor = field_number(s, e0 + 1, e1);
        let patch = field_number(s, e1 + 1, e2);
        proof {
            assert(g.subrange(0, e0 as int) == split_head(g));
            assert(g.subrange(e0 + 1, e1 as int) == split_head(r1));
            assert(g.subrange(e1 + 1, e2 as int) == split_head(r2));
        }
        match (major, minor, patch) {
            (Some(a), Some(b), Some(c)) => Some(FaissVersion::new(a, b, c)),
            _ => None,
        }
    }

    /// The text `major.minor.patch`.
    pub fn to_string(&self) -> (s: String)
        ensures
            s@ == version_text(*self),
    {
        let mut s = String::new();
        append_decimal(&mut s, self.major as u64);
        push_char(&mut s, '.');
        append_decimal(&mut s, self.minor as u64);
        push_char(&mut s, '.');
        append_decimal(&mut s, self.patch as u64);
        s
    }

    /// Whether this release comes before `other`.
    pub fn precedes(&self, other: &FaissVersion) -> (b: bool)
        ensures
            b == version_precedes(*self, *other),
    {
        self.major < other.major || (self.major == other.major && (self.minor < other.minor || (
        self.minor == other.minor && self.patch < other.patch)))
    }
}

proof fn lemma_digit_char(d: nat)
    requires
        d < 10,
    ensures
        is_digit(digit_char(d)),
        digit_value(digit_char(d)) == d,
{
    assert((digit_char(d) as int) == d + 48);
}

/// The decimal rendering of `n` is a non-empty run of digits worth `n`.
pub proof fn lemma_decimal_digits(n: nat)
    ensures
        all_digits(decimal(n)),
        decimal(n).len() >= 1,
        digits_value(decimal(n)) == n,
    decreases n,
{
    lemma_digit_char(n % 10);
    if n < 10 {
        assert(n % 10 == n);
        assert(decimal(n).drop_last() =~= Seq::<char>::empty());
        assert(digits_value(Seq::<char>::empty()) == 0);
        assert(decimal(n).last() == digit_char(n));
        assert(digits_value(decimal(n)) == digit_value(digit_char(n)));
    } else {
        lemma_decimal_digits(n / 10);
        let d = decimal(n);
        assert(d.drop_last() == decimal(n / 10));
        assert(d.last() == digit_char(n % 10));
        assert((n / 10) * 10 + n % 10 == n);
        assert(digits_value(d) == digits_value(decimal(n / 10)) * 10 + digit_value(digit_char(n % 10)));
        assert forall|i: int| 0 <= i < d.len() implies #[trigger] is_digit(d[i]) by {
            if i < d.len() - 1 {
                assert(d[i] == decimal(n / 10)[i]);
            }
        }
    }
}

proof fn lemma_non_dots_concat(d: Seq<char>, t: Seq<char>)
    requires
        all_digits(d),
    ensures
        leading_non_dots(d + t) == d.len() + leading_non_dots(t),
    decreases d.len(),
{
    if d.len() > 0 {
        let tail = d.drop_first();
        assert(all_digits(tail)) by {
            assert forall|i: int| 0 <= i < tail.len() implies #[trigger] is_digit(tail[i]) by {
                assert(tail[i] == d[i + 1]);
            }
        }
        lemma_non_dots_concat(tail, t);
        assert((d + t).drop_first() =~= tail + t);
        assert(is_digit(d[0]));
        assert((d + t)[0] == d[0]);
    } else {
        assert(d + t =~= t);
    }
}

pub proof fn lemma_digit_run_concat(d: Seq<char>, t: Seq<char>)
    requires
        all_digits(d),
        t.len() == 0 || !is_digit(t[0]),
    ensures
        digit_run(d + t) == d.len(),
    decreases d.len(),
{
    if d.len() > 0 {
        let tail = d.drop_first();
        assert(all_digits(tail)) by {
            assert forall|i: int| 0 <= i < tail.len() implies #[trigger] is_digit(tail[i]) by {
                assert(tail[i] == d[i + 1]);
            }
        }
        lemma_digit_run_concat(tail, t);
        assert((d + t).drop_first() =~= tail + t);
        assert(is_digit(d[0]));
        assert((d + t)[0] == d[0]);
    } else {
        assert(d + t =~= t);
    }
}

/// A field that starts with the decimal rendering of `n`, followed by text
/// that does not start with a digit, is worth `n`.
proof fn lemma_field_of_decimal(n: u32, t: Seq<char>)
    requires
        t.len() == 0 || !is_digit(t[0]),
    ensures
        field_value(decimal(n as nat) + t) == Some(n),
{
    let d = decimal(n as nat);
    lemma_decimal_digits(n as nat);
    lemma_digit_run_concat(d, t);
    assert((d + t).take(d.len() as int) =~= d);
}

/// Splitting a run of digits, a '.', and more text at the first '.'.
proof fn lemma_split_after_digits(d: Seq<char>, rest: Seq<char>)
    requires
        all_digits(d),
    ensures
        split_head(d + seq!['.'] + rest) == d,
        split_rest(d + seq!['.'] + rest) == Some(rest),
{
    let dot = seq!['.'];
    let s = d + dot + rest;
    lemma_non_dots_concat(d, dot + rest);
    assert(d + (dot + rest) =~= s);
    assert(leading_non_dots(dot + rest) == 0);
    assert(s.skip(d.len() + 1int) =~= rest);
    assert(s.take(d.len() as int) =~= d);
}

/// Reading back a rendered release gives the same release, also when any
/// text that does not start with a digit follows it (as in "1.11.0-dev").
pub proof fn lemma_parse_version_text(v: FaissVersion, t: Seq<char>)
    requires
        t.len() == 0 || !is_digit(t[0]),
    ensures
        parse_version(version_text(v) + t) == Some(v),
{
    let d1 = decimal(v.major as nat);
    let d2 = decimal(v.minor as nat);
    let d3 = decimal(v.patch as nat);
    lemma_decimal_digits(v.major as nat);
    lemma_decimal_digits(v.minor as nat);
    lemma_decimal_digits(v.patch as nat);
    let dot = seq!['.'];
    let r2 = d3 + t;
    let r1 = d2 + dot + r2;
    let s = d1 + dot + r1;
    assert(version_text(v) + t =~= s);
    lemma_split_after_digits(d1, r1);
    lemma_split_after_digits(d2, r2);
    lemma_field_of_decimal(v.major, seq![]);
    assert(d1 + seq![] =~= d1);
    lemma_field_of_decimal(v.minor, seq![]);
    assert(d2 + seq![] =~= d2);
    lemma_third_field(v.patch, t);
}

proof fn lemma_third_field(n: u32, t: Seq<char>)
    requires
        t.len() == 0 || !is_digit(t[0]),
    ensures
        field_value(split_head(decimal(n as nat) + t)) == Some(n),
{
    let d3 = decimal(n as nat);
    lemma_decimal_digits(n as nat);
    lemma_non_dots_concat(d3, t);
    let k = leading_non_dots(t);
    lemma_non_dots_bound(t);
    assert(split_head(d3 + t) =~= d3 + t.take(k as int));
    lemma_field_of_decimal(n, t.take(k as int));
}

proof fn lemma_non_dots_bound(t: Seq<char>)
    ensures
        leading_non_dots(t) <= t.len(),
    decreases t.len(),
{
    if t.len() > 0 && t[0] != '.' {
        lemma_non_dots_bound(t.drop_first());
    }
}

/// Reading back a rendered release gives the same release.
pub proof fn lemma_version_round_trip(v: FaissVersion)
    ensures
        parse_version(version_text(v)) == Some(v),
{
    lemma_parse_version_text(v, seq![]);
    assert(version_text(v) + seq![] =~= version_text(v));
}

/// Releases are strictly and totally ordered by `version_precedes`: no
/// release comes before itself, the order is transitive, and of two
/// different releases one comes before the other.
pub proof fn lemma_version_order(a: FaissVersion, b: FaissVersion, c: FaissVersion)
    ensures
        !version_precedes(a, a),
        version_precedes(a, b) ==> !version_precedes(b, a),
        version_precedes(a, b) && version_precedes(b, c) ==> version_precedes(a, c),
        a != b ==> version_precedes(a, b) || version_precedes(b, a),
{
}

/// A release as one number: its fields as the digits of base 2^32.
pub open spec fn version_number(v: FaissVersion) -> int {
    v.major * 0x1_0000_0000_0000_0000 + v.minor * 0x1_0000_0000 + v.patch
}

/// One release comes before another exactly when its number is smaller:
/// raising any field, with the fields before it kept, gives a later
/// release.
pub proof fn lemma_precedes_by_number(a: FaissVersion, b: FaissVersion)
    ensures
        version_precedes(a, b) <==> version_number(a) < version_number(b),
        a.major < b.major ==> version_precedes(a, b),
        a.major == b.major && a.minor < b.minor ==> version_precedes(a, b),
        a.major == b.major && a.minor == b.minor && a.patch < b.patch ==> version_precedes(a, b),
        a == b ==> !version_precedes(a, b),
{
}

proof fn lemma_skip_skip(g: Seq<char>, a: int, b: int)
    requires
        0 <= a <= g.len(),
        0 <= b <= g.len() - a,
    ensures
        g.skip(a).skip(b) == g.skip(a + b),
{
    assert(g.skip(a).skip(b) =~= g.skip(a + b));
}

} // verus!
