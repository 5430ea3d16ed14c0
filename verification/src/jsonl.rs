//! The line handling of JSON-lines embedding files: which lines hold a
//! record, and how a record that does not parse is reported.

use vstd::prelude::*;
use crate::text::{decimal, append_decimal};

verus! {

/// Unicode's White_Space chars, which `char::is_whitespace` accepts.
pub open spec fn is_white(c: char) -> bool {
    ||| '\u{9}' <= c && c <= '\u{d}'
    ||| c == ' '
    ||| c == '\u{85}'
    ||| c == '\u{a0}'
    ||| c == '\u{1680}'
    ||| '\u{2000}' <= c && c <= '\u{200a}'
    ||| c == '\u{2028}'
    ||| c == '\u{2029}'
    ||| c == '\u{202f}'
    ||| c == '\u{205f}'
    ||| c == '\u{3000}'
}

/// How many chars at the front of `s` are white space.
pub open spec fn lead_white(s: Seq<char>) -> nat
    decreases s.len(),
{
    if s.len() == 0 || !is_white(s[0]) {
        0
    } else {
        1 + lead_white(s.drop_first())
    }
}

/// How many chars at the back of `s` are white space.
pub open spec fn trail_white(s: Seq<char>) -> nat
    decreases s.len(),
{
    if s.len() == 0 || !is_white(s.last()) {
        0
    } else {
        1 + trail_white(s.drop_last())
    }
}

/// `s` without its leading and trailing white space, as `str::trim` gives.
pub open spec fn trimmed(s: Seq<char>) -> Seq<char> {
    if lead_white(s) >= s.len() {
        Seq::empty()
    } else {
        s.subrange(lead_white(s) as int, s.len() - trail_white(s))
    }
}

fn white_char(c: char) -> (b: bool)
    ensures
        b == is_white(c),
{
    ('\u{9}' <= c && c <= '\u{d}') || c == ' ' || c == '\u{85}' || c == '\u{a0}' || c
        == '\u{1680}' || ('\u{2000}' <= c && c <= '\u{200a}') || c == '\u{2028}' || c
        == '\u{2029}' || c == '\u{202f}' || c == '\u{205f}' || c == '\u{3000}'
}

/// The char after the leading white space is not white space.
proof fn lemma_lead_stops(s: Seq<char>)
    requires
        lead_white(s) < s.len(),
    ensures
        !is_white(s[lead_white(s) as int]),
    decreases s.len(),
{
    if is_white(s[0]) {
        let t = s.drop_first();
        lemma_lead_stops(t);
        assert(t[lead_white(t) as int] == s[lead_white(s) as int]);
    }
}

/// The trailing white space lies after any char that is not white space.
proof fn lemma_trail_after(s: Seq<char>, p: int)
    requires
        0 <= p < s.len(),
        !is_white(s[p]),
    ensures
        trail_white(s) <= s.len() - 1 - p,
    decreases s.len(),
{
    if is_white(s.last()) {
        let d = s.drop_last();
        assert(d[p] == s[p]);
        lemma_trail_after(d, p);
    }
}

/// When `s` has a char that is not white space, the leading and trailing
/// white space do not overlap.
proof fn lemma_white_disjoint(s: Seq<char>)
    requires
        lead_white(s) < s.len(),
    ensures
        lead_white(s) + trail_white(s) < s.len(),
{
    lemma_lead_stops(s);
    lemma_trail_after(s, lead_white(s) as int);
}

/// `line` without its leading and trailing white space.
pub fn trim_line(line: &str) -> (t: &str)
    ensures
        t@ == trimmed(line@),
{
    let n = line.unicode_len();
    let mut i: usize = 0;
    assert(line@.skip(0) =~= line@);
    while i < n && white_char(line.get_char(i))
        invariant
            n == line@.len(),
            i <= n,
            lead_white(line@) == i + lead_white(line@.skip(i as int)),
        decreases n - i,
    {
        assert(line@.skip(i as int).drop_first() =~= line@.skip(i + 1));
        i = i + 1;
    }
    proof {
        if i < n {
            assert(line@.skip(i as int)[0] == line@[i as int]);
        }
        assert(lead_white(line@) == i);
    }
    if i == n {
        return line.substring_char(0, 0);
    }
    let mut j: usize = n;
    assert(line@.take(n as int) =~= line@);
    while j > i && white_char(line.get_char(j - 1))
        invariant
            n == line@.len(),
            i < n,
            lead_white(line@) == i,
            i <= j <= n,
            trail_white(line@) == (n - j) + trail_white(line@.take(j as int)),
        decreases j,
    {
        assert(line@.take(j as int).drop_last() =~= line@.take(j - 1));
        j = j - 1;
    }
    proof {
        lemma_white_disjoint(line@);
        if j > i {
            assert(line@.take(j as int).last() == line@[j - 1]);
        } else {
            assert(!is_white(line@[i as int])) by {
                assert(line@.skip(i as int)[0] == line@[i as int]);
            }
        }
        assert(trail_white(line@) == n - j);
    }
    line.substring_char(i, j)
}

/// The record text on a line: the trimmed line, unless nothing is left.
pub fn content_line(line: &str) -> (r: Option<&str>)
    ensures
        trimmed(line@).len() == 0 ==> r is None,
        trimmed(line@).len() > 0 ==> (r matches Some(t) && t@ == trimmed(line@)),
{
    let t = trim_line(line);
    if t.unicode_len() == 0 {
        None
    } else {
        Some(t)
    }
}

/// The message for a line (counted from 0) whose record does not parse,
/// given the parser's message; lines are numbered from 1 in it.
pub fn json_line_error(line_idx: usize, err: &str) -> (m: String)
    requires
        line_idx < usize::MAX,
    ensures
        m@ == "failed to parse JSON on line "@ + decimal(line_idx as nat + 1) + ": "@ + err@,
{
    let mut m = String::from_str("failed to parse JSON on line ");
    append_decimal(&mut m, (line_idx + 1) as u64);
    m.append(": ");
    m.append(err);
    m
}

} // verus!
