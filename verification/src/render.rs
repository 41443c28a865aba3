//! Rendering of a commit as a single bounded summary line.
//!
//! A rendered line is the age of the commit in whole hours followed by
//! `" h"`, left-aligned in a field of eight characters, then a single space
//! and the commit's summary.  A line longer than [`crate::MAX_MESSAGE_LENGTH`]
//! characters is cut to that many characters and `"..."` is appended.
//!
//! The current time is threaded through as an explicit parameter, so
//! rendering is a pure function of the commit's timestamp, its summary and
//! that parameter.

use vstd::prelude::*;
use vstd::string::*;
use vstd::arithmetic::div_mod::{
    lemma_fundamental_div_mod,
    lemma_fundamental_div_mod_converse,
    lemma_mod_bound,
};

verus! {

/// Number of seconds in one hour.
pub const SECONDS_IN_HOUR: i64 = 3600;

/// Width, in characters, of the field that holds the hour count.
pub const HOURS_FIELD_WIDTH: usize = 8;

/// The character for a single decimal digit.
pub open spec fn digit_char(d: nat) -> char {
    if d == 0 { '0' }
    else if d == 1 { '1' }
    else if d == 2 { '2' }
    else if d == 3 { '3' }
    else if d == 4 { '4' }
    else if d == 5 { '5' }
    else if d == 6 { '6' }
    else if d == 7 { '7' }
    else if d == 8 { '8' }
    else { '9' }
}

/// The decimal rendering of a natural number, most significant digit first,
/// without leading zeros (except for zero itself).
pub open spec fn dec_rep(n: nat) -> Seq<char>
    decreases n,
{
    if n < 10 { seq![digit_char(n)] } else { dec_rep(n / 10).push(digit_char(n % 10)) }
}

/// The decimal rendering of an integer: a minus sign before the digits when
/// the value is negative.
pub open spec fn int_rep(i: int) -> Seq<char> {
    if i < 0 { seq!['-'] + dec_rep((-i) as nat) } else { dec_rep(i as nat) }
}

/// A run of `n` spaces.
pub open spec fn spaces(n: nat) -> Seq<char>
    decreases n,
{
    if n == 0 { Seq::empty() } else { spaces((n - 1) as nat).push(' ') }
}

/// Left-aligns `s` in a field of [`HOURS_FIELD_WIDTH`] characters: spaces are
/// appended until that width is reached; a longer `s` is kept as it is.
pub open spec fn pad_label(s: Seq<char>) -> Seq<char> {
    if s.len() >= HOURS_FIELD_WIDTH { s } else { s + spaces((HOURS_FIELD_WIDTH - s.len()) as nat) }
}

/// Whole hours elapsed from `timestamp` to `now`, rounded toward minus
/// infinity (Verus integer division by a positive divisor is exactly that).
pub open spec fn spec_hours(timestamp: int, now: int) -> int {
    (now - timestamp) / (SECONDS_IN_HOUR as int)
}

/// The padded hour field of a commit line: the hour count, `" h"`, then
/// padding.
pub open spec fn spec_hours_label(timestamp: int, now: int) -> Seq<char> {
    pad_label(int_rep(spec_hours(timestamp, now)) + seq![' ', 'h'])
}

/// A commit line before the length bound is applied.
pub open spec fn spec_rendered(timestamp: int, summary: Seq<char>, now: int) -> Seq<char> {
    spec_hours_label(timestamp, now) + seq![' '] + summary
}

/// A finished commit line: the rendered line, cut to
/// [`crate::MAX_MESSAGE_LENGTH`] characters with `"..."` appended when it is
/// longer than that.
pub open spec fn spec_format(timestamp: int, summary: Seq<char>, now: int) -> Seq<char> {
    let full = spec_rendered(timestamp, summary, now);
    if full.len() > crate::MAX_MESSAGE_LENGTH {
        full.take(crate::MAX_MESSAGE_LENGTH as int) + seq!['.', '.', '.']
    } else {
        full
    }
}

/// The one-character string for a decimal digit.
fn digit_str(d: u64) -> (r: &'static str)
    requires
        d < 10,
    ensures
        r@ == seq![digit_char(d as nat)],
{
    proof {
        reveal_strlit("0");
        reveal_strlit("1");
        reveal_strlit("2");
        reveal_strlit("3");
        reveal_strlit("4");
        reveal_strlit("5");
        reveal_strlit("6");
        reveal_strlit("7");
        reveal_strlit("8");
        reveal_strlit("9");
    }
    let r = match d {
        0 => "0",
        1 => "1",
        2 => "2",
        3 => "3",
        4 => "4",
        5 => "5",
        6 => "6",
        7 => "7",
        8 => "8",
        _ => "9",
    };
    proof {
        assert(r@ =~= seq![digit_char(d as nat)]);
    }
    r
}

/// Renders a natural number in decimal.
pub fn u64_dec(n: u64) -> (r: String)
    ensures
        r@ == dec_rep(n as nat),
    decreases n,
{
    if n < 10 {
        digit_str(n).to_owned()
    } else {
        let mut s = u64_dec(n / 10);
        s.append(digit_str(n % 10));
        proof {
            assert(s@ =~= dec_rep(n as nat));
        }
        s
    }
}

/// Renders an integer in decimal, with a minus sign when it is negative.
pub fn i64_dec(i: i64) -> (r: String)
    requires
        i != i64::MIN,
    ensures
        r@ == int_rep(i as int),
{
    if i < 0 {
        let mut s = "-".to_owned();
        let m: u64 = (-i) as u64;
        s.append(u64_dec(m).as_str());
        proof {
            reveal_strlit("-");
            assert(s@ =~= int_rep(i as int));
        }
        s
    } else {
        u64_dec(i as u64)
    }
}

/// Every character of [`spaces`] is a space.
proof fn lemma_spaces_elts(n: nat)
    ensures
        spaces(n).len() == n,
        forall|i: int| 0 <= i < n ==> spaces(n)[i] == ' ',
    decreases n,
{
    if n > 0 {
        lemma_spaces_elts((n - 1) as nat);
    }
}

/// Builds the padded hour field for an hour count.
fn hours_field(h: i64) -> (r: String)
    requires
        h != i64::MIN,
    ensures
        r@ == pad_label(int_rep(h as int) + seq![' ', 'h']),
{
    let ghost base: Seq<char> = int_rep(h as int) + seq![' ', 'h'];
    let mut s = i64_dec(h);
    s.append(" h");
    proof {
        reveal_strlit(" h");
        assert(s@ =~= base);
    }
    let mut len = s.as_str().unicode_len();
    while len < HOURS_FIELD_WIDTH
        invariant
            len == s@.len(),
            base.len() <= s@.len(),
            s@ == base + spaces((s@.len() - base.len()) as nat),
            base.len() < HOURS_FIELD_WIDTH ==> s@.len() <= HOURS_FIELD_WIDTH,
            base.len() >= HOURS_FIELD_WIDTH ==> s@ == base,
        decreases HOURS_FIELD_WIDTH - len,
    {
        s.append(" ");
        proof {
            reveal_strlit(" ");
            lemma_spaces_elts((s@.len() - base.len()) as nat);
            lemma_spaces_elts((s@.len() - base.len() - 1) as nat);
            assert(s@ =~= base + spaces((s@.len() - base.len()) as nat));
        }
        len = len + 1;
    }
    proof {
        if base.len() < HOURS_FIELD_WIDTH {
            assert(s@.len() == HOURS_FIELD_WIDTH);
            assert(s@ =~= pad_label(base));
        }
        assert(s@ == pad_label(base));
    }
    s
}

/// Whole hours elapsed from `timestamp` to `now`, rounded toward minus
/// infinity.
pub fn hours_between(timestamp: i64, now: i64) -> (h: i64)
    requires
        i64::MIN <= now - timestamp <= i64::MAX,
    ensures
        h == spec_hours(timestamp as int, now as int),
{
    let diff: i64 = now - timestamp;
    if diff >= 0 {
        let q: u64 = (diff as u64) / 3600;
        proof {
            assert(q == (diff as int) / 3600);
        }
        q as i64
    } else {
        let d: u64 = (-(diff + 1)) as u64;
        let q: u64 = d / 3600;
        proof {
            lemma_fundamental_div_mod(d as int, 3600);
            let a = diff as int;
            let qq = -(q as int) - 1;
            let rr = 3600 - (d as int) % 3600 - 1;
            assert(a == 3600 * qq + rr) by {
                assert(d as int == 3600 * (q as int) + (d as int) % 3600);
                assert(a == -(d as int) - 1);
            };
            lemma_fundamental_div_mod_converse(a, 3600, qq, rr);
        }
        let q_signed: i64 = q as i64;
        -q_signed - 1
    }
}

/// Renders the age of a commit: hour count plus unit, left-aligned to the
/// fixed field width.
pub fn hours_ago(timestamp: i64, now: i64) -> (r: String)
    requires
        i64::MIN <= now - timestamp <= i64::MAX,
    ensures
        r@ == spec_hours_label(timestamp as int, now as int),
{
    let h = hours_between(timestamp, now);
    proof {
        let diff = (now - timestamp) as int;
        lemma_fundamental_div_mod(diff, 3600);
        lemma_mod_bound(diff, 3600);
    }
    hours_field(h)
}

/// Renders the full line for a commit: padded age, one space, the summary,
/// with the length bound applied.
pub fn format_line(timestamp: i64, summary: &str, now: i64) -> (r: String)
    requires
        i64::MIN <= now - timestamp <= i64::MAX,
    ensures
        r@ == spec_format(timestamp as int, summary@, now as int),
{
    let mut s = hours_ago(timestamp, now);
    s.append(" ");
    s.append(summary);
    proof {
        reveal_strlit(" ");
        assert(s@ =~= spec_rendered(timestamp as int, summary@, now as int));
    }
    let len = s.as_str().unicode_len();
    if len > crate::MAX_MESSAGE_LENGTH {
        let mut t = s.as_str().substring_char(0, crate::MAX_MESSAGE_LENGTH).to_owned();
        t.append("...");
        proof {
            reveal_strlit("...");
            assert(t@ =~= spec_format(timestamp as int, summary@, now as int));
        }
        t
    } else {
        s
    }
}

} // verus!
