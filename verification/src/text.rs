//! Character-level groundwork for date parsing: whitespace trimming, decimal
//! digit strings, and plain string comparison, each specified over `Seq<char>`.

use vstd::prelude::*;
use vstd::string::StrSliceExecFns;

verus! {

/// The surrounding characters that a raw date string may carry: ASCII
/// whitespace (space, tab, line feed, carriage return, form feed).
pub open spec fn is_space(c: char) -> bool {
    c == ' ' || c == '\t' || c == '\n' || c == '\r' || c == '\u{000C}'
}

/// A decimal digit, by code point: `'0'` is 48 and `'9'` is 57.
pub open spec fn is_digit(c: char) -> bool {
    48 <= c as u32 <= 57
}

/// The value of a single decimal digit.
pub open spec fn digit_val(c: char) -> int {
    c as u32 - 48
}

/// `s` with leading whitespace removed.
pub open spec fn trim_front(s: Seq<char>) -> Seq<char>
    decreases s.len(),
{
    if s.len() > 0 && is_space(s[0]) {
        trim_front(s.skip(1))
    } else {
        s
    }
}

/// `s` with trailing whitespace removed.
pub open spec fn trim_back(s: Seq<char>) -> Seq<char>
    decreases s.len(),
{
    if s.len() > 0 && is_space(s.last()) {
        trim_back(s.drop_last())
    } else {
        s
    }
}

/// `s` with surrounding whitespace removed.
pub open spec fn trimmed(s: Seq<char>) -> Seq<char> {
    trim_back(trim_front(s))
}

/// Every character of `f` is a decimal digit.
pub open spec fn all_digits(f: Seq<char>) -> bool {
    forall|k: int| 0 <= k < f.len() ==> is_digit(f[k])
}

/// The number written by a digit string, most significant digit first.
pub open spec fn digits_val(f: Seq<char>) -> int
    decreases f.len(),
{
    if f.len() == 0 {
        0
    } else {
        digits_val(f.drop_last()) * 10 + digit_val(f.last())
    }
}

/// A well-formed numeric field: an optional leading `+` sign followed by at
/// least one decimal digit.
pub open spec fn numeric(f: Seq<char>) -> bool {
    if f.len() == 0 {
        false
    } else if f[0] == '+' {
        f.len() > 1 && all_digits(f.skip(1))
    } else {
        all_digits(f)
    }
}

/// The number a numeric field denotes, ignoring a leading `+` sign.
pub open spec fn field_val(f: Seq<char>) -> int {
    if f.len() > 0 && f[0] == '+' {
        digits_val(f.skip(1))
    } else {
        digits_val(f)
    }
}

proof fn lemma_trim_front_skip(s: Seq<char>, lo: int)
    requires
        0 <= lo <= s.len(),
        forall|k: int| 0 <= k < lo ==> is_space(s[k]),
        lo < s.len() ==> !is_space(s[lo]),
    ensures
        trim_front(s) == s.skip(lo),
    decreases lo,
{
    if lo == 0 {
        assert(s.skip(0) =~= s);
    } else {
        lemma_trim_front_skip(s.skip(1), lo - 1);
        assert(s.skip(1).skip(lo - 1) =~= s.skip(lo));
    }
}

proof fn lemma_trim_back_take(s: Seq<char>, hi: int)
    requires
        0 <= hi <= s.len(),
        forall|k: int| hi <= k < s.len() ==> is_space(s[k]),
        hi > 0 ==> !is_space(s[hi - 1]),
    ensures
        trim_back(s) == s.take(hi),
    decreases s.len(),
{
    if hi == s.len() {
        assert(s.take(hi) =~= s);
    } else {
        assert(is_space(s.last()));
        lemma_trim_back_take(s.drop_last(), hi);
        assert(s.drop_last().take(hi) =~= s.take(hi));
    }
}

proof fn lemma_trim_front_first(s: Seq<char>)
    ensures
        trim_front(s).len() > 0 ==> !is_space(trim_front(s)[0]),
    decreases s.len(),
{
    if s.len() > 0 && is_space(s[0]) {
        lemma_trim_front_first(s.skip(1));
    }
}

proof fn lemma_trim_back_last(s: Seq<char>)
    ensures
        trim_back(s).len() > 0 ==> !is_space(trim_back(s).last()),
    decreases s.len(),
{
    if s.len() > 0 && is_space(s.last()) {
        lemma_trim_back_last(s.drop_last());
    }
}

proof fn lemma_trim_back_keeps_first(s: Seq<char>)
    ensures
        trim_back(s).len() > 0 ==> trim_back(s)[0] == s[0],
    decreases s.len(),
{
    if s.len() > 0 && is_space(s.last()) {
        lemma_trim_back_keeps_first(s.drop_last());
    }
}

/// Trimming is idempotent: a trimmed string has nothing left to trim.
pub proof fn lemma_trimmed_idempotent(s: Seq<char>)
    ensures
        trimmed(trimmed(s)) == trimmed(s),
{
    let u = trim_front(s);
    let t = trim_back(u);
    lemma_trim_front_first(s);
    lemma_trim_back_keeps_first(u);
    lemma_trim_back_last(u);
    assert(trim_front(t) == t);
    assert(trim_back(t) == t);
}

/// A string with no surrounding whitespace trims to itself.
pub proof fn lemma_trimmed_noop(s: Seq<char>)
    requires
        s.len() == 0 || (!is_space(s[0]) && !is_space(s.last())),
    ensures
        trimmed(s) == s,
{
    assert(trim_front(s) == s);
    assert(trim_back(s) == s);
}

proof fn lemma_digits_val_nonneg(f: Seq<char>)
    requires
        all_digits(f),
    ensures
        digits_val(f) >= 0,
    decreases f.len(),
{
    if f.len() > 0 {
        lemma_digits_val_nonneg(f.drop_last());
    }
}

proof fn lemma_digits_val_prefix_le(f: Seq<char>, k: int)
    requires
        all_digits(f),
        0 <= k <= f.len(),
    ensures
        digits_val(f.take(k)) <= digits_val(f),
    decreases f.len(),
{
    if k == f.len() {
        assert(f.take(k) =~= f);
    } else {
        assert(f.drop_last().take(k) =~= f.take(k));
        lemma_digits_val_prefix_le(f.drop_last(), k);
        lemma_digits_val_nonneg(f.drop_last());
    }
}

pub(crate) fn is_space_char(c: char) -> (b: bool)
    ensures
        b == is_space(c),
{
    c == ' ' || c == '\t' || c == '\n' || c == '\r' || c == '\u{000C}'
}

/// The slice of `s` with surrounding whitespace removed.
pub(crate) fn trim_str<'a>(s: &'a str) -> (t: &'a str)
    ensures
        t@ == trimmed(s@),
{
    let n: usize = s.unicode_len();
    let mut lo: usize = 0;
    while lo < n && is_space_char(s.get_char(lo))
        invariant
            n == s@.len(),
            0 <= lo <= n,
            forall|k: int| 0 <= k < lo ==> is_space(s@[k]),
        decreases n - lo,
    {
        lo = lo + 1;
    }
    let mut hi: usize = n;
    while hi > lo && is_space_char(s.get_char(hi - 1))
        invariant
            n == s@.len(),
            lo <= hi <= n,
            forall|k: int| hi <= k < n ==> is_space(s@[k]),
        decreases hi,
    {
        hi = hi - 1;
    }
    let t = s.substring_char(lo, hi);
    proof {
        lemma_trim_front_skip(s@, lo as int);
        let u = s@.skip(lo as int);
        assert forall|k: int| hi - lo <= k < u.len() implies is_space(u[k]) by {
            assert(u[k] == s@[k + lo]);
        }
        lemma_trim_back_take(u, hi - lo);
        assert(u.take(hi - lo) =~= s@.subrange(lo as int, hi as int));
    }
    t
}

/// Character-by-character string equality.
pub(crate) fn str_eq(a: &str, b: &str) -> (r: bool)
    ensures
        r == (a@ == b@),
{
    let n: usize = a.unicode_len();
    let m: usize = b.unicode_len();
    if n != m {
        return false;
    }
    let mut i: usize = 0;
    while i < n
        invariant
            n == a@.len(),
            n == b@.len(),
            0 <= i <= n,
            forall|k: int| 0 <= k < i ==> a@[k] == b@[k],
        decreases n - i,
    {
        if a.get_char(i) != b.get_char(i) {
            return false;
        }
        i = i + 1;
    }
    proof {
        assert(a@ =~= b@);
    }
    true
}

/// Reads a numeric field and checks it against an inclusive range.
///
/// Returns the field's value exactly when the field is an optionally
/// `+`-signed digit string whose value lies in `[lo, hi]`; overlong digit
/// strings are rejected like any other out-of-range value.
pub(crate) fn parse_field(s: &str, lo: u64, hi: u64) -> (r: Option<u64>)
    requires
        lo <= hi,
        hi <= 0x1000_0000_0000_0000,
    ensures
        match r {
            Some(v) => numeric(s@) && lo <= v <= hi && v as int == field_val(s@),
            None => !(numeric(s@) && lo as int <= field_val(s@) <= hi as int),
        },
{
    let n: usize = s.unicode_len();
    if n == 0 {
        return None;
    }
    let start: usize = if s.get_char(0) == '+' {
        1
    } else {
        0
    };
    if n == start {
        return None;
    }
    let ghost digits: Seq<char> = s@.skip(start as int);
    let mut acc: u64 = 0;
    let mut i: usize = start;
    while i < n
        invariant
            n == s@.len(),
            n > start,
            start == (if s@[0] == '+' { 1usize } else { 0usize }),
            digits == s@.skip(start as int),
            start <= i <= n,
            hi <= 0x1000_0000_0000_0000,
            forall|k: int| start <= k < i ==> is_digit(s@[k]),
            acc <= hi,
            acc as int == digits_val(s@.subrange(start as int, i as int)),
        decreases n - i,
    {
        let c = s.get_char(i);
        let u: u32 = c as u32;
        if u < 48 || u > 57 {
            proof {
                if numeric(s@) {
                    assert(is_digit(digits[i - start]));
                    assert(digits[i - start] == s@[i as int]);
                }
            }
            return None;
        }
        let d: u64 = (u - 48) as u64;
        let nv: u64 = acc * 10 + d;
        proof {
            let p = s@.subrange(start as int, i as int);
            let q = s@.subrange(start as int, i as int + 1);
            assert(q =~= p.push(s@[i as int]));
            assert(q.drop_last() =~= p);
            assert(nv as int == digits_val(q));
        }
        if nv > hi {
            proof {
                if numeric(s@) {
                    if start == 0 {
                        assert(s@.skip(0) =~= s@);
                    }
                    assert(all_digits(digits));
                    assert(digits.take(i + 1 - start) =~= s@.subrange(start as int, i as int + 1));
                    lemma_digits_val_prefix_le(digits, i + 1 - start);
                    assert(field_val(s@) == digits_val(digits));
                }
            }
            return None;
        }
        acc = nv;
        i = i + 1;
    }
    proof {
        assert(s@.subrange(start as int, n as int) =~= digits);
        if start == 1 {
            assert(forall|k: int| 0 <= k < digits.len() ==> digits[k] == s@[k + 1]);
        } else {
            assert(!is_digit('+'));
            assert(s@[0] != '+');
            assert(s@.skip(0) =~= s@);
        }
        assert(numeric(s@));
        assert(field_val(s@) == acc as int);
    }
    if acc < lo {
        return None;
    }
    Some(acc)
}

} // verus!
