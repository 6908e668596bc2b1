//! Parsing and validating a raw date string into a `Date`.
//!
//! The raw string is trimmed of surrounding whitespace and split on the
//! literal hyphen into exactly three non-empty fields; the `DateFormat`
//! decides which field is the year, the month, and the day. Each field must
//! be numeric and in range: year at least 1752, month 1 to 12, day 1 to 31
//! (deliberately not cross-checked against the month's length).

use vstd::prelude::*;
use vstd::string::StrSliceExecFns;

use crate::cli::{Cli, DateFormat};
use crate::error::ParseError;
use crate::text::{
    field_val, is_space, lemma_trimmed_idempotent, lemma_trimmed_noop, numeric, parse_field,
    trim_str, trimmed,
};

verus! {

/// The largest accepted year. The cutoff keeps every anchor computation on a
/// year comfortably inside `i64`; the parser rejects anything above it the
/// same way as any other out-of-range field.
pub const MAX_YEAR: i64 = 0x1000_0000_0000_0000;

/// A validated calendar date. A `Date` is only ever built after its fields
/// passed their individual range checks, and is never mutated.
#[derive(Clone, Copy, Debug, PartialEq, Eq, Structural)]
pub struct Date {
    /// Year, 1752 to `MAX_YEAR`.
    pub year: i64,
    /// Month, 1 to 12.
    pub month: u64,
    /// Day of month, 1 to 31.
    pub day: i64,
}

impl Date {
    /// The range checks every constructed `Date` satisfies.
    pub open spec fn wf(self) -> bool {
        &&& 1752 <= self.year <= MAX_YEAR
        &&& 1 <= self.month <= 12
        &&& 1 <= self.day <= 31
    }
}

/// `t` holds hyphens exactly at positions `i` and `j`.
pub open spec fn hyphen_split_at(t: Seq<char>, i: int, j: int) -> bool {
    &&& 0 <= i < j < t.len()
    &&& t[i] == '-'
    &&& t[j] == '-'
    &&& forall|k: int| 0 <= k < t.len() && t[k] == '-' ==> k == i || k == j
}

/// `t` splits on hyphens into exactly three fields.
pub open spec fn has_two_hyphens(t: Seq<char>) -> bool {
    exists|i: int, j: int| hyphen_split_at(t, i, j)
}

/// The positions of the two hyphens, where there are exactly two.
pub open spec fn split_points(t: Seq<char>) -> (int, int) {
    choose|i: int, j: int| hyphen_split_at(t, i, j)
}

/// The first field of `t`: everything before the first hyphen.
pub open spec fn field1(t: Seq<char>) -> Seq<char> {
    t.take(split_points(t).0)
}

/// The second field of `t`: everything between the two hyphens.
pub open spec fn field2(t: Seq<char>) -> Seq<char> {
    t.subrange(split_points(t).0 + 1, split_points(t).1)
}

/// The third field of `t`: everything after the second hyphen.
pub open spec fn field3(t: Seq<char>) -> Seq<char> {
    t.skip(split_points(t).1 + 1)
}

/// `t` splits on hyphens into exactly three non-empty fields.
pub open spec fn three_nonempty(t: Seq<char>) -> bool {
    &&& has_two_hyphens(t)
    &&& field1(t).len() > 0
    &&& field2(t).len() > 0
    &&& field3(t).len() > 0
}

/// A numeric year field in range.
pub open spec fn valid_year(f: Seq<char>) -> bool {
    numeric(f) && 1752 <= field_val(f) <= MAX_YEAR
}

/// A numeric month field in range.
pub open spec fn valid_month(f: Seq<char>) -> bool {
    numeric(f) && 1 <= field_val(f) <= 12
}

/// A numeric day field in range.
pub open spec fn valid_day(f: Seq<char>) -> bool {
    numeric(f) && 1 <= field_val(f) <= 31
}

/// The `Date` built from three field strings, or `InvalidDate` if any field
/// fails its numeric or range check. The failing field is deliberately not
/// distinguished in the error.
pub open spec fn date_of_fields(ys: Seq<char>, ms: Seq<char>, ds: Seq<char>) -> Result<
    Date,
    ParseError,
> {
    if valid_year(ys) && valid_month(ms) && valid_day(ds) {
        Ok(
            Date {
                year: field_val(ys) as i64,
                month: field_val(ms) as u64,
                day: field_val(ds) as i64,
            },
        )
    } else {
        Err(ParseError::InvalidDate)
    }
}

/// What parsing a raw date string under a given field order returns:
/// `EmptyInput` for a whitespace-only string, `MalformedInput` when the
/// trimmed string does not split into three non-empty fields, and otherwise
/// the fields read in the order's arrangement.
pub open spec fn parse_result(s: Seq<char>, order: DateFormat) -> Result<Date, ParseError> {
    let t = trimmed(s);
    if t.len() == 0 {
        Err(ParseError::EmptyInput)
    } else if !three_nonempty(t) {
        Err(ParseError::MalformedInput)
    } else {
        match order {
            DateFormat::BigEndian => date_of_fields(field1(t), field2(t), field3(t)),
            DateFormat::MiddleEndian => date_of_fields(field3(t), field1(t), field2(t)),
            DateFormat::LittleEndian => date_of_fields(field3(t), field2(t), field1(t)),
        }
    }
}

/// The order `parse_date` uses: the requested one, or middle-endian.
pub open spec fn order_or_default(f: Option<DateFormat>) -> DateFormat {
    match f {
        Some(o) => o,
        None => DateFormat::MiddleEndian,
    }
}

/// What `parse_date` returns for a `Cli` record.
pub open spec fn parse_date_result(cli: Cli) -> Result<Date, ParseError> {
    match cli.date {
        Some(d) => parse_result(d@, order_or_default(cli.format)),
        None => Err(ParseError::EmptyInput),
    }
}

proof fn lemma_split_points_are(t: Seq<char>, i: int, j: int)
    requires
        hyphen_split_at(t, i, j),
    ensures
        has_two_hyphens(t),
        split_points(t) == (i, j),
{
    assert(has_two_hyphens(t));
    let (i2, j2) = split_points(t);
    assert(hyphen_split_at(t, i2, j2));
    assert(i2 == i || i2 == j);
    assert(j2 == i || j2 == j);
    assert(i == i2 || i == j2);
    assert(j == i2 || j == j2);
}

proof fn lemma_fields_of_joined(a: Seq<char>, b: Seq<char>, c: Seq<char>)
    requires
        forall|k: int| 0 <= k < a.len() ==> a[k] != '-' && !is_space(a[k]),
        forall|k: int| 0 <= k < b.len() ==> b[k] != '-' && !is_space(b[k]),
        forall|k: int| 0 <= k < c.len() ==> c[k] != '-' && !is_space(c[k]),
    ensures
        trimmed(a + seq!['-'] + b + seq!['-'] + c) == a + seq!['-'] + b + seq!['-'] + c,
        has_two_hyphens(a + seq!['-'] + b + seq!['-'] + c),
        field1(a + seq!['-'] + b + seq!['-'] + c) == a,
        field2(a + seq!['-'] + b + seq!['-'] + c) == b,
        field3(a + seq!['-'] + b + seq!['-'] + c) == c,
{
    let t = a + seq!['-'] + b + seq!['-'] + c;
    let i = a.len() as int;
    let j = a.len() as int + 1 + b.len() as int;
    assert(t.len() == a.len() + b.len() + c.len() + 2);
    assert(t[i] == '-');
    assert(t[j] == '-');
    assert forall|k: int| 0 <= k < t.len() && t[k] == '-' implies k == i || k == j by {
        if k < i {
            assert(t[k] == a[k]);
        } else if i < k && k < j {
            assert(t[k] == b[k - i - 1]);
        } else if j < k {
            assert(t[k] == c[k - j - 1]);
        }
    }
    assert(hyphen_split_at(t, i, j));
    lemma_split_points_are(t, i, j);
    assert(t.take(i) =~= a);
    assert(t.subrange(i + 1, j) =~= b);
    assert(t.skip(j + 1) =~= c);
    assert(!is_space(t[0]));
    assert(!is_space(t[t.len() - 1]));
    lemma_trimmed_noop(t);
}

/// Parsing agrees across the three field orders: the same year, month, and
/// day fields, assembled into a date string in each order's arrangement,
/// parse to identical results. The fields may hold anything except hyphens
/// and whitespace, so the agreement covers invalid fields as well.
pub proof fn lemma_field_order_agreement(ys: Seq<char>, ms: Seq<char>, ds: Seq<char>)
    requires
        forall|k: int| 0 <= k < ys.len() ==> ys[k] != '-' && !is_space(ys[k]),
        forall|k: int| 0 <= k < ms.len() ==> ms[k] != '-' && !is_space(ms[k]),
        forall|k: int| 0 <= k < ds.len() ==> ds[k] != '-' && !is_space(ds[k]),
    ensures
        parse_result(ys + seq!['-'] + ms + seq!['-'] + ds, DateFormat::BigEndian) == parse_result(
            ms + seq!['-'] + ds + seq!['-'] + ys,
            DateFormat::MiddleEndian,
        ),
        parse_result(ms + seq!['-'] + ds + seq!['-'] + ys, DateFormat::MiddleEndian)
            == parse_result(ds + seq!['-'] + ms + seq!['-'] + ys, DateFormat::LittleEndian),
{
    lemma_fields_of_joined(ys, ms, ds);
    lemma_fields_of_joined(ms, ds, ys);
    lemma_fields_of_joined(ds, ms, ys);
}

/// Surrounding whitespace does not affect parsing: a raw date string and
/// its trimmed form parse identically under every field order.
pub proof fn lemma_whitespace_insensitive(s: Seq<char>, order: DateFormat)
    ensures
        parse_result(s, order) == parse_result(trimmed(s), order),
{
    lemma_trimmed_idempotent(s);
}

/// Trims and splits a raw date string into its three fields.
fn split_date_string<'a>(date_string: &'a str) -> (r: Result<
    (&'a str, &'a str, &'a str),
    ParseError,
>)
    ensures
        ({
            let t = trimmed(date_string@);
            match r {
                Ok(f) => t.len() > 0 && three_nonempty(t) && f.0@ == field1(t) && f.1@ == field2(t)
                    && f.2@ == field3(t),
                Err(e) => {
                    if t.len() == 0 {
                        e == ParseError::EmptyInput
                    } else {
                        !three_nonempty(t) && e == ParseError::MalformedInput
                    }
                },
            }
        }),
{
    let t = trim_str(date_string);
    let n: usize = t.unicode_len();
    if n == 0 {
        return Err(ParseError::EmptyInput);
    }
    let mut cnt: usize = 0;
    let mut h1: usize = 0;
    let mut h2: usize = 0;
    let mut h3: usize = 0;
    let mut i: usize = 0;
    while i < n
        invariant
            n == t@.len(),
            0 <= i <= n,
            cnt <= 3,
            cnt == 0 ==> forall|k: int| 0 <= k < i ==> t@[k] != '-',
            cnt == 1 ==> h1 < i && t@[h1 as int] == '-' && (forall|k: int|
                0 <= k < i && t@[k] == '-' ==> k == h1),
            cnt == 2 ==> h1 < h2 < i && t@[h1 as int] == '-' && t@[h2 as int] == '-' && (forall|
                k: int,
            |
                0 <= k < i && t@[k] == '-' ==> k == h1 || k == h2),
            cnt == 3 ==> h1 < h2 < h3 < i && t@[h1 as int] == '-' && t@[h2 as int] == '-'
                && t@[h3 as int] == '-',
        decreases n - i,
    {
        let c = t.get_char(i);
        if c == '-' {
            if cnt == 0 {
                h1 = i;
                cnt = 1;
            } else if cnt == 1 {
                h2 = i;
                cnt = 2;
            } else if cnt == 2 {
                h3 = i;
                cnt = 3;
            }
        }
        i = i + 1;
    }
    if cnt == 2 {
        proof {
            lemma_split_points_are(t@, h1 as int, h2 as int);
        }
        if h1 > 0 && h2 > h1 + 1 && h2 + 1 < n {
            let f1 = t.substring_char(0, h1);
            let f2 = t.substring_char(h1 + 1, h2);
            let f3 = t.substring_char(h2 + 1, n);
            proof {
                assert(f1@ =~= field1(t@));
                assert(f2@ =~= field2(t@));
                assert(f3@ =~= field3(t@));
            }
            Ok((f1, f2, f3))
        } else {
            Err(ParseError::MalformedInput)
        }
    } else {
        proof {
            if has_two_hyphens(t@) {
                let (i2, j2) = split_points(t@);
                assert(hyphen_split_at(t@, i2, j2));
                if cnt == 3 {
                    assert(i2 == h1 || i2 == h2 || i2 == h3);
                    assert(j2 == h1 || j2 == h2 || j2 == h3);
                    assert(h1 == i2 || h1 == j2);
                    assert(h2 == i2 || h2 == j2);
                    assert(h3 == i2 || h3 == j2);
                }
            }
        }
        Err(ParseError::MalformedInput)
    }
}

/// Builds a `Date` from the year, month, and day field strings, rejecting
/// any field that is not numeric or not in range.
pub fn build_date_struct(string_year: &str, string_month: &str, string_day: &str) -> (r: Result<
    Date,
    ParseError,
>)
    ensures
        r == date_of_fields(string_year@, string_month@, string_day@),
        r matches Ok(d) ==> d.wf(),
{
    let year = parse_field(string_year, 1752, 0x1000_0000_0000_0000);
    let month = parse_field(string_month, 1, 12);
    let day = parse_field(string_day, 1, 31);
    match (year, month, day) {
        (Some(y), Some(m), Some(d)) => Ok(Date { year: y as i64, month: m, day: d as i64 }),
        _ => Err(ParseError::InvalidDate),
    }
}

/// Reads a year-first (ISO 8601 style) date string.
pub fn big_endian_to_date_struct(date_string: &String) -> (r: Result<Date, ParseError>)
    ensures
        r == parse_result(date_string@, DateFormat::BigEndian),
        r matches Ok(d) ==> d.wf(),
{
    match split_date_string(date_string.as_str()) {
        Ok((year, month, day)) => build_date_struct(year, month, day),
        Err(e) => Err(e),
    }
}

/// Reads a month-first date string.
pub fn middle_endian_to_date_struct(date_string: &String) -> (r: Result<Date, ParseError>)
    ensures
        r == parse_result(date_string@, DateFormat::MiddleEndian),
        r matches Ok(d) ==> d.wf(),
{
    match split_date_string(date_string.as_str()) {
        Ok((month, day, year)) => build_date_struct(year, month, day),
        Err(e) => Err(e),
    }
}

/// Reads a day-first date string.
pub fn little_endian_to_date_struct(date_string: &String) -> (r: Result<Date, ParseError>)
    ensures
        r == parse_result(date_string@, DateFormat::LittleEndian),
        r matches Ok(d) ==> d.wf(),
{
    match split_date_string(date_string.as_str()) {
        Ok((day, month, year)) => build_date_struct(year, month, day),
        Err(e) => Err(e),
    }
}

/// Parses the date argument of a `Cli` record in its requested field order,
/// middle-endian when none was requested.
pub fn parse_date(cli: &Cli) -> (r: Result<Date, ParseError>)
    ensures
        r == parse_date_result(*cli),
        r matches Ok(d) ==> d.wf(),
{
    let date_string = match &cli.date {
        Some(d) => d,
        None => {
            return Err(ParseError::EmptyInput);
        },
    };
    match cli.format {
        Some(DateFormat::BigEndian) => big_endian_to_date_struct(date_string),
        Some(DateFormat::MiddleEndian) => middle_endian_to_date_struct(date_string),
        Some(DateFormat::LittleEndian) => little_endian_to_date_struct(date_string),
        None => middle_endian_to_date_struct(date_string),
    }
}

} // verus!
