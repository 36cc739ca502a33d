//! Calendar dates as plain year/month/day values, dash-stripping of expiry
//! strings, and expiry evaluation. Parsing a `DDMMYYYY` string into a date
//! is delegated to chrono behind a trusted wrapper.

use vstd::prelude::*;
use chrono::Datelike;

verus! {

/// A civil calendar date, held as plain numeric fields.
#[derive(Clone, Copy, PartialEq, Eq, Structural, Debug)]
pub struct Date {
    pub year: i32,
    pub month: u32,
    pub day: u32,
}

/// The numeric fields lie in calendar range (chrono dates always do).
pub open spec fn date_fields_in_range(d: Date) -> bool {
    1 <= d.month <= 12 && 1 <= d.day <= 31
}

impl Date {
    /// The date as a (year, month, day) triple, the form the parser returns.
    pub open spec fn triple(self) -> (i32, u32, u32) {
        (self.year, self.month, self.day)
    }
}

/// Chronological order on valid (year, month, day) triples: lexicographic.
pub open spec fn spec_date_lt(a: (i32, u32, u32), b: (i32, u32, u32)) -> bool {
    a.0 < b.0 || (a.0 == b.0 && (a.1 < b.1 || (a.1 == b.1 && a.2 < b.2)))
}

/// Does `a` fall strictly before `b` in chronological order?
pub fn date_lt(a: (i32, u32, u32), b: (i32, u32, u32)) -> (r: bool)
    ensures
        r == spec_date_lt(a, b),
{
    a.0 < b.0 || (a.0 == b.0 && (a.1 < b.1 || (a.1 == b.1 && a.2 < b.2)))
}

/// `s` with every `-` removed, the model of replacing `-` by nothing.
pub open spec fn spec_strip_dashes(s: Seq<char>) -> Seq<char>
    decreases s.len(),
{
    if s.len() == 0 {
        Seq::empty()
    } else {
        spec_strip_dashes(s.drop_last()) + (if s[s.len() - 1] == '-' {
            Seq::<char>::empty()
        } else {
            seq![s[s.len() - 1]]
        })
    }
}

/// Remove every `-` from `s`.
pub fn strip_dashes(s: &str) -> (r: Vec<char>)
    ensures
        r@ == spec_strip_dashes(s@),
{
    let len = s.unicode_len();
    let mut out: Vec<char> = Vec::new();
    let mut i: usize = 0;
    proof {
        assert(s@.subrange(0, 0) =~= Seq::<char>::empty());
    }
    while i < len
        invariant
            len == s@.len(),
            0 <= i <= len,
            out@ == spec_strip_dashes(s@.subrange(0, i as int)),
        decreases len - i,
    {
        let ghost pre = s@.subrange(0, i as int);
        let c = s.get_char(i);
        if c != '-' {
            out.push(c);
        }
        proof {
            let cur = s@.subrange(0, i as int + 1);
            assert(cur.drop_last() =~= pre);
            assert(cur[cur.len() - 1] == s@[i as int]);
            if c != '-' {
                assert(out@ =~= spec_strip_dashes(pre) + seq![s@[i as int]]);
            } else {
                assert(out@ =~= spec_strip_dashes(pre) + Seq::<char>::empty());
            }
        }
        i = i + 1;
    }
    proof {
        assert(s@.subrange(0, len as int) =~= s@);
    }
    out
}

/// The date, if any, that chrono reads from `s` under the format `%d%m%Y`
/// (day, month, four-digit year, no separators), as (year, month, day).
pub uninterp spec fn ddmmyyyy_parse(s: Seq<char>) -> Option<(i32, u32, u32)>;

/// Relies on chrono's `NaiveDate::parse_from_str` with format `"%d%m%Y"` and
/// the `Datelike` accessors `year`/`month`/`day`: the outcome is a function
/// of the input characters alone.
#[verifier::external_body]
fn parse_ddmmyyyy(s: &Vec<char>) -> (r: Option<(i32, u32, u32)>)
    ensures
        r == ddmmyyyy_parse(s@),
{
    let text: String = s.iter().collect();
    match chrono::NaiveDate::parse_from_str(&text, "%d%m%Y") {
        Ok(d) => Some((d.year(), d.month(), d.day())),
        Err(_) => None,
    }
}

/// Is a record with (trimmed) expiry field `expiry` past expiry on `today`?
/// The raw field has its dashes stripped and is read as `DDMMYYYY`; a field
/// that does not parse counts as not expired (it stands in for `today`).
pub open spec fn spec_expired(expiry: Seq<char>, today: Date) -> bool {
    match ddmmyyyy_parse(spec_strip_dashes(expiry)) {
        Some(d) => spec_date_lt(d, today.triple()),
        None => false,
    }
}

/// Decide expiry of the (trimmed) expiry field `expiry` against `today`.
pub fn is_expired(expiry: &str, today: Date) -> (r: bool)
    ensures
        r == spec_expired(expiry@, today),
{
    let stripped = strip_dashes(expiry);
    match parse_ddmmyyyy(&stripped) {
        Some(d) => date_lt(d, (today.year, today.month, today.day)),
        None => false,
    }
}

/// Relies on chrono's `Utc::now` and `DateTime::date_naive` for the current
/// UTC civil date; nothing is assumed of it beyond calendar-range fields.
#[verifier::external_body]
pub(crate) fn current_date() -> (r: Date)
    ensures
        date_fields_in_range(r),
{
    let d = chrono::Utc::now().date_naive();
    Date { year: d.year(), month: d.month(), day: d.day() }
}

} // verus!
