//! The date resolver: absolute date strings in the known calendar formats,
//! relative "count unit ago" phrases, and the adapter-specific fallback.
//!
//! Timestamps are seconds since the epoch, midnight UTC of the calendar day.

use vstd::prelude::*;
use crate::text;

verus! {

/// Gregorian leap year.
pub open spec fn is_leap_year(y: int) -> bool {
    y % 4 == 0 && (y % 100 != 0 || y % 400 == 0)
}

pub open spec fn days_in_year(y: int) -> int {
    if is_leap_year(y) {
        366
    } else {
        365
    }
}

pub open spec fn days_in_month(y: int, m: int) -> int {
    if m == 1 {
        31
    } else if m == 2 {
        if is_leap_year(y) {
            29
        } else {
            28
        }
    } else if m == 3 {
        31
    } else if m == 4 {
        30
    } else if m == 5 {
        31
    } else if m == 6 {
        30
    } else if m == 7 {
        31
    } else if m == 8 {
        31
    } else if m == 9 {
        30
    } else if m == 10 {
        31
    } else if m == 11 {
        30
    } else {
        31
    }
}

/// Days between the epoch and the first day of year `y`.
pub open spec fn days_before_year(y: int) -> int
    decreases y,
{
    if y <= 1970 {
        0
    } else {
        days_before_year(y - 1) + days_in_year(y - 1)
    }
}

/// Days between the first of January and the first day of month `m` of year
/// `y`.
pub open spec fn days_before_month(y: int, m: int) -> int
    decreases m,
{
    if m <= 1 {
        0
    } else {
        days_before_month(y, m - 1) + days_in_month(y, m - 1)
    }
}

/// A calendar date this resolver accepts: years from the epoch up to four
/// digits, month and day within their calendar ranges.
pub open spec fn valid_date(y: int, m: int, d: int) -> bool {
    1970 <= y <= 9999 && 1 <= m <= 12 && 1 <= d <= days_in_month(y, m)
}

/// Seconds since the epoch of midnight UTC on the given calendar day.
pub open spec fn epoch_of(y: int, m: int, d: int) -> int {
    86400 * (days_before_year(y) + days_before_month(y, m) + d - 1)
}

proof fn lemma_days_before_year_bounds(y: int)
    requires
        1970 <= y <= 10000,
    ensures
        0 <= days_before_year(y) <= 366 * (y - 1970),
    decreases y,
{
    if y > 1970 {
        lemma_days_before_year_bounds(y - 1);
    }
}

proof fn lemma_days_before_month_bounds(y: int, m: int)
    requires
        1 <= m <= 13,
    ensures
        0 <= days_before_month(y, m) <= 31 * (m - 1),
    decreases m,
{
    if m > 1 {
        lemma_days_before_month_bounds(y, m - 1);
    }
}

fn leap_year_exec(y: i64) -> (r: bool)
    requires
        y >= 0,
    ensures
        r == is_leap_year(y as int),
{
    y % 4 == 0 && (y % 100 != 0 || y % 400 == 0)
}

fn days_in_month_exec(y: i64, m: i64) -> (r: i64)
    requires
        0 <= y,
        1 <= m <= 12,
    ensures
        r == days_in_month(y as int, m as int),
        28 <= r <= 31,
{
    if m == 1 {
        31
    } else if m == 2 {
        if leap_year_exec(y) {
            29
        } else {
            28
        }
    } else if m == 3 {
        31
    } else if m == 4 {
        30
    } else if m == 5 {
        31
    } else if m == 6 {
        30
    } else if m == 7 {
        31
    } else if m == 8 {
        31
    } else if m == 9 {
        30
    } else if m == 10 {
        31
    } else if m == 11 {
        30
    } else {
        31
    }
}

fn days_before_year_exec(y: i64) -> (r: i64)
    requires
        1970 <= y <= 9999,
    ensures
        r == days_before_year(y as int),
        0 <= r <= 366 * (y - 1970),
{
    let mut acc: i64 = 0;
    let mut yy: i64 = 1970;
    while yy < y
        invariant
            1970 <= yy <= y <= 9999,
            acc == days_before_year(yy as int),
            0 <= acc <= 366 * (yy - 1970),
        decreases y - yy,
    {
        let dy = if leap_year_exec(yy) {
            366
        } else {
            365
        };
        acc = acc + dy;
        yy = yy + 1;
    }
    acc
}

fn days_before_month_exec(y: i64, m: i64) -> (r: i64)
    requires
        0 <= y,
        1 <= m <= 12,
    ensures
        r == days_before_month(y as int, m as int),
        0 <= r <= 31 * (m - 1),
{
    let mut acc: i64 = 0;
    let mut mm: i64 = 1;
    while mm < m
        invariant
            1 <= mm <= m <= 12,
            0 <= y,
            acc == days_before_month(y as int, mm as int),
            0 <= acc <= 31 * (mm - 1),
        decreases m - mm,
    {
        proof {
            lemma_days_before_month_bounds(y as int, mm + 1);
        }
        acc = acc + days_in_month_exec(y, mm);
        mm = mm + 1;
    }
    acc
}

/// Seconds since the epoch of midnight UTC on the given day.
pub fn epoch_seconds(y: i64, m: i64, d: i64) -> (r: i64)
    requires
        valid_date(y as int, m as int, d as int),
    ensures
        r == epoch_of(y as int, m as int, d as int),
        0 <= r < 300000000000,
{
    proof {
        lemma_days_before_year_bounds(y as int);
        lemma_days_before_month_bounds(y as int, m as int);
    }
    let days = days_before_year_exec(y) + days_before_month_exec(y, m) + d - 1;
    86400 * days
}

/// The absolute date formats the resolver knows.
#[derive(Clone, Copy, PartialEq, Eq, Structural, Debug)]
pub enum DateFormat {
    /// day.month.year
    DotDayMonthYear,
    /// day-month-year
    DashDayMonthYear,
    /// year-month-day
    DashYearMonthDay,
}

/// The separator character of a format.
pub open spec fn sep_of(fmt: DateFormat) -> char {
    match fmt {
        DateFormat::DotDayMonthYear => '.',
        DateFormat::DashDayMonthYear => '-',
        DateFormat::DashYearMonthDay => '-',
    }
}

/// A one- or two-digit day or month field.
pub open spec fn is_short_field(s: Seq<char>) -> bool {
    1 <= s.len() <= 2 && text::all_digits(s)
}

/// A four-digit year field.
pub open spec fn is_year_field(s: Seq<char>) -> bool {
    s.len() == 4 && text::all_digits(s)
}

/// The (year, month, day) fields of the three pieces of a date string under
/// the given format, when they are well-formed.
pub open spec fn date_fields(
    ps: Seq<Seq<char>>,
    fmt: DateFormat,
) -> Option<(int, int, int)> {
    if ps.len() != 3 {
        None
    } else {
        let (ys, ms, ds) = match fmt {
            DateFormat::DotDayMonthYear => (ps[2], ps[1], ps[0]),
            DateFormat::DashDayMonthYear => (ps[2], ps[1], ps[0]),
            DateFormat::DashYearMonthDay => (ps[0], ps[1], ps[2]),
        };
        if is_year_field(ys) && is_short_field(ms) && is_short_field(ds) {
            Some((text::dec_value(ys), text::dec_value(ms), text::dec_value(ds)))
        } else {
            None
        }
    }
}

/// What parsing an absolute date string under one format yields.
pub open spec fn spec_parse_date(s: Seq<char>, fmt: DateFormat) -> Option<int> {
    match date_fields(text::split_char_from(s, sep_of(fmt), 0), fmt) {
        Some((y, m, d)) => {
            if valid_date(y, m, d) {
                Some(epoch_of(y, m, d))
            } else {
                None
            }
        },
        None => None,
    }
}

/// Parse an absolute date string under one format.
pub fn parse_date(v: &Vec<char>, fmt: DateFormat) -> (r: Option<i64>)
    ensures
        match r {
            Some(e) => spec_parse_date(v@, fmt) == Some(e as int) && 0 <= e < 300000000000,
            None => spec_parse_date(v@, fmt) is None,
        },
{
    let sep = match fmt {
        DateFormat::DotDayMonthYear => '.',
        DateFormat::DashDayMonthYear => '-',
        DateFormat::DashYearMonthDay => '-',
    };
    let ps = text::split_char(v, sep);
    if ps.len() != 3 {
        return None;
    }
    let (yi, mi, di): (usize, usize, usize) = match fmt {
        DateFormat::DotDayMonthYear => (2, 1, 0),
        DateFormat::DashDayMonthYear => (2, 1, 0),
        DateFormat::DashYearMonthDay => (0, 1, 2),
    };
    let ys = &ps[yi];
    let ms = &ps[mi];
    let ds = &ps[di];
    if ys.len() != 4 {
        return None;
    }
    if ms.len() < 1 || ms.len() > 2 || ds.len() < 1 || ds.len() > 2 {
        return None;
    }
    let y = match text::parse_uint(ys) {
        Some(n) => n as i64,
        None => {
            return None;
        },
    };
    let m = match text::parse_uint(ms) {
        Some(n) => n as i64,
        None => {
            return None;
        },
    };
    let d = match text::parse_uint(ds) {
        Some(n) => n as i64,
        None => {
            return None;
        },
    };
    proof {
        text::lemma_dec_value_bounds(ys@);
        text::lemma_dec_value_bounds(ms@);
        text::lemma_dec_value_bounds(ds@);
        assert(text::pow10(4) == 10000 && text::pow10(2) == 100) by {
            reveal_with_fuel(text::pow10, 5);
        }
    }
    if y < 1970 || m < 1 || m > 12 || d < 1 {
        return None;
    }
    if d > days_in_month_exec(y, m) {
        return None;
    }
    Some(epoch_seconds(y, m, d))
}

/// The spec-level image of a unit vocabulary: each entry a word and its
/// multiplier in seconds.
pub open spec fn vocab_views(vs: Seq<(String, i64)>) -> Seq<(Seq<char>, int)> {
    vs.map_values(|p: (String, i64)| (p.0@, p.1 as int))
}

/// Index of the first vocabulary entry whose word begins the unit token, or
/// the length. Unit tokens are matched by prefix, case-sensitively.
pub open spec fn vocab_idx_from(vs: Seq<(Seq<char>, int)>, tok: Seq<char>, i: int) -> int
    decreases vs.len() - i,
{
    if i < 0 || i >= vs.len() {
        vs.len() as int
    } else if text::starts_with(tok, vs[i].0) {
        i
    } else {
        vocab_idx_from(vs, tok, i + 1)
    }
}

/// What parsing a relative phrase yields: exactly three whitespace tokens,
/// "count unit marker", where the count is a plain number of at most nine
/// digits, the unit begins with a vocabulary word, and the marker is the
/// language's "ago" word. The result is `now` minus count times the unit's
/// multiplier.
pub open spec fn spec_parse_relative(
    s: Seq<char>,
    vs: Seq<(Seq<char>, int)>,
    marker: Seq<char>,
    now: int,
) -> Option<int> {
    let toks = text::split_ws_from(s, 0);
    if toks.len() != 3 {
        None
    } else if !(text::is_uint_token(toks[0]) && toks[0].len() <= 9) {
        None
    } else if toks[2] != marker {
        None
    } else {
        let k = vocab_idx_from(vs, toks[1], 0);
        if k < vs.len() {
            Some(now - text::dec_value(toks[0]) * vs[k].1)
        } else {
            None
        }
    }
}

fn vocab_find(vs: &Vec<(String, i64)>, tok: &Vec<char>, i: usize) -> (r: usize)
    requires
        i <= vs@.len(),
    ensures
        r == vocab_idx_from(vocab_views(vs@), tok@, i as int),
        i <= r <= vs@.len(),
    decreases vs@.len() - i,
{
    if i >= vs.len() {
        vs.len()
    } else {
        let key = text::str_chars(vs[i].0.as_str());
        if text::begins_with(tok, &key) {
            i
        } else {
            vocab_find(vs, tok, i + 1)
        }
    }
}

/// Parse a relative "count unit marker" phrase against a unit vocabulary.
pub fn parse_relative(
    v: &Vec<char>,
    vocab: &Vec<(String, i64)>,
    marker: &Vec<char>,
    now: i64,
) -> (r: Option<i64>)
    requires
        0 <= now <= 300000000000,
        forall|k: int| 0 <= k < vocab@.len() ==> 0 <= (#[trigger] vocab@[k]).1 <= 1000000000,
    ensures
        match r {
            Some(t) => spec_parse_relative(v@, vocab_views(vocab@), marker@, now as int) == Some(
                t as int,
            ),
            None => spec_parse_relative(v@, vocab_views(vocab@), marker@, now as int) is None,
        },
{
    let toks = text::split_ws(v);
    if toks.len() != 3 {
        return None;
    }
    if toks[0].len() > 9 {
        return None;
    }
    let count = match text::parse_uint(&toks[0]) {
        Some(n) => n,
        None => {
            return None;
        },
    };
    if !text::chars_eq(&toks[2], marker) {
        return None;
    }
    let k = vocab_find(vocab, &toks[1], 0);
    if k < vocab.len() {
        proof {
            text::lemma_dec_value_bounds(toks@[0]@);
            text::lemma_pow10_mono(toks@[0]@.len() as nat, 9);
            assert(text::pow10(9) == 1000000000) by {
                reveal_with_fuel(text::pow10, 10);
            }
        }
        let mult = vocab[k].1;
        proof {
            let c = count as int;
            let mu = mult as int;
            assert(0 <= c * mu <= 1000000000000000000) by (nonlinear_arith)
                requires
                    0 <= c && c < 1000000000 && 0 <= mu && mu <= 1000000000,
            ;
        }
        Some(now - (count as i64) * mult)
    } else {
        None
    }
}

/// What an adapter substitutes when neither an absolute date nor a relative
/// phrase could be resolved.
#[derive(Clone, Copy, PartialEq, Eq, Structural, Debug)]
pub enum DateFallback {
    /// Treat the entry as updated now, so it sorts as most recent.
    Now,
    /// Treat the entry as updated at the epoch, so it sorts last.
    Epoch,
}

/// The first format, in order, under which the string parses to a strictly
/// positive epoch value.
pub open spec fn first_format_epoch(s: Seq<char>, fmts: Seq<DateFormat>, i: int) -> Option<int>
    decreases fmts.len() - i,
{
    if i < 0 || i >= fmts.len() {
        None
    } else {
        match spec_parse_date(s, fmts[i]) {
            Some(e) => {
                if e > 0 {
                    Some(e)
                } else {
                    first_format_epoch(s, fmts, i + 1)
                }
            },
            None => first_format_epoch(s, fmts, i + 1),
        }
    }
}

/// The full date-resolution rule: the first absolute format that parses to a
/// strictly positive epoch wins; otherwise a relative phrase; otherwise the
/// adapter's fallback, "now" or the epoch.
pub open spec fn spec_resolve_date(
    s: Seq<char>,
    fmts: Seq<DateFormat>,
    vs: Seq<(Seq<char>, int)>,
    marker: Seq<char>,
    now: int,
    fb: DateFallback,
) -> int {
    match first_format_epoch(s, fmts, 0) {
        Some(e) => e,
        None => match spec_parse_relative(s, vs, marker, now) {
            Some(t) => t,
            None => match fb {
                DateFallback::Now => now,
                DateFallback::Epoch => 0,
            },
        },
    }
}

fn try_formats(v: &Vec<char>, fmts: &Vec<DateFormat>, i: usize) -> (r: Option<i64>)
    requires
        i <= fmts@.len(),
    ensures
        match r {
            Some(e) => first_format_epoch(v@, fmts@, i as int) == Some(e as int),
            None => first_format_epoch(v@, fmts@, i as int) is None,
        },
    decreases fmts@.len() - i,
{
    if i >= fmts.len() {
        None
    } else {
        match parse_date(v, fmts[i]) {
            Some(e) => {
                if e > 0 {
                    Some(e)
                } else {
                    try_formats(v, fmts, i + 1)
                }
            },
            None => try_formats(v, fmts, i + 1),
        }
    }
}

/// Resolve a date string: absolute formats in order, then a relative phrase,
/// then the adapter's fallback.
pub fn resolve_date(
    primary: &str,
    formats: &Vec<DateFormat>,
    vocab: &Vec<(String, i64)>,
    marker: &str,
    now: i64,
    fallback: DateFallback,
) -> (r: i64)
    requires
        0 <= now <= 300000000000,
        forall|k: int| 0 <= k < vocab@.len() ==> 0 <= (#[trigger] vocab@[k]).1 <= 1000000000,
    ensures
        r == spec_resolve_date(
            primary@,
            formats@,
            vocab_views(vocab@),
            marker@,
            now as int,
            fallback,
        ),
{
    let v = text::str_chars(primary);
    match try_formats(&v, formats, 0) {
        Some(e) => e,
        None => {
            let markerv = text::str_chars(marker);
            match parse_relative(&v, vocab, &markerv, now) {
                Some(t) => t,
                None => match fallback {
                    DateFallback::Now => now,
                    DateFallback::Epoch => 0,
                },
            }
        },
    }
}

/// The relative-phrase unit vocabulary of the sources handled here, with the
/// second-per-unit multipliers: seconds, minutes, hours, days.
/// The relative-phrase unit vocabulary of the sources handled here, as the
/// specs see it: seconds, minutes, hours, days (two day-word stems).
pub open spec fn russian_units_spec() -> Seq<(Seq<char>, int)> {
    seq![
        ("сек"@, 1int),
        ("мин"@, 60int),
        ("час"@, 3600int),
        ("дн"@, 86400int),
        ("ден"@, 86400int),
    ]
}

/// The marker word that closes a relative phrase in these sources.
pub open spec fn russian_ago_marker() -> Seq<char> {
    "назад"@
}

/// Build the unit vocabulary of the sources handled here.
pub fn russian_time_units() -> (r: Vec<(String, i64)>)
    ensures
        vocab_views(r@) == russian_units_spec(),
        forall|k: int| 0 <= k < r@.len() ==> 0 <= (#[trigger] r@[k]).1 <= 1000000000,
{
    let mut r: Vec<(String, i64)> = Vec::new();
    r.push((String::from_str("сек"), 1));
    r.push((String::from_str("мин"), 60));
    r.push((String::from_str("час"), 3600));
    r.push((String::from_str("дн"), 86400));
    r.push((String::from_str("ден"), 86400));
    proof {
        assert(vocab_views(r@) =~= russian_units_spec());
    }
    r
}

} // verus!
