//! The chapter-number resolver: disambiguates a chapter's ordinal number
//! from noisy title text, a 1-based position index, and an optional explicit
//! machine-readable attribute.
//!
//! Numbers are fixed-point thousandths throughout, so `"12.5"` resolves to
//! `12500`.

use vstd::prelude::*;
use crate::text;

verus! {

/// The fixed-point estimate derived from a 1-based position. Positions past
/// the fixed-point range saturate at its upper bound; no realistic chapter
/// list comes near it.
pub open spec fn estimate_of(position: nat) -> int {
    if position <= 9000000000000 {
        position * 1000 as int
    } else {
        9000000000000000
    }
}

/// Absolute difference.
pub open spec fn dist(v: int, est: int) -> int {
    if v >= est {
        v - est
    } else {
        est - v
    }
}

/// The values of the numeric tokens among `toks`, scanning from `i`.
pub open spec fn numeric_values_from(toks: Seq<Seq<char>>, i: int) -> Seq<int>
    decreases toks.len() - i,
{
    if i < 0 || i >= toks.len() {
        Seq::empty()
    } else if text::is_decimal_token(toks[i]) {
        seq![text::decimal_millis(toks[i])] + numeric_values_from(toks, i + 1)
    } else {
        numeric_values_from(toks, i + 1)
    }
}

/// The values of the numeric tokens of a whitespace-tokenized title.
pub open spec fn numeric_values_of_title(title: Seq<char>) -> Seq<int> {
    numeric_values_from(text::split_ws_from(title, 0), 0)
}

/// The candidate nearest to the estimate among `vals[i..]`; an exact tie in
/// distance goes to the earliest candidate.
pub open spec fn best_from(vals: Seq<int>, est: int, i: int) -> int
    decreases vals.len() - i,
{
    if i < 0 || i >= vals.len() {
        est
    } else if i == vals.len() - 1 {
        vals[i]
    } else {
        let rb = best_from(vals, est, i + 1);
        if dist(vals[i], est) <= dist(rb, est) {
            vals[i]
        } else {
            rb
        }
    }
}

/// The resolved chapter number:
/// an explicit attribute that parses wins outright; otherwise the title's
/// numeric tokens decide — none of them yields the position estimate, a
/// single one yields itself, several yield the one nearest the estimate,
/// earliest first on ties.
pub open spec fn resolved_chapter_number(
    title: Seq<char>,
    position: nat,
    explicit: Option<Seq<char>>,
) -> int {
    match explicit {
        Some(e) => {
            if text::is_decimal_token(e) {
                text::decimal_millis(e)
            } else {
                resolved_from_title(title, position)
            }
        },
        None => resolved_from_title(title, position),
    }
}

/// The resolution rule once no explicit attribute applies.
pub open spec fn resolved_from_title(title: Seq<char>, position: nat) -> int {
    let vals = numeric_values_of_title(title);
    if vals.len() == 0 {
        estimate_of(position)
    } else {
        best_from(vals, estimate_of(position), 0)
    }
}

fn collect_numeric_values(toks: &Vec<Vec<char>>, i: usize) -> (r: Vec<i64>)
    requires
        i <= toks@.len(),
    ensures
        r@.map_values(|x: i64| x as int) == numeric_values_from(text::views_of(toks@), i as int),
        forall|k: int| 0 <= k < r@.len() ==> 0 <= #[trigger] r@[k] < 1000000000000000,
    decreases toks@.len() - i,
{
    if i >= toks.len() {
        let r: Vec<i64> = Vec::new();
        proof {
            assert(r@.map_values(|x: i64| x as int) =~= numeric_values_from(
                text::views_of(toks@),
                i as int,
            ));
        }
        r
    } else {
        match text::parse_decimal_millis(&toks[i]) {
            Some(m) => {
                let mut r = collect_numeric_values(toks, i + 1);
                r.insert(0, m);
                proof {
                    assert(r@.map_values(|x: i64| x as int) =~= seq![m as int]
                        + numeric_values_from(text::views_of(toks@), i + 1));
                }
                r
            },
            None => collect_numeric_values(toks, i + 1),
        }
    }
}

fn best_exec(vals: &Vec<i64>, est: i64, i: usize) -> (r: i64)
    requires
        i <= vals@.len(),
        0 <= est <= 9000000000000000,
        forall|k: int| 0 <= k < vals@.len() ==> 0 <= #[trigger] vals@[k] < 1000000000000000,
    ensures
        r == best_from(vals@.map_values(|x: i64| x as int), est as int, i as int),
    decreases vals@.len() - i,
{
    if i >= vals.len() {
        est
    } else if i == vals.len() - 1 {
        vals[i]
    } else {
        let rb = best_exec(vals, est, i + 1);
        let v = vals[i];
        proof {
            lemma_best_from_range(vals@.map_values(|x: i64| x as int), est as int, i + 1);
        }
        let dv = if v >= est {
            v - est
        } else {
            est - v
        };
        let drb = if rb >= est {
            rb - est
        } else {
            est - rb
        };
        if dv <= drb {
            v
        } else {
            rb
        }
    }
}

/// Every candidate `best_from` can return lies in the candidate range or is
/// the estimate itself.
proof fn lemma_best_from_range(vals: Seq<int>, est: int, i: int)
    requires
        0 <= est <= 9000000000000000,
        forall|k: int| 0 <= k < vals.len() ==> 0 <= #[trigger] vals[k] < 1000000000000000,
    ensures
        0 <= best_from(vals, est, i) <= 9000000000000000,
    decreases vals.len() - i,
{
    if i < 0 || i >= vals.len() {
    } else if i == vals.len() - 1 {
    } else {
        lemma_best_from_range(vals, est, i + 1);
    }
}

/// Resolve a chapter's number from its title, its 1-based position, and an
/// optional explicit numeric attribute. The result is in fixed-point
/// thousandths.
pub fn resolve_chapter_number(title: &str, position: usize, explicit: Option<&str>) -> (r: i64)
    ensures
        r == (match explicit {
            Some(e) => resolved_chapter_number(title@, position as nat, Some(e@)),
            None => resolved_chapter_number(title@, position as nat, None),
        }),
{
    if let Some(e) = explicit {
        let ev = text::str_chars(e);
        if let Some(m) = text::parse_decimal_millis(&ev) {
            return m;
        }
    }
    let tv = text::str_chars(title);
    let toks = text::split_ws(&tv);
    let vals = collect_numeric_values(&toks, 0);
    let p = position as u64;
    let est: i64 = if p <= 9000000000000 {
        (p as i64) * 1000
    } else {
        9000000000000000
    };
    if vals.len() == 0 {
        est
    } else {
        best_exec(&vals, est, 0)
    }
}

/// A title with exactly one numeric token resolves, absent a usable explicit
/// attribute, to exactly that token's value.
pub proof fn lemma_single_numeric_token(title: Seq<char>, position: nat)
    requires
        numeric_values_of_title(title).len() == 1,
    ensures
        resolved_chapter_number(title, position, None) == numeric_values_of_title(title)[0],
{
}

/// A title with no numeric token resolves, absent a usable explicit
/// attribute, to the 1-based position index.
pub proof fn lemma_no_numeric_token(title: Seq<char>, position: nat)
    requires
        numeric_values_of_title(title).len() == 0,
        position <= 9000000000000,
    ensures
        resolved_chapter_number(title, position, None) == position * 1000,
{
}

/// An explicit attribute that parses as a number decides the resolution by
/// itself, whatever the title holds.
pub proof fn lemma_explicit_attribute_wins(title: Seq<char>, position: nat, e: Seq<char>)
    requires
        text::is_decimal_token(e),
    ensures
        resolved_chapter_number(title, position, Some(e)) == text::decimal_millis(e),
{
}

} // verus!
