//! Verified text utilities: searching, trimming, tokenizing and numeric
//! conversion over character sequences.
//!
//! Executable code works on `Vec<char>`; every function is specified against
//! a spec-level account of the same operation over `Seq<char>`.

use vstd::prelude::*;

verus! {

/// True when `c` is one of the whitespace characters the tokenizer splits on.
pub open spec fn is_space_char(c: char) -> bool {
    c == ' ' || c == '\t' || c == '\n' || c == '\r'
}

pub fn char_is_space(c: char) -> (r: bool)
    ensures
        r == is_space_char(c),
{
    c == ' ' || c == '\t' || c == '\n' || c == '\r'
}

/// The characters of `s`, in order, as a vector.
pub fn str_chars(s: &str) -> (r: Vec<char>)
    ensures
        r@ == s@,
{
    let n = s.unicode_len();
    let mut r: Vec<char> = Vec::new();
    let mut i: usize = 0;
    while i < n
        invariant
            n == s@.len(),
            i <= n,
            r@ == s@.take(i as int),
        decreases n - i,
    {
        r.push(s.get_char(i));
        i += 1;
        proof {
            assert(s@.take(i as int) =~= s@.take(i - 1).push(s@[i - 1]));
        }
    }
    proof {
        assert(s@.take(n as int) =~= s@);
    }
    r
}

/// Character-by-character equality of two vectors.
pub fn chars_eq(a: &Vec<char>, b: &Vec<char>) -> (r: bool)
    ensures
        r == (a@ == b@),
{
    if a.len() != b.len() {
        return false;
    }
    let mut i: usize = 0;
    while i < a.len()
        invariant
            a@.len() == b@.len(),
            i <= a@.len(),
            forall|k: int| 0 <= k < i ==> a@[k] == b@[k],
        decreases a@.len() - i,
    {
        if a[i] != b[i] {
            return false;
        }
        i += 1;
    }
    proof {
        assert(a@ =~= b@);
    }
    true
}

/// Equality of two string slices, decided character by character.
pub fn str_eq(a: &str, b: &str) -> (r: bool)
    ensures
        r == (a@ == b@),
{
    let av = str_chars(a);
    let bv = str_chars(b);
    chars_eq(&av, &bv)
}

/// The needle occurs in the haystack starting exactly at position `i`.
pub open spec fn match_at(hay: Seq<char>, needle: Seq<char>, i: int) -> bool {
    0 <= i && i + needle.len() <= hay.len() && hay.subrange(i, i + needle.len() as int)
        == needle
}

pub fn matches_at(hay: &Vec<char>, needle: &Vec<char>, i: usize) -> (r: bool)
    ensures
        r == match_at(hay@, needle@, i as int),
{
    let n = hay.len();
    if i > n || n - i < needle.len() {
        return false;
    }
    let mut j: usize = 0;
    while j < needle.len()
        invariant
            n == hay@.len(),
            i + needle@.len() <= n,
            j <= needle@.len(),
            forall|k: int| 0 <= k < j ==> hay@[i + k] == needle@[k],
        decreases needle@.len() - j,
    {
        if hay[i + j] != needle[j] {
            proof {
                assert(hay@.subrange(i as int, i + needle@.len() as int)[j as int]
                    == hay@[i + j]);
            }
            return false;
        }
        j += 1;
    }
    proof {
        assert(hay@.subrange(i as int, i + needle@.len() as int) =~= needle@);
    }
    true
}

/// Position of the first occurrence of `needle` at or after `i`, if any.
/// Only positions that lie inside the haystack are searched.
pub open spec fn find_from(hay: Seq<char>, needle: Seq<char>, i: int) -> Option<int>
    decreases hay.len() - i,
{
    if i < 0 || i >= hay.len() || i + needle.len() > hay.len() {
        None
    } else if match_at(hay, needle, i) {
        Some(i)
    } else {
        find_from(hay, needle, i + 1)
    }
}

pub fn find_sub_from(hay: &Vec<char>, needle: &Vec<char>, i: usize) -> (r: Option<usize>)
    ensures
        match r {
            Some(k) => find_from(hay@, needle@, i as int) == Some(k as int) && k
                < hay@.len(),
            None => find_from(hay@, needle@, i as int) is None,
        },
    decreases hay@.len() - i,
{
    if i >= hay.len() || hay.len() - i < needle.len() {
        return None;
    }
    if matches_at(hay, needle, i) {
        Some(i)
    } else {
        find_sub_from(hay, needle, i + 1)
    }
}

/// The needle occurs somewhere in the haystack.
pub open spec fn contains_sub(hay: Seq<char>, needle: Seq<char>) -> bool {
    exists|i: int| match_at(hay, needle, i)
}

pub proof fn lemma_find_from_some(hay: Seq<char>, needle: Seq<char>, i: int, k: int)
    requires
        find_from(hay, needle, i) == Some(k),
    ensures
        match_at(hay, needle, k),
        i <= k,
    decreases hay.len() - i,
{
    if i < 0 || i >= hay.len() || i + needle.len() > hay.len() {
    } else if match_at(hay, needle, i) {
    } else {
        lemma_find_from_some(hay, needle, i + 1, k);
    }
}

pub proof fn lemma_find_from_none(hay: Seq<char>, needle: Seq<char>, i: int)
    requires
        0 <= i,
        needle.len() > 0,
        find_from(hay, needle, i) is None,
    ensures
        forall|k: int| i <= k ==> !match_at(hay, needle, k),
    decreases hay.len() - i,
{
    if i >= hay.len() || i + needle.len() > hay.len() {
    } else {
        lemma_find_from_none(hay, needle, i + 1);
    }
}

pub fn has_sub(hay: &Vec<char>, needle: &Vec<char>) -> (r: bool)
    ensures
        r == contains_sub(hay@, needle@),
{
    if needle.len() == 0 {
        proof {
            assert(hay@.subrange(0, 0) =~= needle@);
            assert(match_at(hay@, needle@, 0));
        }
        return true;
    }
    let f = find_sub_from(hay, needle, 0);
    match f {
        Some(k) => {
            proof {
                lemma_find_from_some(hay@, needle@, 0, k as int);
            }
            true
        },
        None => {
            proof {
                lemma_find_from_none(hay@, needle@, 0);
            }
            false
        },
    }
}

/// `hay` begins with `pre`.
pub open spec fn starts_with(hay: Seq<char>, pre: Seq<char>) -> bool {
    match_at(hay, pre, 0)
}

pub fn begins_with(hay: &Vec<char>, pre: &Vec<char>) -> (r: bool)
    ensures
        r == starts_with(hay@, pre@),
{
    matches_at(hay, pre, 0)
}

/// `hay` ends with `suf`.
pub open spec fn ends_with(hay: Seq<char>, suf: Seq<char>) -> bool {
    match_at(hay, suf, hay.len() - suf.len())
}

pub fn finishes_with(hay: &Vec<char>, suf: &Vec<char>) -> (r: bool)
    ensures
        r == ends_with(hay@, suf@),
{
    if suf.len() > hay.len() {
        return false;
    }
    matches_at(hay, suf, hay.len() - suf.len())
}

/// Copy of `v[a..b]`.
pub fn subvec(v: &Vec<char>, a: usize, b: usize) -> (r: Vec<char>)
    requires
        a <= b <= v@.len(),
    ensures
        r@ == v@.subrange(a as int, b as int),
{
    let mut r: Vec<char> = Vec::new();
    let mut i: usize = a;
    while i < b
        invariant
            a <= i <= b <= v@.len(),
            r@ == v@.subrange(a as int, i as int),
        decreases b - i,
    {
        r.push(v[i]);
        i += 1;
        proof {
            assert(v@.subrange(a as int, i as int) =~= v@.subrange(a as int, i - 1).push(
                v@[i - 1],
            ));
        }
    }
    r
}

/// Append all of `src` to `dst`.
pub fn push_all(dst: &mut Vec<char>, src: &Vec<char>)
    ensures
        final(dst)@ == old(dst)@ + src@,
{
    let mut i: usize = 0;
    while i < src.len()
        invariant
            i <= src@.len(),
            dst@ == old(dst)@ + src@.take(i as int),
        decreases src@.len() - i,
    {
        dst.push(src[i]);
        i += 1;
        proof {
            assert(old(dst)@ + src@.take(i as int) =~= (old(dst)@ + src@.take(i - 1)).push(
                src@[i - 1],
            ));
        }
    }
    proof {
        assert(old(dst)@ + src@.take(src@.len() as int) =~= old(dst)@ + src@);
    }
}

/// Index of the first non-space character at or after `i`, or the length.
pub open spec fn skip_spaces_from(s: Seq<char>, i: int) -> int
    decreases s.len() - i,
{
    if i < 0 || i >= s.len() {
        s.len() as int
    } else if is_space_char(s[i]) {
        skip_spaces_from(s, i + 1)
    } else {
        i
    }
}

pub fn skip_spaces_exec(v: &Vec<char>, i: usize) -> (r: usize)
    requires
        i <= v@.len(),
    ensures
        r == skip_spaces_from(v@, i as int),
        i <= r <= v@.len(),
    decreases v@.len() - i,
{
    if i >= v.len() {
        v.len()
    } else if char_is_space(v[i]) {
        skip_spaces_exec(v, i + 1)
    } else {
        i
    }
}

/// Index of the first space character at or after `i`, or the length.
pub open spec fn first_space_from(s: Seq<char>, i: int) -> int
    decreases s.len() - i,
{
    if i < 0 || i >= s.len() {
        s.len() as int
    } else if is_space_char(s[i]) {
        i
    } else {
        first_space_from(s, i + 1)
    }
}

pub proof fn lemma_first_space_bounds(s: Seq<char>, i: int)
    requires
        0 <= i <= s.len(),
    ensures
        i <= first_space_from(s, i) <= s.len(),
    decreases s.len() - i,
{
    if i < s.len() && !is_space_char(s[i]) {
        lemma_first_space_bounds(s, i + 1);
    }
}

pub fn first_space_exec(v: &Vec<char>, i: usize) -> (r: usize)
    requires
        i <= v@.len(),
    ensures
        r == first_space_from(v@, i as int),
        i <= r <= v@.len(),
    decreases v@.len() - i,
{
    if i >= v.len() {
        v.len()
    } else if char_is_space(v[i]) {
        i
    } else {
        first_space_exec(v, i + 1)
    }
}

/// Cut point from the right: characters at positions `r..j` are all spaces
/// and, if `r > 0`, the character before `r` is not a space.
pub open spec fn trim_end_from(s: Seq<char>, j: int) -> int
    decreases j,
{
    if j <= 0 || j > s.len() {
        0
    } else if is_space_char(s[j - 1]) {
        trim_end_from(s, j - 1)
    } else {
        j
    }
}

pub fn trim_end_exec(v: &Vec<char>, j: usize) -> (r: usize)
    requires
        j <= v@.len(),
    ensures
        r == trim_end_from(v@, j as int),
        r <= j,
    decreases j,
{
    if j == 0 {
        0
    } else if char_is_space(v[j - 1]) {
        trim_end_exec(v, j - 1)
    } else {
        j
    }
}

/// `s` with leading and trailing whitespace removed.
pub open spec fn trimmed(s: Seq<char>) -> Seq<char> {
    let a = skip_spaces_from(s, 0);
    let b = trim_end_from(s, s.len() as int);
    if a < b {
        s.subrange(a, b)
    } else {
        Seq::empty()
    }
}

pub fn trim(v: &Vec<char>) -> (r: Vec<char>)
    ensures
        r@ == trimmed(v@),
{
    let a = skip_spaces_exec(v, 0);
    let b = trim_end_exec(v, v.len());
    if a < b {
        subvec(v, a, b)
    } else {
        Vec::new()
    }
}

/// Index of the first occurrence of character `c` at or after `i`, or the length.
pub open spec fn find_char_from(s: Seq<char>, c: char, i: int) -> int
    decreases s.len() - i,
{
    if i < 0 || i >= s.len() {
        s.len() as int
    } else if s[i] == c {
        i
    } else {
        find_char_from(s, c, i + 1)
    }
}

pub proof fn lemma_find_char_bounds(s: Seq<char>, c: char, i: int)
    requires
        0 <= i <= s.len(),
    ensures
        i <= find_char_from(s, c, i) <= s.len(),
    decreases s.len() - i,
{
    if i < s.len() && s[i] != c {
        lemma_find_char_bounds(s, c, i + 1);
    }
}

pub fn find_char_exec(v: &Vec<char>, c: char, i: usize) -> (r: usize)
    requires
        i <= v@.len(),
    ensures
        r == find_char_from(v@, c, i as int),
        i <= r <= v@.len(),
    decreases v@.len() - i,
{
    if i >= v.len() {
        v.len()
    } else if v[i] == c {
        i
    } else {
        find_char_exec(v, c, i + 1)
    }
}

/// The views of a sequence of character vectors.
pub open spec fn views_of(s: Seq<Vec<char>>) -> Seq<Seq<char>> {
    s.map_values(|v: Vec<char>| v@)
}

/// Whitespace-separated tokens of `s`, scanning from position `i`.
pub open spec fn split_ws_from(s: Seq<char>, i: int) -> Seq<Seq<char>>
    decreases s.len() - i,
    via split_ws_from_dec
{
    if i < 0 || i >= s.len() {
        Seq::empty()
    } else if is_space_char(s[i]) {
        split_ws_from(s, i + 1)
    } else {
        seq![s.subrange(i, first_space_from(s, i))] + split_ws_from(s, first_space_from(s, i))
    }
}

#[via_fn]
proof fn split_ws_from_dec(s: Seq<char>, i: int) {
    if !(i < 0 || i >= s.len()) && !is_space_char(s[i]) {
        lemma_first_space_bounds(s, i + 1);
    }
}

pub fn split_ws(v: &Vec<char>) -> (r: Vec<Vec<char>>)
    ensures
        views_of(r@) == split_ws_from(v@, 0),
{
    let r = split_ws_exec(v, 0);
    r
}

fn split_ws_exec(v: &Vec<char>, i: usize) -> (r: Vec<Vec<char>>)
    requires
        i <= v@.len(),
    ensures
        views_of(r@) == split_ws_from(v@, i as int),
    decreases v@.len() - i,
{
    if i >= v.len() {
        let r: Vec<Vec<char>> = Vec::new();
        proof {
            assert(views_of(r@) =~= split_ws_from(v@, i as int));
        }
        r
    } else if char_is_space(v[i]) {
        split_ws_exec(v, i + 1)
    } else {
        let e = first_space_exec(v, i);
        proof {
            lemma_first_space_bounds(v@, i as int + 1);
            assert(e > i);
        }
        let tok = subvec(v, i, e);
        let mut r = split_ws_exec(v, e);
        r.insert(0, tok);
        proof {
            assert(views_of(r@) =~= seq![v@.subrange(i as int, e as int)] + split_ws_from(
                v@,
                e as int,
            ));
        }
        r
    }
}

/// Pieces of `s` split on the character `c`, scanning from position `i`;
/// empty pieces are kept, as the splitter of std keeps them.
pub open spec fn split_char_from(s: Seq<char>, c: char, i: int) -> Seq<Seq<char>>
    decreases s.len() - i,
    via split_char_from_dec
{
    if i < 0 || i > s.len() {
        Seq::empty()
    } else {
        let e = find_char_from(s, c, i);
        if e >= s.len() {
            seq![s.subrange(i, s.len() as int)]
        } else {
            seq![s.subrange(i, e)] + split_char_from(s, c, e + 1)
        }
    }
}

#[via_fn]
proof fn split_char_from_dec(s: Seq<char>, c: char, i: int) {
    if 0 <= i <= s.len() {
        lemma_find_char_bounds(s, c, i);
    }
}

pub fn split_char(v: &Vec<char>, c: char) -> (r: Vec<Vec<char>>)
    ensures
        views_of(r@) == split_char_from(v@, c, 0),
{
    split_char_exec(v, c, 0)
}

fn split_char_exec(v: &Vec<char>, c: char, i: usize) -> (r: Vec<Vec<char>>)
    requires
        i <= v@.len(),
    ensures
        views_of(r@) == split_char_from(v@, c, i as int),
    decreases v@.len() - i,
{
    let e = find_char_exec(v, c, i);
    if e >= v.len() {
        let piece = subvec(v, i, v.len());
        let mut r: Vec<Vec<char>> = Vec::new();
        r.push(piece);
        proof {
            assert(views_of(r@) =~= split_char_from(v@, c, i as int));
        }
        r
    } else {
        let piece = subvec(v, i, e);
        let mut r = split_char_exec(v, c, e + 1);
        r.insert(0, piece);
        proof {
            assert(views_of(r@) =~= seq![v@.subrange(i as int, e as int)] + split_char_from(
                v@,
                c,
                e + 1,
            ));
        }
        r
    }
}

/// The pieces joined with the single character `c` between them, starting at
/// piece `i`.
pub open spec fn join_char_from(ps: Seq<Seq<char>>, c: char, i: int) -> Seq<char>
    decreases ps.len() - i,
{
    if i < 0 || i >= ps.len() {
        Seq::empty()
    } else if i == ps.len() - 1 {
        ps[i]
    } else {
        ps[i] + seq![c] + join_char_from(ps, c, i + 1)
    }
}

pub fn join_char(pieces: &Vec<Vec<char>>, c: char) -> (r: Vec<char>)
    ensures
        r@ == join_char_from(views_of(pieces@), c, 0),
{
    join_char_exec(pieces, c, 0)
}

fn join_char_exec(pieces: &Vec<Vec<char>>, c: char, i: usize) -> (r: Vec<char>)
    requires
        i <= pieces@.len(),
    ensures
        r@ == join_char_from(views_of(pieces@), c, i as int),
    decreases pieces@.len() - i,
{
    if i >= pieces.len() {
        let r: Vec<char> = Vec::new();
        proof {
            assert(r@ =~= join_char_from(views_of(pieces@), c, i as int));
        }
        r
    } else if i == pieces.len() - 1 {
        let mut r: Vec<char> = Vec::new();
        push_all(&mut r, &pieces[i]);
        proof {
            assert(r@ =~= join_char_from(views_of(pieces@), c, i as int));
        }
        r
    } else {
        let mut r: Vec<char> = Vec::new();
        push_all(&mut r, &pieces[i]);
        r.push(c);
        let rest = join_char_exec(pieces, c, i + 1);
        push_all(&mut r, &rest);
        proof {
            assert(r@ =~= join_char_from(views_of(pieces@), c, i as int));
        }
        r
    }
}

/// `s` from position `i` on, with every occurrence of the non-empty pattern
/// removed; the scan is left to right and non-overlapping.
pub open spec fn remove_sub_from(s: Seq<char>, pat: Seq<char>, i: int) -> Seq<char>
    decreases s.len() - i,
{
    if i < 0 || i >= s.len() {
        Seq::empty()
    } else if pat.len() > 0 && match_at(s, pat, i) {
        remove_sub_from(s, pat, i + pat.len())
    } else {
        seq![s[i]] + remove_sub_from(s, pat, i + 1)
    }
}

pub fn remove_sub_all(v: &Vec<char>, pat: &Vec<char>) -> (r: Vec<char>)
    ensures
        r@ == remove_sub_from(v@, pat@, 0),
{
    remove_sub_exec(v, pat, 0)
}

fn remove_sub_exec(v: &Vec<char>, pat: &Vec<char>, i: usize) -> (r: Vec<char>)
    requires
        i <= v@.len(),
    ensures
        r@ == remove_sub_from(v@, pat@, i as int),
    decreases v@.len() - i,
{
    if i >= v.len() {
        Vec::new()
    } else if pat.len() > 0 && matches_at(v, pat, i) {
        remove_sub_exec(v, pat, i + pat.len())
    } else {
        let mut r = remove_sub_exec(v, pat, i + 1);
        r.insert(0, v[i]);
        proof {
            assert(r@ =~= seq![v@[i as int]] + remove_sub_from(v@, pat@, i + 1));
        }
        r
    }
}

/// Cut point from the right for a trailing run of the character `c`.
pub open spec fn trim_end_char_from(s: Seq<char>, c: char, j: int) -> int
    decreases j,
{
    if j <= 0 || j > s.len() {
        0
    } else if s[j - 1] == c {
        trim_end_char_from(s, c, j - 1)
    } else {
        j
    }
}

/// `s` with every trailing occurrence of `c` removed.
pub open spec fn trimmed_end_char(s: Seq<char>, c: char) -> Seq<char> {
    s.subrange(0, trim_end_char_from(s, c, s.len() as int))
}

pub proof fn lemma_trim_end_char_bounds(s: Seq<char>, c: char, j: int)
    requires
        0 <= j <= s.len(),
    ensures
        0 <= trim_end_char_from(s, c, j) <= j,
    decreases j,
{
    if j > 0 && s[j - 1] == c {
        lemma_trim_end_char_bounds(s, c, j - 1);
    }
}

pub fn trim_end_char_exec(v: &Vec<char>, c: char, j: usize) -> (r: usize)
    requires
        j <= v@.len(),
    ensures
        r == trim_end_char_from(v@, c, j as int),
        r <= j,
    decreases j,
{
    if j == 0 {
        0
    } else if v[j - 1] == c {
        trim_end_char_exec(v, c, j - 1)
    } else {
        j
    }
}

pub fn trim_end_char(v: &Vec<char>, c: char) -> (r: Vec<char>)
    ensures
        r@ == trimmed_end_char(v@, c),
{
    let b = trim_end_char_exec(v, c, v.len());
    subvec(v, 0, b)
}

/// Index of the first character at or after `i` that is not `c`, or the length.
pub open spec fn skip_char_from(s: Seq<char>, c: char, i: int) -> int
    decreases s.len() - i,
{
    if i < 0 || i >= s.len() {
        s.len() as int
    } else if s[i] == c {
        skip_char_from(s, c, i + 1)
    } else {
        i
    }
}

pub fn skip_char_exec(v: &Vec<char>, c: char, i: usize) -> (r: usize)
    requires
        i <= v@.len(),
    ensures
        r == skip_char_from(v@, c, i as int),
        i <= r <= v@.len(),
    decreases v@.len() - i,
{
    if i >= v.len() {
        v.len()
    } else if v[i] == c {
        skip_char_exec(v, c, i + 1)
    } else {
        i
    }
}

/// `s` with every leading and trailing occurrence of `c` removed.
pub open spec fn trimmed_char_both(s: Seq<char>, c: char) -> Seq<char> {
    let a = skip_char_from(s, c, 0);
    let b = trim_end_char_from(s, c, s.len() as int);
    if a < b {
        s.subrange(a, b)
    } else {
        Seq::empty()
    }
}

pub fn trim_char_both(v: &Vec<char>, c: char) -> (r: Vec<char>)
    ensures
        r@ == trimmed_char_both(v@, c),
{
    let a = skip_char_exec(v, c, 0);
    let b = trim_end_char_exec(v, c, v.len());
    if a < b {
        subvec(v, a, b)
    } else {
        Vec::new()
    }
}

/// The remainder of `hay` after the prefix `pre`, when `hay` begins with it.
pub fn strip_prefix(hay: &Vec<char>, pre: &Vec<char>) -> (r: Option<Vec<char>>)
    ensures
        match r {
            Some(rest) => starts_with(hay@, pre@) && rest@ == hay@.subrange(
                pre@.len() as int,
                hay@.len() as int,
            ),
            None => !starts_with(hay@, pre@),
        },
{
    if begins_with(hay, pre) {
        Some(subvec(hay, pre.len(), hay.len()))
    } else {
        None
    }
}

/// Decimal digit characters.
pub open spec fn is_digit_char(c: char) -> bool {
    48 <= c as u32 <= 57
}

/// Numeric value of a decimal digit character.
pub open spec fn digit_val(c: char) -> int {
    c as u32 - 48
}

pub fn char_is_digit(c: char) -> (r: bool)
    ensures
        r == is_digit_char(c),
{
    let u = c as u32;
    48 <= u && u <= 57
}

/// Every character of `s` is a decimal digit.
pub open spec fn all_digits(s: Seq<char>) -> bool {
    forall|i: int| 0 <= i < s.len() ==> is_digit_char(s[i])
}

pub fn check_all_digits(v: &Vec<char>) -> (r: bool)
    ensures
        r == all_digits(v@),
{
    let mut i: usize = 0;
    while i < v.len()
        invariant
            i <= v@.len(),
            forall|k: int| 0 <= k < i ==> is_digit_char(v@[k]),
        decreases v@.len() - i,
    {
        if !char_is_digit(v[i]) {
            return false;
        }
        i += 1;
    }
    true
}

/// The numeric value of a string of decimal digits, most significant first.
pub open spec fn dec_value(s: Seq<char>) -> int
    decreases s.len(),
{
    if s.len() == 0 {
        0
    } else {
        dec_value(s.drop_last()) * 10 + digit_val(s.last())
    }
}

/// Powers of ten.
pub open spec fn pow10(n: nat) -> int
    decreases n,
{
    if n == 0 {
        1
    } else {
        10 * pow10((n - 1) as nat)
    }
}

pub proof fn lemma_dec_value_bounds(s: Seq<char>)
    requires
        all_digits(s),
    ensures
        0 <= dec_value(s) < pow10(s.len()),
    decreases s.len(),
{
    if s.len() > 0 {
        assert(all_digits(s.drop_last())) by {
            assert(forall|i: int|
                0 <= i < s.len() - 1 ==> s.drop_last()[i] == s[i]);
        }
        lemma_dec_value_bounds(s.drop_last());
    }
}

pub proof fn lemma_pow10_pos(n: nat)
    ensures
        pow10(n) >= 1,
    decreases n,
{
    if n > 0 {
        lemma_pow10_pos((n - 1) as nat);
    }
}

pub proof fn lemma_pow10_mono(a: nat, b: nat)
    requires
        a <= b,
    ensures
        pow10(a) <= pow10(b),
    decreases b,
{
    if a < b {
        lemma_pow10_mono(a, (b - 1) as nat);
        lemma_pow10_pos((b - 1) as nat);
    }
}

/// A plain unsigned integer token: only digits, at least one, at most
/// eighteen, so that its value always fits the machine words used here.
pub open spec fn is_uint_token(s: Seq<char>) -> bool {
    1 <= s.len() <= 18 && all_digits(s)
}

/// Parse an unsigned integer token; `None` on anything else.
pub fn parse_uint(v: &Vec<char>) -> (r: Option<u64>)
    ensures
        match r {
            Some(n) => is_uint_token(v@) && n == dec_value(v@),
            None => !is_uint_token(v@),
        },
{
    if v.len() == 0 || v.len() > 18 || !check_all_digits(v) {
        return None;
    }
    let mut acc: u64 = 0;
    let mut i: usize = 0;
    while i < v.len()
        invariant
            i <= v@.len() <= 18,
            all_digits(v@),
            acc == dec_value(v@.take(i as int)),
            acc < pow10(i as nat),
        decreases v@.len() - i,
    {
        proof {
            assert(all_digits(v@.take(i + 1)));
            lemma_dec_value_bounds(v@.take(i + 1));
            assert(v@.take(i + 1).drop_last() =~= v@.take(i as int));
            assert(v@.take(i + 1).last() == v@[i as int]);
            lemma_pow10_mono((i + 1) as nat, 18);
            assert(pow10(18) == 1000000000000000000) by {
                reveal_with_fuel(pow10, 19);
            }
        }
        let d = (v[i] as u32 - 48) as u64;
        acc = acc * 10 + d;
        i += 1;
    }
    proof {
        assert(v@.take(v@.len() as int) =~= v@);
    }
    Some(acc)
}

/// The decimal-digit characters of `n`, most significant first.
pub open spec fn dec_chars(n: int) -> Seq<char>
    decreases n,
{
    if n < 10 {
        seq![digit_char(n)]
    } else {
        dec_chars(n / 10).push(digit_char(n % 10))
    }
}

/// The digit character for a value in 0..10.
pub open spec fn digit_char(d: int) -> char {
    ((48 + d) as u8) as char
}

/// Render an unsigned integer in decimal.
pub fn uint_chars(n: u64) -> (r: Vec<char>)
    ensures
        r@ == dec_chars(n as int),
    decreases n,
{
    if n < 10 {
        let c = ((48 + n) as u8) as char;
        let mut r: Vec<char> = Vec::new();
        r.push(c);
        proof {
            assert(r@ =~= dec_chars(n as int));
        }
        r
    } else {
        let mut r = uint_chars(n / 10);
        let c = ((48 + (n % 10)) as u8) as char;
        r.push(c);
        r
    }
}

/// A decimal numeric token: one to twelve digits, optionally followed by a
/// dot and at least one more digit. The digit limits keep every token value
/// inside the fixed-point range used throughout this crate.
pub open spec fn is_decimal_token(s: Seq<char>) -> bool {
    let dot = find_char_from(s, '.', 0);
    if dot == s.len() {
        1 <= s.len() <= 12 && all_digits(s)
    } else {
        1 <= dot <= 12 && all_digits(s.subrange(0, dot)) && dot + 1 < s.len() && all_digits(
            s.subrange(dot + 1, s.len() as int),
        )
    }
}

/// Value in thousandths contributed by a fraction part; only the first three
/// fraction digits carry weight.
pub open spec fn frac_millis(fr: Seq<char>) -> int {
    if fr.len() >= 3 {
        dec_value(fr.take(3))
    } else {
        dec_value(fr) * pow10((3 - fr.len()) as nat)
    }
}

/// The value of a decimal numeric token, in thousandths.
pub open spec fn decimal_millis(s: Seq<char>) -> int {
    let dot = find_char_from(s, '.', 0);
    if dot == s.len() {
        dec_value(s) * 1000
    } else {
        dec_value(s.subrange(0, dot)) * 1000 + frac_millis(s.subrange(dot + 1, s.len() as int))
    }
}

/// Parse a decimal numeric token into thousandths; `None` on anything else.
/// The result is non-negative and below 10^15.
pub fn parse_decimal_millis(v: &Vec<char>) -> (r: Option<i64>)
    ensures
        match r {
            Some(m) => is_decimal_token(v@) && m == decimal_millis(v@) && 0 <= m
                < 1000000000000000,
            None => !is_decimal_token(v@),
        },
{
    proof {
        lemma_find_char_bounds(v@, '.', 0);
        assert(pow10(12) == 1000000000000) by {
            reveal_with_fuel(pow10, 13);
        }
        assert(pow10(3) == 1000) by {
            reveal_with_fuel(pow10, 4);
        }
    }
    let dot = find_char_exec(v, '.', 0);
    if dot == v.len() {
        if v.len() == 0 || v.len() > 12 {
            return None;
        }
        match parse_uint(v) {
            Some(n) => {
                proof {
                    lemma_dec_value_bounds(v@);
                    lemma_pow10_mono(v@.len() as nat, 12);
                }
                Some((n as i64) * 1000)
            },
            None => None,
        }
    } else {
        if dot == 0 || dot > 12 || dot + 1 >= v.len() {
            return None;
        }
        let whole = subvec(v, 0, dot);
        let fr = subvec(v, dot + 1, v.len());
        let wv = match parse_uint(&whole) {
            Some(n) => n,
            None => {
                return None;
            },
        };
        if !check_all_digits(&fr) {
            return None;
        }
        proof {
            lemma_dec_value_bounds(whole@);
            lemma_pow10_mono(whole@.len() as nat, 12);
        }
        let (f3, mult): (Vec<char>, u64) = if fr.len() >= 3 {
            (subvec(&fr, 0, 3), 1)
        } else if fr.len() == 2 {
            (subvec(&fr, 0, 2), 10)
        } else {
            (subvec(&fr, 0, 1), 100)
        };
        proof {
            assert(all_digits(f3@));
            if fr@.len() >= 3 {
                assert(f3@ =~= fr@.take(3));
            } else {
                assert(f3@ =~= fr@);
            }
            lemma_dec_value_bounds(f3@);
            lemma_pow10_mono(f3@.len() as nat, 3);
        }
        let fv = match parse_uint(&f3) {
            Some(n) => n,
            None => {
                proof {
                    assert(is_uint_token(f3@));
                }
                return None;
            },
        };
        let m = wv * 1000 + fv * mult;
        proof {
            assert(fv * mult <= 999) by {
                if fr@.len() >= 3 {
                    assert(fv < 1000 && mult == 1);
                } else if fr@.len() == 2 {
                    assert(pow10(2) == 100) by {
                        reveal_with_fuel(pow10, 3);
                    }
                    assert(fv < 100 && mult == 10);
                } else {
                    assert(pow10(1) == 10) by {
                        reveal_with_fuel(pow10, 2);
                    }
                    assert(fv < 10 && mult == 100);
                }
            }
        }
        Some(m as i64)
    }
}

/// `s` with the prefix `pre` stripped as many times as it recurs at the
/// front; with an empty prefix nothing is stripped.
pub open spec fn strip_prefix_rep(s: Seq<char>, pre: Seq<char>) -> Seq<char>
    decreases s.len(),
{
    if pre.len() == 0 || !starts_with(s, pre) {
        s
    } else {
        strip_prefix_rep(s.skip(pre.len() as int), pre)
    }
}

pub fn strip_prefix_all(hay: &Vec<char>, pre: &Vec<char>) -> (r: Vec<char>)
    ensures
        r@ == strip_prefix_rep(hay@, pre@),
    decreases hay@.len(),
{
    if pre.len() == 0 || !begins_with(hay, pre) {
        subvec(hay, 0, hay.len())
    } else {
        let rest = subvec(hay, pre.len(), hay.len());
        strip_prefix_all(&rest, pre)
    }
}

/// `s` with the suffix `suf` stripped as many times as it recurs at the
/// end; with an empty suffix nothing is stripped.
pub open spec fn strip_suffix_rep(s: Seq<char>, suf: Seq<char>) -> Seq<char>
    decreases s.len(),
{
    if suf.len() == 0 || !ends_with(s, suf) {
        s
    } else {
        strip_suffix_rep(s.take(s.len() - suf.len()), suf)
    }
}

pub fn strip_suffix_all(hay: &Vec<char>, suf: &Vec<char>) -> (r: Vec<char>)
    ensures
        r@ == strip_suffix_rep(hay@, suf@),
    decreases hay@.len(),
{
    if suf.len() == 0 || !finishes_with(hay, suf) {
        subvec(hay, 0, hay.len())
    } else {
        let front = subvec(hay, 0, hay.len() - suf.len());
        strip_suffix_all(&front, suf)
    }
}

/// The start positions of the non-overlapping occurrences of the non-empty
/// pattern in `s`, scanning left to right from `i`.
pub open spec fn occurrences_from(s: Seq<char>, pat: Seq<char>, i: int) -> Seq<int>
    decreases s.len() - i,
    via occurrences_from_dec
{
    if pat.len() == 0 || i < 0 || i + pat.len() > s.len() {
        Seq::empty()
    } else if match_at(s, pat, i) {
        seq![i] + occurrences_from(s, pat, i + pat.len())
    } else {
        occurrences_from(s, pat, i + 1)
    }
}

#[via_fn]
proof fn occurrences_from_dec(s: Seq<char>, pat: Seq<char>, i: int) {
}

pub fn occurrence_list(v: &Vec<char>, pat: &Vec<char>, i: usize) -> (r: Vec<usize>)
    ensures
        r@.map_values(|x: usize| x as int) == occurrences_from(v@, pat@, i as int),
        forall|k: int| 0 <= k < r@.len() ==> #[trigger] r@[k] + pat@.len() <= v@.len(),
    decreases v@.len() - i,
{
    if pat.len() == 0 || i > v.len() || v.len() - i < pat.len() {
        let r: Vec<usize> = Vec::new();
        proof {
            assert(r@.map_values(|x: usize| x as int) =~= occurrences_from(v@, pat@, i as int));
        }
        r
    } else if matches_at(v, pat, i) {
        let mut r = occurrence_list(v, pat, i + pat.len());
        r.insert(0, i);
        proof {
            assert(r@.map_values(|x: usize| x as int) =~= seq![i as int] + occurrences_from(
                v@,
                pat@,
                i + pat@.len(),
            ));
        }
        r
    } else {
        occurrence_list(v, pat, i + 1)
    }
}

/// The string list carries exactly the given character sequences.
pub open spec fn strings_match(ss: Seq<String>, cs: Seq<Seq<char>>) -> bool {
    ss.len() == cs.len() && (forall|k: int| 0 <= k < ss.len() ==> (#[trigger] ss[k])@ == cs[k])
}

/// Convert a list of character vectors into strings, in order.
pub fn strings_of(vs: &Vec<Vec<char>>) -> (r: Vec<String>)
    ensures
        strings_match(r@, views_of(vs@)),
{
    let mut r: Vec<String> = Vec::new();
    let mut i: usize = 0;
    while i < vs.len()
        invariant
            i <= vs@.len(),
            r@.len() == i,
            forall|k: int| 0 <= k < i ==> (#[trigger] r@[k])@ == vs@[k]@,
        decreases vs@.len() - i,
    {
        r.push(crate::foreign::string_from_chars(&vs[i]));
        i += 1;
    }
    r
}

} // verus!
