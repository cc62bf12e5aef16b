//! Verified percent-encoding of query values: UTF-8 bytes of each escaped
//! character, each rendered as `%XX` with upper-case hex digits.

use vstd::prelude::*;
use crate::foreign;
use crate::text;

verus! {

/// Characters the encoder passes through unescaped: ASCII alphanumerics and
/// the marks and separators `; , / ? : @ & = + $ - _ . ! ~ * ' ( ) #`.
pub open spec fn is_unescaped(c: char) -> bool {
    (65 <= c as u32 <= 90) || (97 <= c as u32 <= 122) || (48 <= c as u32 <= 57) || c == ';'
        || c == ',' || c == '/' || c == '?' || c == ':' || c == '@' || c == '&' || c == '='
        || c == '+' || c == '$' || c == '-' || c == '_' || c == '.' || c == '!' || c == '~'
        || c == '*' || c == '\'' || c == '(' || c == ')' || c == '#'
}

fn char_is_unescaped(c: char) -> (r: bool)
    ensures
        r == is_unescaped(c),
{
    let u = c as u32;
    (65 <= u && u <= 90) || (97 <= u && u <= 122) || (48 <= u && u <= 57) || c == ';' || c == ','
        || c == '/' || c == '?' || c == ':' || c == '@' || c == '&' || c == '=' || c == '+'
        || c == '$' || c == '-' || c == '_' || c == '.' || c == '!' || c == '~' || c == '*'
        || c == '\'' || c == '(' || c == ')' || c == '#'
}

/// The UTF-8 bytes of one character, written with division and remainder so
/// that the byte values are plain arithmetic facts.
pub open spec fn utf8_bytes(c: char) -> Seq<u8> {
    let u = c as u32;
    if u < 128 {
        seq![u as u8]
    } else if u < 2048 {
        seq![(192 + u / 64) as u8, (128 + u % 64) as u8]
    } else if u < 65536 {
        seq![(224 + u / 4096) as u8, (128 + (u / 64) % 64) as u8, (128 + u % 64) as u8]
    } else {
        seq![
            (240 + u / 262144) as u8,
            (128 + (u / 4096) % 64) as u8,
            (128 + (u / 64) % 64) as u8,
            (128 + u % 64) as u8,
        ]
    }
}

fn utf8_bytes_exec(c: char) -> (r: Vec<u8>)
    ensures
        r@ == utf8_bytes(c),
{
    let u = c as u32;
    let mut r: Vec<u8> = Vec::new();
    if u < 128 {
        r.push(u as u8);
    } else if u < 2048 {
        r.push((192 + u / 64) as u8);
        r.push((128 + u % 64) as u8);
    } else if u < 65536 {
        r.push((224 + u / 4096) as u8);
        r.push((128 + (u / 64) % 64) as u8);
        r.push((128 + u % 64) as u8);
    } else {
        r.push((240 + u / 262144) as u8);
        r.push((128 + (u / 4096) % 64) as u8);
        r.push((128 + (u / 64) % 64) as u8);
        r.push((128 + u % 64) as u8);
    }
    proof {
        assert(r@ =~= utf8_bytes(c));
    }
    r
}

/// The upper-case hex digit character for a value in 0..16.
pub open spec fn hex_char(d: int) -> char {
    if d < 10 {
        ((48 + d) as u8) as char
    } else {
        ((55 + d) as u8) as char
    }
}

/// `%XX` for one byte.
pub open spec fn pct_of_byte(b: u8) -> Seq<char> {
    seq!['%', hex_char(b as int / 16), hex_char(b as int % 16)]
}

/// The percent-escapes of the bytes `bs[i..]`, concatenated.
pub open spec fn pct_bytes_from(bs: Seq<u8>, i: int) -> Seq<char>
    decreases bs.len() - i,
{
    if i < 0 || i >= bs.len() {
        Seq::empty()
    } else {
        pct_of_byte(bs[i]) + pct_bytes_from(bs, i + 1)
    }
}

/// The encoding of one character: itself if unescaped, else the
/// percent-escapes of its UTF-8 bytes.
pub open spec fn enc_char(c: char) -> Seq<char> {
    if is_unescaped(c) {
        seq![c]
    } else {
        pct_bytes_from(utf8_bytes(c), 0)
    }
}

/// The encoding of the characters `s[i..]`, concatenated.
pub open spec fn encoded_from(s: Seq<char>, i: int) -> Seq<char>
    decreases s.len() - i,
{
    if i < 0 || i >= s.len() {
        Seq::empty()
    } else {
        enc_char(s[i]) + encoded_from(s, i + 1)
    }
}

fn push_hex_byte(out: &mut Vec<char>, b: u8)
    ensures
        final(out)@ == old(out)@ + pct_of_byte(b),
{
    out.push('%');
    let hi = b / 16;
    let lo = b % 16;
    let hc = if hi < 10 {
        ((48 + hi) as u8) as char
    } else {
        ((55 + hi) as u8) as char
    };
    let lc = if lo < 10 {
        ((48 + lo) as u8) as char
    } else {
        ((55 + lo) as u8) as char
    };
    out.push(hc);
    out.push(lc);
    proof {
        assert(out@ =~= old(out)@ + pct_of_byte(b));
    }
}

fn encode_from_exec(v: &Vec<char>, i: usize) -> (r: Vec<char>)
    requires
        i <= v@.len(),
    ensures
        r@ == encoded_from(v@, i as int),
    decreases v@.len() - i,
{
    if i >= v.len() {
        Vec::new()
    } else {
        let c = v[i];
        let mut r: Vec<char> = Vec::new();
        if char_is_unescaped(c) {
            r.push(c);
        } else {
            let bs = utf8_bytes_exec(c);
            let mut k: usize = 0;
            while k < bs.len()
                invariant
                    k <= bs@.len(),
                    bs@ == utf8_bytes(c),
                    r@ == enc_char(c).take(3 * k as int),
                    !is_unescaped(c),
                decreases bs@.len() - k,
            {
                push_hex_byte(&mut r, bs[k]);
                k += 1;
                proof {
                    lemma_pct_take(bs@, k as int);
                }
            }
            proof {
                lemma_pct_len(bs@, 0);
                assert(enc_char(c).take(3 * bs@.len() as int) =~= enc_char(c));
            }
        }
        let rest = encode_from_exec(v, i + 1);
        text::push_all(&mut r, &rest);
        r
    }
}

/// The escapes of the first `k` bytes are the first `3 k` characters of the
/// whole escape string.
proof fn lemma_pct_take(bs: Seq<u8>, k: int)
    requires
        0 <= k <= bs.len(),
    ensures
        pct_bytes_from(bs, 0).take(3 * k) + pct_bytes_from(bs, k) == pct_bytes_from(bs, 0),
        pct_bytes_from(bs, 0).take(3 * (k - 1)) + pct_of_byte(bs[k - 1]) == pct_bytes_from(
            bs,
            0,
        ).take(3 * k) || k == 0,
    decreases bs.len(),
{
    lemma_pct_parts(bs, 0, k);
    if k > 0 {
        lemma_pct_parts(bs, 0, k - 1);
        lemma_pct_len(bs, 0);
        assert(pct_bytes_from(bs, k - 1) == pct_of_byte(bs[k - 1]) + pct_bytes_from(bs, k));
        assert(pct_bytes_from(bs, 0).take(3 * (k - 1)) + pct_of_byte(bs[k - 1])
            =~= pct_bytes_from(bs, 0).take(3 * k)) by {
            lemma_pct_len(bs, k);
            lemma_pct_len(bs, k - 1);
        }
    }
}

/// The escape string of `bs[i..]` has three characters per byte.
proof fn lemma_pct_len(bs: Seq<u8>, i: int)
    ensures
        0 <= i <= bs.len() ==> pct_bytes_from(bs, i).len() == 3 * (bs.len() - i),
    decreases bs.len() - i,
{
    if 0 <= i && i < bs.len() {
        lemma_pct_len(bs, i + 1);
    }
}

/// Splitting the escape string of `bs[i..]` at byte `k`.
proof fn lemma_pct_parts(bs: Seq<u8>, i: int, k: int)
    requires
        0 <= i <= k <= bs.len(),
    ensures
        pct_bytes_from(bs, i).take(3 * (k - i)) + pct_bytes_from(bs, k) == pct_bytes_from(
            bs,
            i,
        ),
        pct_bytes_from(bs, i).take(3 * (k - i)) == pct_bytes_from(bs, i).subrange(
            0,
            3 * (k - i),
        ),
    decreases k - i,
{
    lemma_pct_len(bs, i);
    lemma_pct_len(bs, k);
    if i < k {
        lemma_pct_parts(bs, i + 1, k);
        lemma_pct_len(bs, i + 1);
        assert(pct_bytes_from(bs, i).take(3 * (k - i)) + pct_bytes_from(bs, k)
            =~= pct_bytes_from(bs, i));
    } else {
        assert(pct_bytes_from(bs, i).take(0) + pct_bytes_from(bs, k) =~= pct_bytes_from(
            bs,
            i,
        ));
    }
}

/// Percent-encode a query value.
pub fn encode_uri(s: &str) -> (r: String)
    ensures
        r@ == encoded_from(s@, 0),
{
    let v = text::str_chars(s);
    let enc = encode_from_exec(&v, 0);
    foreign::string_from_chars(&enc)
}

} // verus!
