//! Shared helpers: the per-install base-URL override and the URL joiners
//! that derive canonical publication and chapter URLs.

use vstd::prelude::*;

verus! {

/// The base URL in force: a non-empty per-install override wins, anything
/// else falls back to the compiled-in default.
pub open spec fn base_url_of(ov: Option<Seq<char>>, def: Seq<char>) -> Seq<char> {
    match ov {
        Some(s) => if s.len() > 0 {
            s
        } else {
            def
        },
        None => def,
    }
}

/// Resolve the base URL from the configuration store's override value, which
/// the caller reads and hands in, and the source's default.
pub fn get_base_url(override_value: Option<&str>, default_base: &str) -> (r: String)
    ensures
        r@ == (match override_value {
            Some(s) => base_url_of(Some(s@), default_base@),
            None => base_url_of(None, default_base@),
        }),
{
    match override_value {
        Some(s) => {
            if s.unicode_len() > 0 {
                String::from_str(s)
            } else {
                String::from_str(default_base)
            }
        },
        None => String::from_str(default_base),
    }
}

/// The canonical URL of a publication: the base URL, a slash, the identifier.
pub fn get_manga_url(base: &str, id: &str) -> (r: String)
    ensures
        r@ == base@ + "/"@ + id@,
{
    let mut r = String::from_str(base);
    r.append("/");
    r.append(id);
    r
}

/// The URL of a chapter, with the marker that skips the adult-content gate.
pub fn get_chapter_url(base: &str, manga_id: &str, chapter_id: &str) -> (r: String)
    ensures
        r@ == base@ + "/"@ + manga_id@ + "/"@ + chapter_id@ + "?mtr=true"@,
{
    let mut r = String::from_str(base);
    r.append("/");
    r.append(manga_id);
    r.append("/");
    r.append(chapter_id);
    r.append("?mtr=true");
    r
}

} // verus!
