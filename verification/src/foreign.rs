//! The few calls whose bodies Verus does not check: conversions through std
//! collection traits and one itertools helper. Each contract states exactly
//! what the callee's source promises.

use vstd::prelude::*;
use itertools::Itertools;

verus! {

/// Relies on `String`'s `FromIterator<char>`: the resulting string holds
/// exactly the given characters, in order.
#[verifier::external_body]
pub fn string_from_chars(v: &Vec<char>) -> (r: String)
    ensures
        r@ == v@,
{
    v.iter().collect()
}

/// What `str::to_lowercase` returns: a function of the input characters alone.
pub uninterp spec fn lower_of(s: Seq<char>) -> Seq<char>;

/// Relies on `str::to_lowercase`: the result depends only on the characters
/// of the input.
#[verifier::external_body]
pub fn lowercase(s: &str) -> (r: String)
    ensures
        r@ == lower_of(s@),
{
    s.to_lowercase()
}

/// Relies on itertools' `collect_tuple` for pairs-of-three: `Some` exactly
/// when the iterator yields three items, holding them in order.
#[verifier::external_body]
pub fn collect_triple(parts: Vec<String>) -> (r: Option<(String, String, String)>)
    ensures
        match r {
            Some(t) => parts@.len() == 3 && t.0@ == parts@[0]@ && t.1@ == parts@[1]@ && t.2@
                == parts@[2]@,
            None => parts@.len() != 3,
        },
{
    parts.into_iter().collect_tuple()
}

} // verus!
