//! The listing orderings a source offers, and how a host listing name maps
//! onto them.

use vstd::prelude::*;
use crate::text;

verus! {

/// A named listing as the host requests it.
pub struct Listing {
    pub name: String,
}

/// The orderings of the browse endpoint.
#[derive(Clone, Copy, PartialEq, Eq, Structural, Debug)]
pub enum Sorting {
    Rating,
    Popular,
    UpdatedRecently,
}

/// Which ordering a listing name selects; unknown names fall back to rating.
pub open spec fn sorting_of_name(name: Seq<char>) -> Sorting {
    if name == "Рейтинг"@ {
        Sorting::Rating
    } else if name == "Популярное"@ {
        Sorting::Popular
    } else if name == "Обновлено недавно"@ {
        Sorting::UpdatedRecently
    } else {
        Sorting::Rating
    }
}

/// The query-string value of an ordering.
pub open spec fn sort_param_of(s: Sorting) -> Seq<char> {
    match s {
        Sorting::Rating => "rating"@,
        Sorting::Popular => "views"@,
        Sorting::UpdatedRecently => "latest"@,
    }
}

impl Sorting {
    /// The ordering a host listing selects.
    pub fn from_listing(listing: &Listing) -> (r: Self)
        ensures
            r == sorting_of_name(listing.name@),
    {
        if text::str_eq(listing.name.as_str(), "Рейтинг") {
            Sorting::Rating
        } else if text::str_eq(listing.name.as_str(), "Популярное") {
            Sorting::Popular
        } else if text::str_eq(listing.name.as_str(), "Обновлено недавно") {
            Sorting::UpdatedRecently
        } else {
            Sorting::Rating
        }
    }

    /// The value this ordering contributes to a query string.
    pub fn param(&self) -> (r: &'static str)
        ensures
            r@ == sort_param_of(*self),
    {
        match self {
            Sorting::Rating => "rating",
            Sorting::Popular => "views",
            Sorting::UpdatedRecently => "latest",
        }
    }
}

} // verus!
