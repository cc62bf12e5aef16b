//! Search filters as the host hands them to an adapter.

use vstd::prelude::*;

verus! {

/// The kinds of search filter the adapters understand; anything else is
/// carried as `Other` and ignored.
#[derive(Clone, Copy, PartialEq, Eq, Structural, Debug)]
pub enum FilterType {
    /// Free-text title query.
    Title,
    /// A genre to include (value 1) or exclude (value 0).
    Genre,
    /// A boolean check option.
    Check,
    /// Any filter kind an adapter does not serialize.
    Other,
}

/// A filter's value: sources deliver either text, a small integer, or
/// nothing usable.
pub enum FilterValue {
    Text(String),
    Number(i64),
    Absent,
}

/// One search filter: its kind, its value, and the auxiliary identifier some
/// kinds carry (the query-parameter name of a genre or check option).
pub struct Filter {
    pub kind: FilterType,
    pub value: FilterValue,
    pub id: Option<String>,
}

} // verus!
