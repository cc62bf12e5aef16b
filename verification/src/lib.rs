//! Extraction and normalization engine for publication catalog data parsed
//! from heterogeneous HTML documents.

pub mod chapnum;
pub mod dates;
pub mod dom;
pub mod filters;
pub mod foreign;
pub mod helpers;
pub mod mangabuff;
pub mod records;
pub mod senkuro;
pub mod sorting;
pub mod text;
pub mod urlenc;

use vstd::prelude::*;

verus! {

} // verus!
