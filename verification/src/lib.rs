//! A fail-fast parser for the LAMDA molecular/atomic spectroscopic data
//! format: a fixed grammar of interleaved comment and data lines is walked
//! once, producing either a fully validated document or a single precise
//! diagnostic with an exact caret position.

pub mod document;
pub mod error;
pub mod lemmas;
pub mod numbers;
pub mod records;
pub mod text;

use vstd::prelude::*;

verus! {

/// An executable `Result` agrees with its mathematical counterpart: the
/// same arm, and a value whose view is the model.
pub open spec fn res_models<T: View, E: View>(
    r: Result<T, E>,
    m: Result<<T as View>::V, <E as View>::V>,
) -> bool {
    match (r, m) {
        (Ok(a), Ok(b)) => a@ == b,
        (Err(a), Err(b)) => a@ == b,
        _ => false,
    }
}


/// The views of a sequence of owned strings.
pub open spec fn string_views(v: Seq<String>) -> Seq<Seq<char>> {
    v.map_values(|s: String| s@)
}

} // verus!
