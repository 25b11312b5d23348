//! Co-sorting: derive a `Permutation` by sorting one reference sequence, then
//! apply that same rearrangement to the reference sequence and to any number
//! of companion sequences, so that positionally correlated sequences stay
//! correlated after one of them is sorted.
//!
//! The two reordering algorithms are an in-place cycle-chase application
//! (no allocation, only element swaps) and a copy-based application (one
//! temporary buffer per sequence, elements must be `Clone`). Both fail with
//! `LengthMismatch`, mutating nothing, when any sequence of a group does not
//! have the permutation's length.

pub mod chase;
pub mod convenience;
pub mod group;
pub mod inplace;
pub mod laws;
pub mod model;
pub mod orderable;
pub mod permutation;
pub mod stable;

pub use convenience::co_sort1;
pub use convenience::co_sort2;
pub use convenience::co_sort3;
pub use convenience::co_sort_stable1;
pub use convenience::co_sort_stable2;
pub use convenience::co_sort_stable3;
pub use group::CoSort;
pub use group::CoSortStable;
pub use model::apply_perm;
pub use model::ident_perm;
pub use model::is_permutation;
pub use orderable::Orderable;
pub use orderable::lex_le;
pub use orderable::sorted_by_le;
pub use orderable::sorts_keys;
pub use permutation::LengthMismatch;
pub use permutation::Permutation;
pub use stable::clones_perm;
