//! A byte-level difference count and a counter whose updates are proved
//! against a model of its operations.

mod counter;
mod delta;

pub use counter::{
    increments, lemma_concurrent_increments, lemma_reset_idempotent,
    lemma_reset_then_two_increments, lemma_run_increments, occurrences, occurrences_below, run,
    step, Counter, CounterOp,
};
pub use delta::{
    compute_delta, delta, lemma_delta_empty, lemma_delta_self, lemma_delta_symmetric,
    lemma_delta_zero_iff_equal, mismatches, overlap,
};
