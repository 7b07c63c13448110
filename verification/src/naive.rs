//! The scalar filter, which defines the result of filtering.

use crate::frame::DataFrame;
use crate::model::{lemma_row_included_step, reference_mask};
use vstd::prelude::*;

verus! {

/// The scalar filter. Returns the inclusion mask of `df` for `value`: one
/// flag per row, true exactly where some column holds `value` in that row.
///
/// The mask starts all false, and every cell of every column is compared
/// with `value` and OR-ed into the flag of its row.
pub fn naive_filter_implementation(df: &DataFrame, value: i32) -> (should_include: Vec<bool>)
    ensures
        should_include@ == reference_mask(df@, df.rows(), value),
{
    let nrow = df.nrow();
    let ncol = df.ncol();
    let mut should_include: Vec<bool> = vec![false; nrow];
    assert(should_include@ =~= reference_mask(df@.take(0), nrow as nat, value));
    for c in 0..ncol
        invariant
            ncol == df@.len(),
            nrow == df.rows(),
            should_include@ == reference_mask(df@.take(c as int), nrow as nat, value),
    {
        let col = df.column(c);
        for row in 0..nrow
            invariant
                0 <= c < df@.len(),
                nrow == col.len(),
                nrow == should_include.len(),
                col@ == df@[c as int],
                forall|r: int|
                    0 <= r < row ==> should_include@[r] == reference_mask(
                        df@.take(c + 1),
                        nrow as nat,
                        value,
                    )[r],
                forall|r: int|
                    row <= r < nrow ==> should_include@[r] == reference_mask(
                        df@.take(c as int),
                        nrow as nat,
                        value,
                    )[r],
        {
            proof {
                lemma_row_included_step(df@, c as int, row as int, value);
            }
            let hit = col[row] == value;
            should_include[row] = should_include[row] || hit;
        }
        assert(should_include@ =~= reference_mask(df@.take(c + 1), nrow as nat, value));
    }
    assert(df@.take(ncol as int) =~= df@);
    should_include
}

} // verus!
