//! The mathematical model of tables and inclusion masks.
//!
//! A table is modelled as a sequence of columns, each a sequence of codes.
//! Everything the filters promise is stated over the functions defined here.

use vstd::prelude::*;

verus! {

/// Whether every column of `columns` has exactly `nrow` entries.
pub open spec fn rectangular(columns: Seq<Seq<i32>>, nrow: nat) -> bool {
    forall|c: int| 0 <= c < columns.len() ==> (#[trigger] columns[c]).len() == nrow
}

/// Whether some column holds `target` in row `row`.
pub open spec fn row_included(columns: Seq<Seq<i32>>, row: int, target: i32) -> bool {
    exists|c: int| 0 <= c < columns.len() && (#[trigger] columns[c])[row] == target
}

/// The inclusion mask of a table of `nrow` rows: one flag per row, true
/// exactly where some column equals `target`.
pub open spec fn reference_mask(columns: Seq<Seq<i32>>, nrow: nat, target: i32) -> Seq<bool> {
    Seq::new(nrow, |row: int| row_included(columns, row, target))
}

/// The lane encoding of a flag: every bit set for a match, every bit clear
/// otherwise.
pub open spec fn lane_flag(included: bool) -> i32 {
    if included {
        -1i32
    } else {
        0i32
    }
}

/// The inclusion mask in lane encoding.
pub open spec fn lane_mask(columns: Seq<Seq<i32>>, nrow: nat, target: i32) -> Seq<i32> {
    Seq::new(nrow, |row: int| lane_flag(row_included(columns, row, target)))
}

/// How a lane-encoded mask is read: a row is included exactly when its lane
/// is nonzero.
pub open spec fn normalized(mask: Seq<i32>) -> Seq<bool> {
    Seq::new(mask.len(), |row: int| mask[row] != 0)
}

/// The mask after the rows `start..end` of one column were compared with
/// `target` and OR-ed in; rows outside that range keep their lanes.
pub open spec fn or_lanes(
    mask: Seq<i32>,
    column: Seq<i32>,
    start: int,
    end: int,
    target: i32,
) -> Seq<i32> {
    Seq::new(
        mask.len(),
        |row: int|
            if start <= row < end {
                mask[row] | lane_flag(column[row] == target)
            } else {
                mask[row]
            },
    )
}

/// OR-ing two lane flags gives the lane flag of the disjunction.
pub proof fn lemma_lane_flag_or(a: bool, b: bool)
    ensures
        lane_flag(a) | lane_flag(b) == lane_flag(a || b),
{
    assert(0i32 | 0i32 == 0i32) by (bit_vector);
    assert(0i32 | -1i32 == -1i32) by (bit_vector);
    assert(-1i32 | 0i32 == -1i32) by (bit_vector);
    assert(-1i32 | -1i32 == -1i32) by (bit_vector);
}

/// A row is included by the first `k + 1` columns exactly when it is
/// included by the first `k` or column `k` holds the target there.
pub proof fn lemma_row_included_step(columns: Seq<Seq<i32>>, k: int, row: int, target: i32)
    requires
        0 <= k < columns.len(),
    ensures
        row_included(columns.take(k + 1), row, target) == (row_included(
            columns.take(k),
            row,
            target,
        ) || columns[k][row] == target),
{
    let shorter = columns.take(k);
    let longer = columns.take(k + 1);
    if row_included(longer, row, target) {
        let c = choose|c: int| 0 <= c < longer.len() && (#[trigger] longer[c])[row] == target;
        if c < k {
            assert(shorter[c][row] == target);
        }
    }
    if row_included(shorter, row, target) {
        let c = choose|c: int| 0 <= c < shorter.len() && (#[trigger] shorter[c])[row] == target;
        assert(longer[c][row] == target);
    }
    if columns[k][row] == target {
        assert(longer[k][row] == target);
    }
}

/// OR-ing a whole column into the lane mask of the first `k` columns gives
/// the lane mask of the first `k + 1` columns.
pub proof fn lemma_or_lanes_extends(columns: Seq<Seq<i32>>, nrow: nat, k: int, target: i32)
    requires
        0 <= k < columns.len(),
    ensures
        or_lanes(lane_mask(columns.take(k), nrow, target), columns[k], 0, nrow as int, target)
            == lane_mask(columns.take(k + 1), nrow, target),
{
    let before = lane_mask(columns.take(k), nrow, target);
    let after = lane_mask(columns.take(k + 1), nrow, target);
    let merged = or_lanes(before, columns[k], 0, nrow as int, target);
    assert forall|row: int| 0 <= row < nrow implies merged[row] == after[row] by {
        lemma_row_included_step(columns, k, row, target);
        lemma_lane_flag_or(
            row_included(columns.take(k), row, target),
            columns[k][row] == target,
        );
    }
    assert(merged =~= after);
}

} // verus!
