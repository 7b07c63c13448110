//! What holds of the inclusion mask whatever the table.

use crate::model::{lane_flag, lane_mask, normalized, or_lanes, reference_mask, row_included};
use vstd::prelude::*;

verus! {

/// The two encodings agree: reading the lane-encoded mask of a table gives,
/// row for row, its inclusion mask.
pub proof fn lemma_normalized_lane_mask(columns: Seq<Seq<i32>>, nrow: nat, target: i32)
    ensures
        normalized(lane_mask(columns, nrow, target)) == reference_mask(columns, nrow, target),
{
    assert(normalized(lane_mask(columns, nrow, target)) =~= reference_mask(
        columns,
        nrow,
        target,
    ));
}

/// For a table of one column the mask is the elementwise comparison of that
/// column with the target.
pub proof fn lemma_single_column(column: Seq<i32>, nrow: nat, target: i32)
    ensures
        reference_mask(seq![column], nrow, target) == Seq::new(
            nrow,
            |row: int| column[row] == target,
        ),
        lane_mask(seq![column], nrow, target) == Seq::new(
            nrow,
            |row: int| lane_flag(column[row] == target),
        ),
{
    let table = seq![column];
    assert forall|row: int| 0 <= row < nrow implies row_included(table, row, target) == (column[row]
        == target) by {
        if column[row] == target {
            assert(table[0][row] == target);
        }
    }
    assert(reference_mask(table, nrow, target) =~= Seq::new(
        nrow,
        |row: int| column[row] == target,
    ));
    assert(lane_mask(table, nrow, target) =~= Seq::new(
        nrow,
        |row: int| lane_flag(column[row] == target),
    ));
}

/// Two tables in which the same columns occur, however often and in
/// whatever order, have the same mask.
pub proof fn lemma_same_columns_same_mask(
    a: Seq<Seq<i32>>,
    b: Seq<Seq<i32>>,
    nrow: nat,
    target: i32,
)
    requires
        forall|column: Seq<i32>| a.contains(column) <==> b.contains(column),
    ensures
        reference_mask(a, nrow, target) == reference_mask(b, nrow, target),
        lane_mask(a, nrow, target) == lane_mask(b, nrow, target),
{
    assert forall|row: int| row_included(a, row, target) == row_included(b, row, target) by {
        lemma_included_in_superset(a, b, row, target);
        lemma_included_in_superset(b, a, row, target);
    }
    assert(reference_mask(a, nrow, target) =~= reference_mask(b, nrow, target));
    assert(lane_mask(a, nrow, target) =~= lane_mask(b, nrow, target));
}

/// A row that one table includes is included by every table that holds all
/// of its columns.
proof fn lemma_included_in_superset(a: Seq<Seq<i32>>, b: Seq<Seq<i32>>, row: int, target: i32)
    requires
        forall|column: Seq<i32>| a.contains(column) ==> b.contains(column),
    ensures
        row_included(a, row, target) ==> row_included(b, row, target),
{
    if row_included(a, row, target) {
        let c = choose|c: int| 0 <= c < a.len() && (#[trigger] a[c])[row] == target;
        assert(a.contains(a[c]));
        assert(b.contains(a[c]));
        let d = choose|d: int| 0 <= d < b.len() && b[d] == a[c];
        assert(b[d][row] == target);
    }
}

/// The order of the columns does not matter: a table whose columns are a
/// permutation of another's has the same mask.
pub proof fn lemma_column_order_independent(
    a: Seq<Seq<i32>>,
    b: Seq<Seq<i32>>,
    nrow: nat,
    target: i32,
)
    requires
        a.to_multiset() == b.to_multiset(),
    ensures
        reference_mask(a, nrow, target) == reference_mask(b, nrow, target),
        lane_mask(a, nrow, target) == lane_mask(b, nrow, target),
{
    a.to_multiset_ensures();
    b.to_multiset_ensures();
    assert forall|column: Seq<i32>| a.contains(column) <==> b.contains(column) by {
        assert(a.contains(column) <==> a.to_multiset().count(column) > 0);
        assert(b.contains(column) <==> b.to_multiset().count(column) > 0);
    }
    lemma_same_columns_same_mask(a, b, nrow, target);
}

/// Where no cell equals the target, no row is included.
pub proof fn lemma_no_match(columns: Seq<Seq<i32>>, nrow: nat, target: i32)
    requires
        forall|c: int, row: int|
            0 <= c < columns.len() && 0 <= row < nrow ==> #[trigger] columns[c][row] != target,
    ensures
        reference_mask(columns, nrow, target) == Seq::new(nrow, |row: int| false),
        lane_mask(columns, nrow, target) == Seq::new(nrow, |row: int| 0i32),
{
    assert(reference_mask(columns, nrow, target) =~= Seq::new(nrow, |row: int| false));
    assert(lane_mask(columns, nrow, target) =~= Seq::new(nrow, |row: int| 0i32));
}

/// Where the table has a column, or no row, and every cell equals the
/// target, every row is included.
pub proof fn lemma_all_match(columns: Seq<Seq<i32>>, nrow: nat, target: i32)
    requires
        columns.len() > 0 || nrow == 0,
        forall|c: int, row: int|
            0 <= c < columns.len() && 0 <= row < nrow ==> #[trigger] columns[c][row] == target,
    ensures
        reference_mask(columns, nrow, target) == Seq::new(nrow, |row: int| true),
        lane_mask(columns, nrow, target) == Seq::new(nrow, |row: int| -1i32),
{
    assert forall|row: int| 0 <= row < nrow implies row_included(columns, row, target) by {
        assert(columns[0][row] == target);
    }
    assert(reference_mask(columns, nrow, target) =~= Seq::new(nrow, |row: int| true));
    assert(lane_mask(columns, nrow, target) =~= Seq::new(nrow, |row: int| -1i32));
}

/// Covering the rows `start..mid` of a column and then the rows `mid..end`
/// is covering the rows `start..end`: wherever the chunks stop, the tail
/// that begins there neither skips a row nor changes what a row became.
pub proof fn lemma_or_lanes_split(
    mask: Seq<i32>,
    column: Seq<i32>,
    start: int,
    mid: int,
    end: int,
    target: i32,
)
    requires
        start <= mid <= end,
    ensures
        or_lanes(or_lanes(mask, column, start, mid, target), column, mid, end, target) == or_lanes(
            mask,
            column,
            start,
            end,
            target,
        ),
{
    assert(or_lanes(or_lanes(mask, column, start, mid, target), column, mid, end, target)
        =~= or_lanes(mask, column, start, end, target));
}

/// A table without columns includes no row.
pub proof fn lemma_no_columns(nrow: nat, target: i32)
    ensures
        reference_mask(Seq::<Seq<i32>>::empty(), nrow, target) == Seq::new(nrow, |row: int| false),
        lane_mask(Seq::<Seq<i32>>::empty(), nrow, target) == Seq::new(nrow, |row: int| 0i32),
{
    lemma_no_match(Seq::<Seq<i32>>::empty(), nrow, target);
}

} // verus!
