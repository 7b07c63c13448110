//! The chunked filter: fixed-width groups of lanes, then a scalar tail.
//!
//! A lane-parallel step is a loop of fixed length over `LANE_WIDTH`
//! neighbouring rows, with no branch on the data and no access outside those
//! rows, so that a compiler is free to turn it into one vector compare and
//! one vector OR. The widths are constants of this module; nothing in the
//! contracts depends on their values beyond `CHUNK_WIDTH` being four times
//! `LANE_WIDTH`.

use crate::frame::DataFrame;
use crate::model::{lane_mask, lemma_or_lanes_extends, normalized, or_lanes, reference_mask};
use crate::theorems::{lemma_normalized_lane_mask, lemma_or_lanes_split};
use vstd::prelude::*;

verus! {

/// The number of rows that one lane-parallel step compares.
pub const LANE_WIDTH: usize = 8;

/// The number of rows that one pass of the chunked loop covers: four
/// lane-parallel steps.
pub const CHUNK_WIDTH: usize = 32;

/// Where the tail of a column of `nrow` rows begins: the number of rows
/// that lie in whole chunks.
pub open spec fn chunk_boundary(nrow: nat) -> nat {
    (nrow - nrow % (CHUNK_WIDTH as nat)) as nat
}

/// One lane-parallel step: compares the `LANE_WIDTH` codes of `col` that
/// start at `row` with `value` and ORs the outcome, in lane encoding, into
/// the same rows of `should_include`. No other row is touched, and no row
/// at or beyond `row + LANE_WIDTH` is read.
pub fn simd_filter_compare_and_store(
    should_include: &mut [i32],
    col: &[i32],
    row: usize,
    value: i32,
)
    requires
        row + LANE_WIDTH <= old(should_include).len(),
        row + LANE_WIDTH <= col.len(),
    ensures
        final(should_include)@ == or_lanes(
            old(should_include)@,
            col@,
            row as int,
            row + LANE_WIDTH,
            value,
        ),
{
    let mut lane: usize = 0;
    while lane < LANE_WIDTH
        invariant
            lane <= LANE_WIDTH,
            row + LANE_WIDTH <= col.len(),
            row + LANE_WIDTH <= should_include.len(),
            should_include@ == or_lanes(
                old(should_include)@,
                col@,
                row as int,
                row + lane,
                value,
            ),
        decreases LANE_WIDTH - lane,
    {
        let hit: i32 = if col[row + lane] == value {
            -1
        } else {
            0
        };
        let merged: i32 = should_include[row + lane] | hit;
        should_include[row + lane] = merged;
        lane += 1;
    }
}

/// The chunked part of one column: ORs the rows of `col` that lie in whole
/// chunks into `should_include`, a chunk at a time, and returns the row at
/// which the tail begins. A chunk is taken only while a whole one remains,
/// so nothing beyond the last row is read or written.
pub fn simd_filter_chunks(should_include: &mut [i32], col: &[i32], value: i32) -> (row: usize)
    requires
        old(should_include).len() == col.len(),
    ensures
        row == chunk_boundary(col@.len()),
        final(should_include)@ == or_lanes(old(should_include)@, col@, 0, row as int, value),
{
    let nrow = col.len();
    let mut row: usize = 0;
    while nrow - row >= CHUNK_WIDTH
        invariant
            row <= nrow,
            row % CHUNK_WIDTH == 0,
            nrow == col.len(),
            nrow == should_include.len(),
            should_include@ == or_lanes(old(should_include)@, col@, 0, row as int, value),
        decreases nrow - row,
    {
        simd_filter_compare_and_store(should_include, col, row, value);
        simd_filter_compare_and_store(should_include, col, row + 8, value);
        simd_filter_compare_and_store(should_include, col, row + 16, value);
        simd_filter_compare_and_store(should_include, col, row + 24, value);
        row += CHUNK_WIDTH;
    }
    row
}

/// The scalar tail of one column: ORs the rows of `col` from `row` to the
/// end into `should_include`, one by one. The rows before `row` are left
/// as they are.
pub fn simd_filter_tail(should_include: &mut [i32], col: &[i32], row: usize, value: i32)
    requires
        old(should_include).len() == col.len(),
        row <= col.len(),
    ensures
        final(should_include)@ == or_lanes(
            old(should_include)@,
            col@,
            row as int,
            col@.len() as int,
            value,
        ),
{
    let nrow = col.len();
    let mut row = row;
    let ghost start = row;
    while row < nrow
        invariant
            start <= row <= nrow,
            nrow == col.len(),
            nrow == should_include.len(),
            should_include@ == or_lanes(
                old(should_include)@,
                col@,
                start as int,
                row as int,
                value,
            ),
        decreases nrow - row,
    {
        let row_value = col[row];
        let hit: i32 = if row_value == value {
            -1
        } else {
            0
        };
        let result: i32 = should_include[row] | hit;
        should_include[row] = result;
        row += 1;
    }
}

/// The chunked filter. Returns the inclusion mask of `df` for `value` in
/// lane encoding: one lane per row, all bits set where some column holds
/// `value` in that row and zero elsewhere.
///
/// The mask starts all zero. Each column is OR-ed into it in whole chunks
/// of `CHUNK_WIDTH` rows, and the rows after the last whole chunk are then
/// handled one by one.
pub fn simd_filter_implementation(df: &DataFrame, value: i32) -> (should_include: Vec<i32>)
    ensures
        should_include@ == lane_mask(df@, df.rows(), value),
        normalized(should_include@) == reference_mask(df@, df.rows(), value),
{
    let nrow = df.nrow();
    let ncol = df.ncol();
    let mut should_include: Vec<i32> = vec![0i32; nrow];
    assert(should_include@ =~= lane_mask(df@.take(0), nrow as nat, value));
    for c in 0..ncol
        invariant
            ncol == df@.len(),
            nrow == df.rows(),
            should_include@ == lane_mask(df@.take(c as int), nrow as nat, value),
    {
        let col = df.column(c);
        let ghost before = should_include@;
        let row = simd_filter_chunks(&mut should_include, col, value);
        simd_filter_tail(&mut should_include, col, row, value);
        proof {
            lemma_or_lanes_split(before, col@, 0, row as int, nrow as int, value);
            lemma_or_lanes_extends(df@, nrow as nat, c as int, value);
        }
    }
    proof {
        assert(df@.take(ncol as int) =~= df@);
        lemma_normalized_lane_mask(df@, nrow as nat, value);
    }
    should_include
}

/// Reads a lane-encoded mask: a row is included exactly when its lane is
/// nonzero.
pub fn normalize_mask(mask: &[i32]) -> (flags: Vec<bool>)
    ensures
        flags@ == normalized(mask@),
{
    let mut flags: Vec<bool> = Vec::with_capacity(mask.len());
    for row in 0..mask.len()
        invariant
            flags@ == normalized(mask@.take(row as int)),
    {
        flags.push(mask[row] != 0);
        assert(flags@ =~= normalized(mask@.take(row + 1)));
    }
    assert(mask@.take(mask.len() as int) =~= mask@);
    flags
}

} // verus!
