//! Cells of the water grid: where a random raindrop falls, and the cell
//! under the duck, which stays inside the grid.

use vstd::prelude::*;

verus! {

/// The last column and row of the grid that the duck can stand over.
pub const LAST_CELL: u32 = 255;

/// A random `u32`, uniform over all its values, from the thread-local
/// generator.
///
/// Calls `rand::random::<u32>()`. Nothing is stated of the value: it rests
/// on chance.
#[verifier::external_body]
fn random_u32() -> u32 {
    rand::random::<u32>()
}

/// The cell that two samples pick in a grid of `size` columns and rows:
/// each sample taken modulo `size`.
pub fn cell_from_samples(col_sample: u32, row_sample: u32, size: u32) -> (cell: (u32, u32))
    requires
        size > 0,
    ensures
        cell == (col_sample % size, row_sample % size),
{
    (col_sample % size, row_sample % size)
}

/// A random cell of a grid of `size` columns and rows, where a raindrop
/// falls: the column is sampled first, then the row.
pub fn random_drop_cell(size: u32) -> (cell: (u32, u32))
    requires
        size > 0,
    ensures
        cell.0 < size,
        cell.1 < size,
{
    let col_sample = random_u32();
    let row_sample = random_u32();
    cell_from_samples(col_sample, row_sample, size)
}

/// The cell under the duck: its column and row, each held to at most
/// [`LAST_CELL`].
pub fn clamp_grid_position(col: u32, row: u32) -> (cell: (u32, u32))
    ensures
        cell.0 == if col <= LAST_CELL {
            col
        } else {
            LAST_CELL
        },
        cell.1 == if row <= LAST_CELL {
            row
        } else {
            LAST_CELL
        },
{
    let c = if col <= LAST_CELL {
        col
    } else {
        LAST_CELL
    };
    let r = if row <= LAST_CELL {
        row
    } else {
        LAST_CELL
    };
    (c, r)
}

} // verus!
