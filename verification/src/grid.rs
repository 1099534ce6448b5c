//! Bidirectional mapping between a linear index `0..16` and a
//! `(column, row)` position on the 4x4 button/LED grid.

use vstd::prelude::*;

verus! {

/// A column of the 4x4 grid, left to right.
#[derive(Clone, Copy, PartialEq, Eq, Structural, Debug)]
pub enum Col {
    A,
    B,
    C,
    D,
}

/// A row of the 4x4 grid, top to bottom.
#[derive(Clone, Copy, PartialEq, Eq, Structural, Debug)]
pub enum Row {
    R0,
    R1,
    R2,
    R3,
}

/// The number of the column, 0 through 3.
pub open spec fn spec_col_num(col: Col) -> int {
    match col {
        Col::A => 0,
        Col::B => 1,
        Col::C => 2,
        Col::D => 3,
    }
}

/// The number of the row, 0 through 3.
pub open spec fn spec_row_num(row: Row) -> int {
    match row {
        Row::R0 => 0,
        Row::R1 => 1,
        Row::R2 => 2,
        Row::R3 => 3,
    }
}

/// The linear index of the position `(col, row)`: `row * 4 + col`.
pub open spec fn spec_led_index(col: Col, row: Row) -> int {
    spec_row_num(row) * 4 + spec_col_num(col)
}

/// The column whose number is `n`, for `n` in `0..4`.
pub open spec fn spec_num_col(n: int) -> Col {
    if n == 0 {
        Col::A
    } else if n == 1 {
        Col::B
    } else if n == 2 {
        Col::C
    } else {
        Col::D
    }
}

/// The row whose number is `n`, for `n` in `0..4`.
pub open spec fn spec_num_row(n: int) -> Row {
    if n == 0 {
        Row::R0
    } else if n == 1 {
        Row::R1
    } else if n == 2 {
        Row::R2
    } else {
        Row::R3
    }
}

pub fn col_to_num(col: Col) -> (n: u8)
    ensures
        n == spec_col_num(col),
{
    match col {
        Col::A => 0,
        Col::B => 1,
        Col::C => 2,
        Col::D => 3,
    }
}

pub fn row_to_num(row: Row) -> (n: u8)
    ensures
        n == spec_row_num(row),
{
    match row {
        Row::R0 => 0,
        Row::R1 => 1,
        Row::R2 => 2,
        Row::R3 => 3,
    }
}

pub fn num_to_col(num: usize) -> (col: Col)
    requires
        num < 4,
    ensures
        col == spec_num_col(num as int),
        spec_col_num(col) == num,
{
    match num {
        0 => Col::A,
        1 => Col::B,
        2 => Col::C,
        _ => Col::D,
    }
}

pub fn num_to_row(num: usize) -> (row: Row)
    requires
        num < 4,
    ensures
        row == spec_num_row(num as int),
        spec_row_num(row) == num,
{
    match num {
        0 => Row::R0,
        1 => Row::R1,
        2 => Row::R2,
        _ => Row::R3,
    }
}

/// The column of the position that the linear index `num` maps to.
pub fn col(num: usize) -> (c: Col)
    requires
        num < 16,
    ensures
        c == spec_num_col(num as int % 4),
        spec_col_num(c) == num % 4,
{
    let col_num = num % 4;
    num_to_col(col_num)
}

/// The row of the position that the linear index `num` maps to.
pub fn row(num: usize) -> (r: Row)
    requires
        num < 16,
    ensures
        r == spec_num_row(num as int / 4),
        spec_row_num(r) == num / 4,
{
    let row_num = num / 4;
    num_to_row(row_num)
}

/// The linear index of the position `(col, row)`.
pub fn led_index(col: Col, row: Row) -> (ix: usize)
    ensures
        ix == spec_led_index(col, row),
        ix < 16,
{
    (row_to_num(row) * 4 + col_to_num(col)) as usize
}

/// Index-to-position-to-index round trip: every linear index in `0..16` is
/// recovered from the grid position it maps to.
pub proof fn lemma_index_position_round_trip(i: int)
    requires
        0 <= i < 16,
    ensures
        spec_led_index(spec_num_col(i % 4), spec_num_row(i / 4)) == i,
{
}

/// Position-to-index-to-position round trip: every grid position
/// `(col, row)` is recovered from its linear index.
pub proof fn lemma_position_index_round_trip(col: Col, row: Row)
    ensures
        spec_num_col(spec_led_index(col, row) % 4) == col,
        spec_num_row(spec_led_index(col, row) / 4) == row,
{
}

} // verus!
