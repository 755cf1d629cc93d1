//! Grid geometry: the cells of the 9x9 grid, the digits that occupy them,
//! and the row / column / block relations between cells.

use vstd::prelude::*;

verus! {

/// Number of rows, of columns, of blocks, and of distinct digits.
pub const SIDE: u8 = 9;

/// Number of cells of the grid.
pub const CELLS: usize = 81;

/// A cell of the grid, identified by its column and row.
///
/// A square is well formed when both coordinates are below nine.
#[derive(Clone, Copy, Debug, PartialEq, Eq, Hash, Structural)]
pub struct Square {
    pub col: u8,
    pub row: u8,
}

/// A digit from one to nine.
#[derive(Clone, Copy, Debug, PartialEq, Eq, Hash, Structural)]
pub struct Number {
    pub value: u8,
}

impl Square {
    /// Both coordinates lie on the grid.
    pub open spec fn wf(self) -> bool {
        self.col < 9 && self.row < 9
    }

    /// Position of the square when the grid is read row by row.
    pub open spec fn spec_index(self) -> int {
        self.row as int * 9 + self.col as int
    }

    /// Index of the 3x3 block that holds the square, blocks read row by row.
    pub open spec fn spec_block(self) -> int {
        (self.row as int / 3) * 3 + self.col as int / 3
    }

    /// Whether both coordinates lie on the grid.
    pub fn is_wf(self) -> (r: bool)
        ensures
            r == self.wf(),
    {
        self.col < SIDE && self.row < SIDE
    }

    /// The square at the given column and row, if both lie on the grid.
    pub fn from_col_row(col: u8, row: u8) -> (r: Option<Square>)
        ensures
            r == (if col < 9 && row < 9 {
                Some(Square { col, row })
            } else {
                None
            }),
    {
        if col < SIDE && row < SIDE {
            Some(Square { col, row })
        } else {
            None
        }
    }

    /// The square at the given row-by-row position, if it lies on the grid.
    pub fn from_index(index: usize) -> (r: Option<Square>)
        ensures
            index < 81 ==> r == Some(Square { col: (index % 9) as u8, row: (index / 9) as u8 }),
            index >= 81 ==> r is None,
            r matches Some(sq) ==> sq.wf() && sq.spec_index() == index,
    {
        if index < CELLS {
            Some(Square { col: (index % 9) as u8, row: (index / 9) as u8 })
        } else {
            None
        }
    }

    /// Position of the square when the grid is read row by row.
    pub fn index(self) -> (i: usize)
        requires
            self.wf(),
        ensures
            i == self.spec_index(),
            i < 81,
    {
        self.row as usize * 9 + self.col as usize
    }

    /// Index of the block that holds the square.
    pub fn block(self) -> (b: u8)
        requires
            self.wf(),
        ensures
            b == self.spec_block(),
            b < 9,
    {
        (self.row / 3) * 3 + self.col / 3
    }
}

impl Number {
    /// The digit lies between one and nine.
    pub open spec fn wf(self) -> bool {
        1 <= self.value <= 9
    }

    /// Whether the digit lies between one and nine.
    pub fn is_wf(self) -> (r: bool)
        ensures
            r == self.wf(),
    {
        1 <= self.value && self.value <= SIDE
    }

    /// The digit with the given value, if the value lies between one and nine.
    pub fn new(value: u8) -> (r: Option<Number>)
        ensures
            r == (if 1 <= value <= 9 {
                Some(Number { value })
            } else {
                None
            }),
    {
        if 1 <= value && value <= SIDE {
            Some(Number { value })
        } else {
            None
        }
    }

    /// The value of the digit.
    pub fn get(self) -> (v: u8)
        ensures
            v == self.value,
    {
        self.value
    }
}

/// Both squares lie in one row.
pub open spec fn spec_same_row(a: Square, b: Square) -> bool {
    a.row == b.row
}

/// Both squares lie in one column.
pub open spec fn spec_same_col(a: Square, b: Square) -> bool {
    a.col == b.col
}

/// Both squares lie in one block.
pub open spec fn spec_same_block(a: Square, b: Square) -> bool {
    a.spec_block() == b.spec_block()
}

/// Two squares are peers when they differ and share a row, a column or a block.
pub open spec fn peers(a: Square, b: Square) -> bool {
    a != b && (spec_same_row(a, b) || spec_same_col(a, b) || spec_same_block(a, b))
}

/// Whether both squares lie in one row.
#[verifier::when_used_as_spec(spec_same_row)]
pub fn same_row(a: Square, b: Square) -> (r: bool)
    ensures
        r == spec_same_row(a, b),
{
    a.row == b.row
}

/// Whether both squares lie in one column.
#[verifier::when_used_as_spec(spec_same_col)]
pub fn same_col(a: Square, b: Square) -> (r: bool)
    ensures
        r == spec_same_col(a, b),
{
    a.col == b.col
}

/// Whether both squares lie in one block.
#[verifier::when_used_as_spec(spec_same_block)]
pub fn same_block(a: Square, b: Square) -> (r: bool)
    requires
        a.wf(),
        b.wf(),
    ensures
        r == spec_same_block(a, b),
{
    a.block() == b.block()
}

/// Whether two squares are peers.
#[verifier::when_used_as_spec(peers)]
pub fn is_peer(a: Square, b: Square) -> (r: bool)
    requires
        a.wf(),
        b.wf(),
    ensures
        r == peers(a, b),
{
    a != b && (same_row(a, b) || same_col(a, b) || same_block(a, b))
}

} // verus!
