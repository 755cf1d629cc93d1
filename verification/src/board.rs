//! Boards: the 81 cells of a grid, each empty or holding a digit.

use crate::grid::{is_peer, peers, Number, Square, CELLS};
use vstd::prelude::*;

verus! {

/// A grid of 81 cells read row by row. A cell holds `0` when it is empty and
/// the digit itself otherwise.
///
/// A board is well formed when no cell holds more than nine.
#[derive(Clone, Copy, Debug, PartialEq, Eq)]
pub struct Board {
    pub cells: [u8; 81],
}

impl View for Board {
    type V = Seq<u8>;

    open spec fn view(&self) -> Seq<u8> {
        self.cells@
    }
}

/// The square at a row-by-row position.
pub open spec fn square_at(i: int) -> Square {
    Square { col: (i % 9) as u8, row: (i / 9) as u8 }
}

/// What a cell's content stands for: nothing for `0`, the digit otherwise.
pub open spec fn digit_of(v: u8) -> Option<Number> {
    if v == 0 {
        None
    } else {
        Some(Number { value: v })
    }
}

/// Row-by-row position of the cell at a column and row.
pub open spec fn cell_index(col: int, row: int) -> int {
    row * 9 + col
}

/// Row-by-row position of the `k`-th cell of a block, the block's cells read
/// row by row.
pub open spec fn block_cell(block: int, k: int) -> int {
    ((block / 3) * 3 + k / 3) * 9 + (block % 3) * 3 + k % 3
}

/// Some cell of the row holds the digit.
pub open spec fn row_holds(cells: Seq<u8>, row: int, d: int) -> bool {
    exists|col: int| 0 <= col < 9 && cells[#[trigger] cell_index(col, row)] == d
}

/// Some cell of the column holds the digit.
pub open spec fn col_holds(cells: Seq<u8>, col: int, d: int) -> bool {
    exists|row: int| 0 <= row < 9 && cells[#[trigger] cell_index(col, row)] == d
}

/// Some cell of the block holds the digit.
pub open spec fn block_holds(cells: Seq<u8>, block: int, d: int) -> bool {
    exists|k: int| 0 <= k < 9 && cells[#[trigger] block_cell(block, k)] == d
}

/// Every filled cell of `cells` holds what `grid` holds there.
pub open spec fn fits(cells: Seq<u8>, grid: Seq<u8>) -> bool {
    forall|i: int| 0 <= i < 81 ==> #[trigger] cells[i] == 0 || cells[i] == grid[i]
}

/// A solved grid: every cell holds a digit from one to nine, and every row,
/// every column and every block holds each of the nine digits.
pub open spec fn solved_grid(cells: Seq<u8>) -> bool {
    &&& cells.len() == 81
    &&& forall|i: int| 0 <= i < 81 ==> 1 <= #[trigger] cells[i] <= 9
    &&& forall|row: int, d: int| 0 <= row < 9 && 1 <= d <= 9 ==> #[trigger] row_holds(cells, row, d)
    &&& forall|col: int, d: int| 0 <= col < 9 && 1 <= d <= 9 ==> #[trigger] col_holds(cells, col, d)
    &&& forall|block: int, d: int|
        0 <= block < 9 && 1 <= d <= 9 ==> #[trigger] block_holds(cells, block, d)
}

/// The reveal walk crosses the grid in steps of seven cells, wrapping round at
/// the end, so that what it reveals is spread over the rows. This is the
/// cell at which its `k`-th step stands.
pub open spec fn walk_cell(k: int) -> int {
    (k * 7) % 81
}

/// The step at which the reveal walk stands on a cell.
pub open spec fn walk_step(i: int) -> int {
    (i * 58) % 81
}

/// The cells in the order in which the reveal walk meets them.
pub open spec fn walked(cells: Seq<u8>) -> Seq<u8> {
    Seq::new(81, |k: int| cells[walk_cell(k)])
}

/// Number of empty cells that the reveal walk meets before its `k`-th step.
pub open spec fn empties_before(cells: Seq<u8>, k: int) -> nat {
    walked(cells).take(k).to_multiset().count(0)
}

impl Board {
    /// Every cell is empty or holds a digit from one to nine.
    pub open spec fn wf(self) -> bool {
        forall|i: int| 0 <= i < 81 ==> #[trigger] self@[i] <= 9
    }

    /// The digit at a square, if the square is filled.
    pub open spec fn at(self, sq: Square) -> Option<Number> {
        digit_of(self@[sq.spec_index()])
    }

    /// The board with the digit written at the square and every other cell kept.
    pub open spec fn with(self, sq: Square, num: Number) -> Seq<u8> {
        self@.update(sq.spec_index(), num.value)
    }

    /// Number of cells that hold the given content.
    pub open spec fn occurrences(self, v: u8) -> nat {
        self@.to_multiset().count(v)
    }

    /// Number of cells that hold the digit.
    pub open spec fn count_of(self, num: Number) -> nat {
        self.occurrences(num.value)
    }

    /// Number of filled cells.
    pub open spec fn filled(self) -> int {
        81 - self.occurrences(0)
    }

    /// Every filled cell holds what the other board holds there.
    pub open spec fn agrees_with(self, other: Board) -> bool {
        fits(self@, other@)
    }

    /// The cells after filling with the given budget: the first `budget`
    /// empty cells that the reveal walk meets hold what `solution` holds
    /// there, and every other cell is kept.
    pub open spec fn filled_from(self, solution: Board, budget: int) -> Seq<u8> {
        Seq::new(
            81,
            |i: int|
                if self@[i] == 0 && empties_before(self@, walk_step(i)) < budget {
                    solution@[i]
                } else {
                    self@[i]
                },
        )
    }

    /// The placement rule: the square is empty or holds the digit already,
    /// and no peer of the square holds the digit.
    pub open spec fn allows(self, sq: Square, num: Number) -> bool {
        &&& self@[sq.spec_index()] == 0 || self@[sq.spec_index()] == num.value
        &&& forall|i: int|
            0 <= i < 81 && peers(sq, square_at(i)) ==> #[trigger] self@[i] != num.value
    }

    /// The board on which every cell is empty.
    pub fn empty() -> (b: Board)
        ensures
            b.wf(),
            forall|i: int| 0 <= i < 81 ==> #[trigger] b@[i] == 0,
    {
        Board { cells: [0u8; 81] }
    }

    /// The board with the given cells, if none of them holds more than nine.
    pub fn from_cells(cells: [u8; 81]) -> (r: Option<Board>)
        ensures
            r is Some <==> (forall|i: int| 0 <= i < 81 ==> #[trigger] cells@[i] <= 9),
            r matches Some(b) ==> b.cells == cells && b.wf(),
    {
        let mut i: usize = 0;
        while i < CELLS
            invariant
                i <= 81,
                forall|j: int| 0 <= j < i ==> #[trigger] cells@[j] <= 9,
            decreases 81 - i,
        {
            if cells[i] > 9 {
                return None;
            }
            i += 1;
        }
        Some(Board { cells })
    }

    /// The digit at a square, if the square is filled.
    pub fn get(&self, sq: Square) -> (r: Option<Number>)
        requires
            sq.wf(),
        ensures
            r == self.at(sq),
    {
        let v: u8 = self.cells[sq.index()];
        if v == 0 {
            None
        } else {
            Some(Number { value: v })
        }
    }

    /// Whether every filled cell holds what the other board holds there.
    pub fn fits_into(&self, other: &Board) -> (r: bool)
        ensures
            r == self.agrees_with(*other),
    {
        let mut i: usize = 0;
        while i < CELLS
            invariant
                i <= 81,
                forall|j: int| 0 <= j < i ==> #[trigger] self@[j] == 0 || self@[j] == other@[j],
            decreases 81 - i,
        {
            if self.cells[i] != 0 && self.cells[i] != other.cells[i] {
                return false;
            }
            i += 1;
        }
        true
    }

    /// Whether both boards hold the same in every cell.
    pub fn same_as(&self, other: &Board) -> (r: bool)
        ensures
            r == (self@ == other@),
    {
        let mut i: usize = 0;
        while i < CELLS
            invariant
                i <= 81,
                forall|j: int| 0 <= j < i ==> self@[j] == other@[j],
            decreases 81 - i,
        {
            if self.cells[i] != other.cells[i] {
                return false;
            }
            i += 1;
        }
        assert(self@ =~= other@);
        true
    }

    /// Whether every cell is empty or holds a digit from one to nine.
    pub fn is_wf(&self) -> (r: bool)
        ensures
            r == self.wf(),
    {
        let r = Board::from_cells(self.cells).is_some();
        proof {
            if r {
                assert forall|i: int| 0 <= i < 81 implies #[trigger] self@[i] <= 9 by {
                    assert(self.cells@[i] <= 9);
                }
            }
            if self.wf() {
                assert forall|i: int| 0 <= i < 81 implies #[trigger] self.cells@[i] <= 9 by {
                    assert(self@[i] <= 9);
                }
            }
        }
        r
    }

    /// Number of cells that hold the given content.
    pub fn count_content(&self, v: u8) -> (n: usize)
        ensures
            n == self.occurrences(v),
            n <= 81,
    {
        let mut n: usize = 0;
        let mut i: usize = 0;
        proof {
            vstd::seq_lib::to_multiset_contains(self@.take(0), v);
        }
        while i < CELLS
            invariant
                i <= 81,
                n <= i,
                n == self@.take(i as int).to_multiset().count(v),
            decreases 81 - i,
        {
            proof {
                let prefix = self@.take(i as int);
                assert(self@.take(i + 1) =~= prefix.push(self@[i as int]));
                vstd::seq_lib::to_multiset_build(prefix, self@[i as int]);
            }
            if self.cells[i] == v {
                n += 1;
            }
            i += 1;
        }
        assert(self@.take(81) =~= self@);
        n
    }

    /// Number of cells that hold the digit.
    pub fn count(&self, num: Number) -> (n: usize)
        ensures
            n == self.count_of(num),
            n <= 81,
    {
        self.count_content(num.value)
    }

    /// Fills empty cells from `solution` until `target` cells are filled, or
    /// none is empty. The cells are taken in the order of the reveal walk. A
    /// board that has `target` filled cells already is left as it is.
    pub fn fill_from(&mut self, solution: &Board, target: usize)
        requires
            old(self).wf(),
            solution.wf(),
        ensures
            final(self).wf(),
            final(self)@ == old(self).filled_from(*solution, target - old(self).filled()),
            (forall|i: int| 0 <= i < 81 ==> #[trigger] solution@[i] != 0) ==> final(self).filled()
                == (if target <= old(self).filled() {
                old(self).filled()
            } else if target <= 81 {
                target as int
            } else {
                81
            }),
    {
        let zeros: usize = self.count_content(0);
        let budget: usize = if target > CELLS - zeros {
            target - (CELLS - zeros)
        } else {
            0
        };
        let ghost start = *self;
        let ghost full = forall|i: int| 0 <= i < 81 ==> #[trigger] solution@[i] != 0;
        let mut met: usize = 0;
        let mut k: usize = 0;
        proof {
            lemma_walk_is_permutation();
            vstd::seq_lib::to_multiset_contains(walked(start@).take(0), 0u8);
        }
        while k < CELLS
            invariant
                k <= 81,
                met <= k,
                met == empties_before(start@, k as int),
                self.wf(),
                solution.wf(),
                start.wf(),
                zeros == start.occurrences(0),
                budget == (if target > 81 - zeros {
                    target - (81 - zeros)
                } else {
                    0
                }),
                full == (forall|i: int| 0 <= i < 81 ==> #[trigger] solution@[i] != 0),
                forall|j: int|
                    0 <= j < k ==> self@[#[trigger] walk_cell(j)] == start.filled_from(
                        *solution,
                        budget as int,
                    )[walk_cell(j)],
                forall|j: int| k <= j < 81 ==> self@[#[trigger] walk_cell(j)] == start@[walk_cell(j)],
                full ==> self.occurrences(0) == zeros - (if met < budget {
                    met
                } else {
                    budget
                }),
                full && met <= budget ==> forall|j: int|
                    0 <= j < k ==> self@[#[trigger] walk_cell(j)] != 0,
            decreases 81 - k,
        {
            let i: usize = (k * 7) % CELLS;
            proof {
                lemma_walk_is_permutation();
                let prefix = walked(start@).take(k as int);
                assert(walked(start@).take(k + 1) =~= prefix.push(start@[i as int]));
                vstd::seq_lib::to_multiset_build(prefix, start@[i as int]);
                assert(i == walk_cell(k as int));
            }
            if self.cells[i] == 0 {
                if met < budget {
                    let ghost before = self@;
                    self.cells[i] = solution.cells[i];
                    proof {
                        broadcast use vstd::multiset::group_multiset_axioms;

                        assert(self@ =~= before.update(i as int, solution@[i as int]));
                        vstd::seq_lib::to_multiset_update(before, i as int, solution@[i as int]);
                        vstd::seq_lib::to_multiset_contains(before, 0u8);
                    }
                }
                met += 1;
            }
            k += 1;
        }
        proof {
            lemma_walk_is_permutation();
            let goal = start.filled_from(*solution, target - start.filled());
            assert forall|i: int| 0 <= i < 81 implies self@[i] == goal[i] by {
                assert(walk_cell(walk_step(i)) == i);
            }
            assert(self@ =~= goal);
            if full && met <= budget {
                assert forall|i: int| 0 <= i < 81 implies self@[i] != 0 by {
                    assert(walk_cell(walk_step(i)) == i);
                }
                vstd::seq_lib::to_multiset_contains(self@, 0u8);
            }
        }
    }

    /// Writes the digit at the square if the placement rule allows it, and
    /// says whether it did. A refused placement leaves the board as it was.
    pub fn put(&mut self, sq: Square, num: Number) -> (accepted: bool)
        requires
            sq.wf(),
            num.wf(),
            old(self).wf(),
        ensures
            accepted == old(self).allows(sq, num),
            accepted ==> final(self)@ == old(self).with(sq, num),
            !accepted ==> final(self)@ == old(self)@,
            final(self).wf(),
    {
        let at: usize = sq.index();
        let held: u8 = self.cells[at];
        if held != 0 && held != num.value {
            return false;
        }
        let mut i: usize = 0;
        while i < CELLS
            invariant
                i <= 81,
                sq.wf(),
                self.wf(),
                self@ == old(self)@,
                forall|j: int|
                    0 <= j < i && peers(sq, square_at(j)) ==> #[trigger] self@[j] != num.value,
            decreases 81 - i,
        {
            let other = Square { col: (i % 9) as u8, row: (i / 9) as u8 };
            if is_peer(sq, other) && self.cells[i] == num.value {
                return false;
            }
            i += 1;
        }
        self.cells[at] = num.value;
        true
    }
}

/// Where `a * b` leaves one when divided by 81, multiplying a cell's position
/// by `a` and then by `b`, each time keeping what is left over 81, gives the
/// position back.
proof fn lemma_times_and_back(x: int, a: int, b: int, w: int)
    requires
        0 <= x < 81,
        a * b == 81 * w + 1,
    ensures
        0 <= (x * a) % 81 < 81,
        (((x * a) % 81) * b) % 81 == x,
{
    let c = (x * a) % 81;
    let q = (x * a) / 81;
    vstd::arithmetic::div_mod::lemma_fundamental_div_mod(x * a, 81);
    assert(c * b == 81 * (x * w - q * b) + x) by (nonlinear_arith)
        requires
            x * a == 81 * q + c,
            a * b == 81 * w + 1,
    ;
    vstd::arithmetic::div_mod::lemma_mod_multiples_vanish(x * w - q * b, x, 81);
    vstd::arithmetic::div_mod::lemma_small_mod(x as nat, 81);
}

/// The reveal walk stands on every cell exactly once.
pub proof fn lemma_walk_is_permutation()
    ensures
        forall|k: int|
            0 <= k < 81 ==> 0 <= #[trigger] walk_cell(k) < 81 && walk_step(walk_cell(k)) == k,
        forall|i: int|
            0 <= i < 81 ==> 0 <= #[trigger] walk_step(i) < 81 && walk_cell(walk_step(i)) == i,
{
    assert forall|k: int| 0 <= k < 81 implies 0 <= #[trigger] walk_cell(k) < 81 && walk_step(
        walk_cell(k),
    ) == k by {
        lemma_times_and_back(k, 7, 58, 5);
    }
    assert forall|i: int| 0 <= i < 81 implies 0 <= #[trigger] walk_step(i) < 81 && walk_cell(
        walk_step(i),
    ) == i by {
        lemma_times_and_back(i, 58, 7, 5);
    }
}

/// Nine values among which each digit from one to nine occurs are pairwise
/// distinct.
pub proof fn lemma_nine_digits_distinct(vals: Seq<int>)
    requires
        vals.len() == 9,
        forall|d: int| 1 <= d <= 9 ==> vals.contains(d),
    ensures
        vals.no_duplicates(),
{
    let digits = vstd::set_lib::set_int_range(1, 10);
    vstd::set_lib::lemma_int_range(1, 10);
    vstd::seq_lib::seq_to_set_is_finite(vals);
    assert(digits.subset_of(vals.to_set()));
    vstd::set_lib::lemma_len_subset(digits, vals.to_set());
    vals.lemma_cardinality_of_set();
    vals.lemma_no_dup_set_cardinality();
}

/// Place of a square among the cells of its block, the block's cells read
/// row by row.
pub open spec fn place_in_block(sq: Square) -> int {
    (sq.row as int % 3) * 3 + sq.col as int % 3
}

/// A square is the cell of its block at its place in that block.
pub proof fn lemma_block_cell(sq: Square)
    requires
        sq.wf(),
    ensures
        0 <= sq.spec_block() < 9,
        0 <= place_in_block(sq) < 9,
        block_cell(sq.spec_block(), place_in_block(sq)) == sq.spec_index(),
{
    let row = sq.row as int;
    let col = sq.col as int;
    let block = sq.spec_block();
    assert(block / 3 == row / 3 && block % 3 == col / 3);
    let k = place_in_block(sq);
    assert(k / 3 == row % 3 && k % 3 == col % 3);
}

proof fn lemma_row_distinct(cells: Seq<u8>, row: int, c1: int, c2: int)
    requires
        solved_grid(cells),
        0 <= row < 9,
        0 <= c1 < 9,
        0 <= c2 < 9,
        c1 != c2,
    ensures
        cells[cell_index(c1, row)] != cells[cell_index(c2, row)],
{
    let vals = Seq::new(9, |k: int| cells[cell_index(k, row)] as int);
    assert forall|d: int| 1 <= d <= 9 implies vals.contains(d) by {
        assert(row_holds(cells, row, d));
        let col = choose|col: int| 0 <= col < 9 && cells[#[trigger] cell_index(col, row)] == d;
        assert(vals[col] == d);
    }
    lemma_nine_digits_distinct(vals);
    assert(vals[c1] != vals[c2]);
}

proof fn lemma_col_distinct(cells: Seq<u8>, col: int, r1: int, r2: int)
    requires
        solved_grid(cells),
        0 <= col < 9,
        0 <= r1 < 9,
        0 <= r2 < 9,
        r1 != r2,
    ensures
        cells[cell_index(col, r1)] != cells[cell_index(col, r2)],
{
    let vals = Seq::new(9, |k: int| cells[cell_index(col, k)] as int);
    assert forall|d: int| 1 <= d <= 9 implies vals.contains(d) by {
        assert(col_holds(cells, col, d));
        let row = choose|row: int| 0 <= row < 9 && cells[#[trigger] cell_index(col, row)] == d;
        assert(vals[row] == d);
    }
    lemma_nine_digits_distinct(vals);
    assert(vals[r1] != vals[r2]);
}

proof fn lemma_block_distinct(cells: Seq<u8>, block: int, k1: int, k2: int)
    requires
        solved_grid(cells),
        0 <= block < 9,
        0 <= k1 < 9,
        0 <= k2 < 9,
        k1 != k2,
    ensures
        cells[block_cell(block, k1)] != cells[block_cell(block, k2)],
{
    let vals = Seq::new(9, |k: int| cells[block_cell(block, k)] as int);
    assert forall|d: int| 1 <= d <= 9 implies vals.contains(d) by {
        assert(block_holds(cells, block, d));
        let k = choose|k: int| 0 <= k < 9 && cells[#[trigger] block_cell(block, k)] == d;
        assert(vals[k] == d);
    }
    lemma_nine_digits_distinct(vals);
    assert(vals[k1] != vals[k2]);
}

/// On a solved grid two peers never hold the same digit.
pub proof fn lemma_solved_peers_differ(cells: Seq<u8>, a: Square, b: Square)
    requires
        solved_grid(cells),
        a.wf(),
        b.wf(),
        peers(a, b),
    ensures
        cells[a.spec_index()] != cells[b.spec_index()],
{
    if a.row == b.row {
        lemma_row_distinct(cells, a.row as int, a.col as int, b.col as int);
    } else if a.col == b.col {
        lemma_col_distinct(cells, a.col as int, a.row as int, b.row as int);
    } else {
        lemma_block_cell(a);
        lemma_block_cell(b);
        lemma_block_distinct(cells, a.spec_block(), place_in_block(a), place_in_block(b));
    }
}

/// A board that agrees with a solved grid accepts, at every square, the digit
/// that the solved grid holds there.
pub proof fn lemma_solution_digit_allowed(board: Board, solution: Board, sq: Square)
    requires
        sq.wf(),
        solved_grid(solution@),
        board.agrees_with(solution),
    ensures
        board.allows(sq, Number { value: solution@[sq.spec_index()] }),
{
    let d = solution@[sq.spec_index()];
    assert(board@[sq.spec_index()] == 0 || board@[sq.spec_index()] == d);
    assert forall|i: int| 0 <= i < 81 && peers(sq, square_at(i)) implies #[trigger] board@[i]
        != d by {
        lemma_solved_peers_differ(solution@, sq, square_at(i));
        assert(square_at(i).spec_index() == i);
        assert(solution@[i] != d);
        assert(board@[i] == 0 || board@[i] == solution@[i]);
        assert(1 <= d);
    }
}

/// The positions at which `cells` holds `v`.
pub open spec fn places_of(cells: Seq<u8>, v: u8) -> Set<int> {
    Set::new(|i: int| 0 <= i < cells.len() && cells[i] == v)
}

/// The number of cells that hold a content is the number of its places.
pub proof fn lemma_count_is_places(cells: Seq<u8>, v: u8)
    ensures
        places_of(cells, v).finite(),
        cells.to_multiset().count(v) == places_of(cells, v).len(),
    decreases cells.len(),
{
    broadcast use {vstd::set::group_set_axioms, vstd::multiset::group_multiset_axioms};

    if cells.len() == 0 {
        assert(places_of(cells, v) =~= Set::empty());
        vstd::seq_lib::to_multiset_contains(cells, v);
    } else {
        let init = cells.drop_last();
        let x = cells.last();
        lemma_count_is_places(init, v);
        assert(cells =~= init.push(x));
        vstd::seq_lib::to_multiset_build(init, x);
        if x == v {
            assert(places_of(cells, v) =~= places_of(init, v).insert(cells.len() - 1));
        } else {
            assert(places_of(cells, v) =~= places_of(init, v));
        }
    }
}

/// The place of a digit in a row of a solved grid.
pub open spec fn place_in_row(cells: Seq<u8>, row: int, d: u8) -> int {
    cell_index(choose|col: int| 0 <= col < 9 && cells[#[trigger] cell_index(col, row)] == d, row)
}

/// On a solved grid each digit has nine places, one in each row.
pub proof fn lemma_solved_digit_has_nine_places(cells: Seq<u8>, d: u8)
    requires
        solved_grid(cells),
        1 <= d <= 9,
    ensures
        places_of(cells, d).finite(),
        places_of(cells, d).len() == 9,
{
    broadcast use vstd::set::group_set_axioms;

    assert forall|row: int| 0 <= row < 9 implies {
        let p = #[trigger] place_in_row(cells, row, d);
        row * 9 <= p < row * 9 + 9 && cells[p] == d
    } by {
        assert(row_holds(cells, row, d as int));
    }
    let nine = Set::<int>::empty().insert(place_in_row(cells, 0, d)).insert(
        place_in_row(cells, 1, d),
    ).insert(place_in_row(cells, 2, d)).insert(place_in_row(cells, 3, d)).insert(
        place_in_row(cells, 4, d),
    ).insert(place_in_row(cells, 5, d)).insert(place_in_row(cells, 6, d)).insert(
        place_in_row(cells, 7, d),
    ).insert(place_in_row(cells, 8, d));
    assert forall|i: int| places_of(cells, d).contains(i) implies nine.contains(i) by {
        let row = i / 9;
        let p = place_in_row(cells, row, d);
        if p != i {
            let here = Square { col: (i % 9) as u8, row: row as u8 };
            let there = Square { col: (p % 9) as u8, row: row as u8 };
            lemma_solved_peers_differ(cells, here, there);
        }
    }
    assert(places_of(cells, d) =~= nine);
}

} // verus!
