//! The puzzle engine: the `sudoku` crate generates grids and judges whether a
//! grid is solved. Its calls stand behind the three unproved functions of
//! this module; what they claim is said above each.

use crate::board::{
    cell_index, fits, lemma_solved_peers_differ, row_holds, solved_grid, Board,
};
use crate::grid::Square;
use vstd::prelude::*;

verus! {

/// The only solved grid that `cells` fits is `grid`.
pub open spec fn only_solution(cells: Seq<u8>, grid: Seq<u8>) -> bool {
    &&& solved_grid(grid)
    &&& fits(cells, grid)
    &&& forall|other: Seq<u8>| solved_grid(other) && #[trigger] fits(cells, other) ==> other == grid
}

/// No filled cell of `cells` can be emptied without `grid` ceasing to be the
/// only solved grid that the cells fit.
pub open spec fn minimal(cells: Seq<u8>, grid: Seq<u8>) -> bool {
    forall|i: int|
        0 <= i < 81 && cells[i] != 0 ==> !only_solution(#[trigger] cells.update(i, 0), grid)
}

/// What is asked of a puzzle with a target of `givens` filled cells: it has
/// that many, or it has more and is minimal, so that none could be taken
/// away; a target above the number of cells gives the full grid.
pub open spec fn meets_target(cells: Seq<u8>, grid: Seq<u8>, filled: int, givens: int) -> bool {
    ||| filled == givens
    ||| filled > givens && minimal(cells, grid)
    ||| givens > 81 && filled == 81
}

/// Calls `sudoku::Sudoku::generate_solved` and hands out the cells of the
/// grid it made, read row by row.
///
/// Unproved: that the grid is solved, as the crate documents ("a random,
/// solved sudoku").
#[verifier::external_body]
fn random_solved_cells() -> (cells: [u8; 81])
    ensures
        solved_grid(cells@),
{
    sudoku::Sudoku::generate_solved().to_bytes()
}

/// Calls `sudoku::Sudoku::generate_from` on a solved grid and hands out the
/// cells of the puzzle it made.
///
/// Unproved: that the puzzle comes from the grid by emptying cells, that the
/// grid is its only solution, and that the puzzle is minimal, as the crate
/// documents ("uniquely solvable sudoku that has the same solution as the
/// given sudoku by removing the contents of some of its cells"; "minimal in
/// that no cell can be removed without losing uniqueness of solution"). The
/// crate tries each cell once, in random order, and empties it exactly when
/// the puzzle keeps a single solution.
#[verifier::external_body]
fn random_puzzle_cells(solved: &[u8; 81]) -> (cells: [u8; 81])
    requires
        solved_grid(solved@),
    ensures
        only_solution(cells@, solved@),
        minimal(cells@, solved@),
{
    match sudoku::Sudoku::from_bytes(*solved) {
        Ok(grid) => sudoku::Sudoku::generate_from(grid).to_bytes(),
        Err(_) => *solved,
    }
}

/// Calls `sudoku::Sudoku::is_solved` on the grid with the given cells.
///
/// Unproved: that the answer is `true` exactly for a solved grid. The crate
/// collects, for each row, column and block, the digits of its cells, fails
/// on a cell that holds no digit from one to nine, and accepts when each of
/// the 27 collections holds all nine digits.
#[verifier::external_body]
fn cells_are_solved(cells: &[u8; 81]) -> (solved: bool)
    ensures
        solved == solved_grid(cells@),
{
    match sudoku::Sudoku::from_bytes(*cells) {
        Ok(grid) => grid.is_solved(),
        Err(_) => false,
    }
}

impl Board {
    /// Whether every cell is filled and every row, column and block holds
    /// each digit once.
    pub fn is_solved(&self) -> (solved: bool)
        ensures
            solved == solved_grid(self@),
    {
        cells_are_solved(&self.cells)
    }
}

/// Every solved grid that fits a board on which some cells were filled from
/// a solved grid fits the board as it was before.
proof fn lemma_filling_keeps_only_solution(puzzle: Board, solution: Board, budget: int)
    requires
        only_solution(puzzle@, solution@),
    ensures
        only_solution(puzzle.filled_from(solution, budget), solution@),
{
    let filled = puzzle.filled_from(solution, budget);
    assert forall|other: Seq<u8>| solved_grid(other) && #[trigger] fits(filled, other) implies other
        == solution@ by {
        assert forall|i: int| 0 <= i < 81 implies #[trigger] puzzle@[i] == 0 || puzzle@[i]
            == other[i] by {
            assert(filled[i] == 0 || filled[i] == other[i]);
        }
        assert(fits(puzzle@, other));
    }
}

/// A solved grid is the only solved grid that fits it with one cell emptied:
/// the row of the cell lacks one digit only.
pub proof fn lemma_one_hole_has_one_solution(grid: Seq<u8>, i: int)
    requires
        solved_grid(grid),
        0 <= i < 81,
    ensures
        only_solution(grid.update(i, 0), grid),
{
    let holed = grid.update(i, 0);
    assert(fits(holed, grid));
    assert forall|other: Seq<u8>| solved_grid(other) && #[trigger] fits(holed, other) implies other
        == grid by {
        assert forall|j: int| 0 <= j < 81 && j != i implies other[j] == grid[j] by {
            assert(holed[j] == 0 || holed[j] == other[j]);
            assert(1 <= grid[j]);
        }
        let row = i / 9;
        let d = grid[i] as int;
        assert(row_holds(other, row, d));
        let col = choose|col: int| 0 <= col < 9 && other[#[trigger] cell_index(col, row)] == d;
        if cell_index(col, row) != i {
            let here = Square { col: (i % 9) as u8, row: row as u8 };
            let there = Square { col: col as u8, row: row as u8 };
            lemma_solved_peers_differ(grid, here, there);
        }
        assert(other[i] == grid[i]);
        assert(other =~= grid);
    }
}

/// A minimal puzzle has an empty cell: from a full grid any one cell can be
/// taken away.
pub proof fn lemma_minimal_has_empty_cell(cells: Seq<u8>, grid: Seq<u8>)
    requires
        cells.len() == 81,
        only_solution(cells, grid),
        minimal(cells, grid),
    ensures
        exists|i: int| 0 <= i < 81 && cells[i] == 0,
{
    if forall|i: int| 0 <= i < 81 ==> cells[i] != 0 {
        assert forall|i: int| 0 <= i < 81 implies cells[i] == grid[i] by {
            assert(cells[i] == 0 || cells[i] == grid[i]);
        }
        assert(cells =~= grid);
        lemma_one_hole_has_one_solution(grid, 0);
        assert(!only_solution(cells.update(0, 0), grid));
    }
}

/// A fresh random puzzle together with its solution.
///
/// The solution is the only solved grid that the puzzle fits. The puzzle has
/// `givens` filled cells: the generator's puzzle is minimal, and cells are
/// filled from the solution until the target is met. Where the generator's
/// puzzle has more than `givens` filled cells already, it is handed out as it
/// is, and is then minimal. Where `givens` asks for more than there are
/// cells, the puzzle is the full grid.
pub fn generate_unique(givens: usize) -> (made: (Board, Board))
    ensures
        made.0.wf(),
        made.1.wf(),
        only_solution(made.0@, made.1@),
        meets_target(made.0@, made.1@, made.0.filled(), givens as int),
        givens < 81 ==> made.0.filled() < 81,
{
    let solution = Board { cells: random_solved_cells() };
    let mut puzzle = Board { cells: random_puzzle_cells(&solution.cells) };
    let ghost raw = puzzle;
    proof {
        lemma_filling_keeps_only_solution(puzzle, solution, givens - puzzle.filled());
    }
    puzzle.fill_from(&solution, givens);
    proof {
        if givens <= raw.filled() {
            assert(puzzle@ =~= raw@);
            lemma_minimal_has_empty_cell(puzzle@, solution@);
            vstd::seq_lib::to_multiset_contains(puzzle@, 0u8);
        }
    }
    (puzzle, solution)
}

} // verus!
