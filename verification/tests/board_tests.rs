use sudoku_session::board::Board;
use sudoku_session::engine::generate_unique;
use sudoku_session::grid::{Number, Square};

const SOLUTION: &str =
    "534678912672195348198342567859761423426853791713924856961537284287419635345286179";
const PUZZLE: &str =
    "53..7....6..195....98....6.8...6...34..8.3..17...2...6.6....28....419..5....8..79";

fn board(text: &str) -> Board {
    let mut cells = [0u8; 81];
    for (i, ch) in text.bytes().enumerate() {
        cells[i] = if ch == b'.' { 0 } else { ch - b'0' };
    }
    Board::from_cells(cells).unwrap()
}

fn sq(col: u8, row: u8) -> Square {
    Square::from_col_row(col, row).unwrap()
}

fn num(v: u8) -> Number {
    Number::new(v).unwrap()
}

#[test]
fn empty_board_holds_nothing() {
    let b = Board::empty();
    assert_eq!(b.cells, [0u8; 81]);
    assert_eq!(b.count_content(0), 81);
    assert_eq!(b.get(sq(4, 4)), None);
}

#[test]
fn from_cells_refuses_a_cell_above_nine() {
    let mut cells = [0u8; 81];
    assert!(Board::from_cells(cells).is_some());
    cells[80] = 9;
    assert_eq!(Board::from_cells(cells).unwrap().cells, cells);
    cells[17] = 10;
    assert_eq!(Board::from_cells(cells), None);
}

#[test]
fn get_reads_a_digit_or_nothing() {
    let b = board(PUZZLE);
    assert_eq!(b.get(sq(0, 0)), Some(num(5)));
    assert_eq!(b.get(sq(1, 0)), Some(num(3)));
    assert_eq!(b.get(sq(2, 0)), None);
    assert_eq!(b.get(sq(8, 8)), Some(num(9)));
}

#[test]
fn count_counts_the_cells_that_hold_a_digit() {
    let p = board(PUZZLE);
    assert_eq!(p.count_content(0), 51);
    assert_eq!(p.count(num(5)), 3);
    assert_eq!(p.count(num(8)), 5);
    let s = board(SOLUTION);
    for v in 1..=9u8 {
        assert_eq!(s.count(num(v)), 9);
    }
    assert_eq!(s.count_content(0), 0);
}

#[test]
fn put_accepts_what_the_placement_rule_allows() {
    let mut b = board(PUZZLE);
    assert!(b.put(sq(2, 0), num(4)));
    assert_eq!(b.get(sq(2, 0)), Some(num(4)));
    let mut expected = board(PUZZLE);
    expected.cells[2] = 4;
    assert_eq!(b, expected);
    // the same digit again is accepted and changes nothing
    assert!(b.put(sq(2, 0), num(4)));
    assert_eq!(b, expected);
}

#[test]
fn put_refuses_a_digit_that_a_peer_holds() {
    let before = board(PUZZLE);
    let mut b = before;
    // 5 stands in the same row
    assert!(!b.put(sq(2, 0), num(5)));
    // 8 stands in the same column
    assert!(!b.put(sq(2, 0), num(8)));
    // 9 stands in the same block
    assert!(!b.put(sq(2, 0), num(9)));
    assert_eq!(b, before);
}

#[test]
fn put_refuses_to_overwrite_another_digit() {
    let before = board(PUZZLE);
    let mut b = before;
    assert!(!b.put(sq(0, 0), num(1)));
    assert_eq!(b, before);
    assert!(b.put(sq(0, 0), num(5)));
    assert_eq!(b, before);
}

#[test]
fn fits_into_compares_the_filled_cells() {
    let p = board(PUZZLE);
    let s = board(SOLUTION);
    assert!(p.fits_into(&s));
    assert!(s.fits_into(&s));
    assert!(!s.fits_into(&p));
    assert!(Board::empty().fits_into(&p));
    let mut wrong = p;
    wrong.cells[2] = 1;
    assert!(!wrong.fits_into(&s));
}

#[test]
fn is_solved_tells_a_solved_grid() {
    assert!(board(SOLUTION).is_solved());
    assert!(!board(PUZZLE).is_solved());
    assert!(!Board::empty().is_solved());
    // every cell filled, but two digits of the first row exchanged
    let mut swapped = board(SOLUTION);
    swapped.cells.swap(0, 1);
    assert!(!swapped.is_solved());
    // one cell emptied
    let mut holed = board(SOLUTION);
    holed.cells[40] = 0;
    assert!(!holed.is_solved());
    // a cell above nine
    let mut broken = board(SOLUTION);
    broken.cells[40] = 12;
    assert!(!broken.is_solved());
}

#[test]
fn fill_from_fills_along_the_walk() {
    let s = board(SOLUTION);
    let mut b = board(PUZZLE);
    b.fill_from(&s, 35);
    let mut expected = board(PUZZLE);
    for i in [7usize, 21, 28, 42, 56] {
        assert_eq!(expected.cells[i], 0);
        expected.cells[i] = s.cells[i];
    }
    assert_eq!(expected.cells[7], 1);
    assert_eq!(expected.cells[21], 3);
    assert_eq!(expected.cells[28], 5);
    assert_eq!(expected.cells[42], 7);
    assert_eq!(expected.cells[56], 1);
    assert_eq!(b, expected);
    assert_eq!(81 - b.count_content(0), 35);
}

#[test]
fn fill_from_leaves_a_board_that_has_enough() {
    let s = board(SOLUTION);
    let mut b = board(PUZZLE);
    b.fill_from(&s, 30);
    assert_eq!(b, board(PUZZLE));
    b.fill_from(&s, 0);
    assert_eq!(b, board(PUZZLE));
}

#[test]
fn fill_from_stops_when_the_board_is_full() {
    let s = board(SOLUTION);
    let mut b = board(PUZZLE);
    b.fill_from(&s, 81);
    assert_eq!(b, s);
    let mut c = board(PUZZLE);
    c.fill_from(&s, 1000);
    assert_eq!(c, s);
    let mut e = Board::empty();
    e.fill_from(&s, 1);
    let mut one = Board::empty();
    one.cells[0] = 5;
    assert_eq!(e, one);
}

#[test]
fn generate_unique_gives_a_puzzle_of_its_solution() {
    for _ in 0..3 {
        let (puzzle, solution) = generate_unique(35);
        assert!(solution.is_solved());
        assert!(puzzle.fits_into(&solution));
        assert!(81 - puzzle.count_content(0) >= 35);
        assert!(!puzzle.is_solved());
    }
}

#[test]
fn generate_unique_with_every_cell_asked_for() {
    let (puzzle, solution) = generate_unique(81);
    assert!(solution.is_solved());
    assert_eq!(puzzle, solution);
}

#[test]
fn generate_unique_makes_different_puzzles() {
    let (_, a) = generate_unique(35);
    let (_, b) = generate_unique(35);
    let (_, c) = generate_unique(35);
    assert!(a != b || b != c);
}

#[test]
fn same_as_compares_every_cell() {
    let s = board(SOLUTION);
    assert!(s.same_as(&board(SOLUTION)));
    assert!(!s.same_as(&board(PUZZLE)));
    let mut t = s;
    t.cells[80] = 1;
    assert!(!s.same_as(&t));
}

#[test]
fn board_is_wf_when_no_cell_is_above_nine() {
    assert!(Board::empty().is_wf());
    assert!(board(PUZZLE).is_wf());
    let mut b = board(PUZZLE);
    b.cells[0] = 10;
    assert!(!b.is_wf());
}

fn has_one_solution(cells: [u8; 81]) -> bool {
    sudoku::Sudoku::from_bytes(cells).unwrap().is_uniquely_solvable()
}

fn is_minimal(puzzle: &Board) -> bool {
    (0..81usize).filter(|&i| puzzle.cells[i] != 0).all(|i| {
        let mut cells = puzzle.cells;
        cells[i] = 0;
        !has_one_solution(cells)
    })
}

#[test]
fn generate_unique_meets_its_target() {
    for _ in 0..3 {
        let (puzzle, solution) = generate_unique(35);
        let filled = 81 - puzzle.count_content(0);
        assert!(filled == 35 || (filled > 35 && is_minimal(&puzzle)));
        assert!(filled < 81);
        let found = sudoku::Sudoku::from_bytes(puzzle.cells).unwrap().solution();
        assert_eq!(found.map(|s| s.to_bytes()), Some(solution.cells));
    }
}

#[test]
fn generate_unique_without_a_target_gives_a_minimal_puzzle() {
    let (puzzle, solution) = generate_unique(0);
    let filled = 81 - puzzle.count_content(0);
    assert!(filled >= 17 && filled < 81);
    assert!(solution.is_solved());
    assert!(puzzle.fits_into(&solution));
    assert!(has_one_solution(puzzle.cells));
    assert!(is_minimal(&puzzle));
}

#[test]
fn generate_unique_fills_up_to_a_high_target() {
    let (puzzle, solution) = generate_unique(60);
    assert_eq!(81 - puzzle.count_content(0), 60);
    assert!(puzzle.fits_into(&solution));
    assert!(has_one_solution(puzzle.cells));
    let (full, grid) = generate_unique(500);
    assert_eq!(full, grid);
}
