use instant::{Duration, Instant};
use sudoku_session::board::Board;
use sudoku_session::grid::{Number, Square};
use sudoku_session::session::{Model, Msg, State};
use sudoku_session::view::{
    decimal_string, format_duration, timer_text, view_board_square, view_control_complete,
    view_control_miss_count, view_control_timer, view_number, view_square_borders,
};

const SOLUTION: &str =
    "534678912672195348198342567859761423426853791713924856961537284287419635345286179";
const PUZZLE: &str =
    "53..7....6..195....98....6.8...6...34..8.3..17...2...6.6....28....419..5....8..79";

fn board(text: &str) -> Board {
    let mut cells = [0u8; 81];
    for (i, ch) in text.bytes().enumerate() {
        cells[i] = if ch == b'.' { 0 } else { ch - b'0' };
    }
    Board::from_cells(cells).unwrap()
}

fn sq(col: u8, row: u8) -> Square {
    Square::from_col_row(col, row).unwrap()
}

fn num(v: u8) -> Number {
    Number::new(v).unwrap()
}

fn playing() -> Model {
    Model::start(board(PUZZLE), board(SOLUTION), Instant::now()).unwrap()
}

#[test]
fn decimal_string_writes_numbers() {
    assert_eq!(decimal_string(0), "0");
    assert_eq!(decimal_string(7), "7");
    assert_eq!(decimal_string(10), "10");
    assert_eq!(decimal_string(1234567890), "1234567890");
    assert_eq!(decimal_string(u64::MAX), "18446744073709551615");
}

#[test]
fn format_duration_pads_to_two_digits() {
    assert_eq!(format_duration(0), "00:00");
    assert_eq!(format_duration(5), "00:05");
    assert_eq!(format_duration(59), "00:59");
    assert_eq!(format_duration(60), "01:00");
    assert_eq!(format_duration(65), "01:05");
    assert_eq!(format_duration(600), "10:00");
    assert_eq!(format_duration(754), "12:34");
    assert_eq!(format_duration(5999), "99:59");
}

#[test]
fn format_duration_past_ninety_nine_minutes() {
    assert_eq!(format_duration(6000), "100:00");
    assert_eq!(format_duration(86399), "1439:59");
    assert_eq!(format_duration(u64::MAX), "307445734561825860:15");
}

#[test]
fn timer_text_with_and_without_time() {
    assert_eq!(timer_text(None), "Time: ");
    assert_eq!(timer_text(Some(0)), "Time: 00:00");
    assert_eq!(timer_text(Some(83)), "Time: 01:23");
}

#[test]
fn view_control_timer_by_phase() {
    assert_eq!(view_control_timer(&Model::default()), "Time: ");
    let mut m = playing();
    assert_eq!(view_control_timer(&m), "Time: 00:00");
    m.state = State::Completed { secs: 3725 };
    assert_eq!(view_control_timer(&m), "Time: 62:05");
}

#[test]
fn view_control_miss_count_writes_the_count() {
    let mut m = playing();
    assert_eq!(view_control_miss_count(&m), "Miss: 0");
    m.miss_count = 12;
    assert_eq!(view_control_miss_count(&m), "Miss: 12");
    m.miss_count = u32::MAX;
    assert_eq!(view_control_miss_count(&m), "Miss: 4294967295");
}

#[test]
fn view_control_complete_by_phase() {
    assert_eq!(view_control_complete(&Model::default()), "");
    let mut m = playing();
    assert_eq!(view_control_complete(&m), "");
    m.state = State::Completed { secs: 1 };
    assert_eq!(view_control_complete(&m), "Complete!!");
}

#[test]
fn borders_are_thick_round_the_blocks() {
    assert_eq!(view_square_borders(sq(0, 0)), [8, 2, 2, 8]);
    assert_eq!(view_square_borders(sq(1, 1)), [2, 2, 2, 2]);
    assert_eq!(view_square_borders(sq(2, 2)), [2, 8, 8, 2]);
    assert_eq!(view_square_borders(sq(3, 5)), [2, 2, 8, 8]);
    assert_eq!(view_square_borders(sq(8, 6)), [8, 8, 2, 2]);
}

#[test]
fn square_without_selection_has_no_mark() {
    let m = playing();
    for i in 0..81usize {
        let s = Square::from_index(i).unwrap();
        let v = view_board_square(&m, s.col, s.row);
        assert!(!v.is_selected);
        assert!(!v.is_neighbor);
        assert!(!v.is_selected_number);
        assert!(!v.is_missed);
        assert_eq!(v.borders, view_square_borders(s));
    }
}

#[test]
fn square_texts() {
    let mut m = playing();
    assert_eq!(view_board_square(&m, 0, 0).text, "5");
    assert_eq!(view_board_square(&m, 2, 0).text, "");
    assert_eq!(view_board_square(&m, 8, 8).text, "9");
    m.sq_missed = Some(sq(2, 0));
    assert_eq!(view_board_square(&m, 2, 0).text, "\u{2613}");
    m.sq_missed = Some(sq(0, 0));
    assert_eq!(view_board_square(&m, 0, 0).text, "\u{2613}");
    assert!(view_board_square(&m, 0, 0).is_missed);
    assert!(!view_board_square(&m, 2, 0).is_missed);
    assert_eq!(view_board_square(&m, 2, 0).text, "");
}

#[test]
fn marks_round_a_selected_filled_square() {
    let mut m = playing();
    m.sq_selected = Some(sq(0, 0));
    let own = view_board_square(&m, 0, 0);
    assert!(own.is_selected);
    assert!(!own.is_neighbor);
    assert!(own.is_selected_number);
    // same row
    let v = view_board_square(&m, 8, 0);
    assert!(!v.is_selected && v.is_neighbor && !v.is_selected_number);
    // same column
    let v = view_board_square(&m, 0, 8);
    assert!(!v.is_selected && v.is_neighbor && !v.is_selected_number);
    // same block
    let v = view_board_square(&m, 2, 2);
    assert!(!v.is_selected && v.is_neighbor && !v.is_selected_number);
    // elsewhere
    let v = view_board_square(&m, 4, 4);
    assert!(!v.is_selected && !v.is_neighbor && !v.is_selected_number);
    // another square that holds 5
    let v = view_board_square(&m, 5, 1);
    assert!(!v.is_selected && !v.is_neighbor && v.is_selected_number);
    let v = view_board_square(&m, 8, 7);
    assert!(!v.is_selected && !v.is_neighbor && v.is_selected_number);
}

#[test]
fn an_empty_selected_square_marks_no_number() {
    let mut m = playing();
    m.sq_selected = Some(sq(2, 0));
    for i in 0..81usize {
        let s = Square::from_index(i).unwrap();
        let v = view_board_square(&m, s.col, s.row);
        assert!(!v.is_selected_number);
        assert_eq!(v.is_selected, s == sq(2, 0));
    }
    assert!(view_board_square(&m, 0, 0).is_neighbor);
    assert!(view_board_square(&m, 2, 5).is_neighbor);
    assert!(!view_board_square(&m, 3, 1).is_neighbor);
}

#[test]
fn twenty_neighbors_of_the_selected_square() {
    let mut m = playing();
    m.sq_selected = Some(sq(4, 4));
    let mut n = 0;
    for i in 0..81usize {
        let s = Square::from_index(i).unwrap();
        if view_board_square(&m, s.col, s.row).is_neighbor {
            n += 1;
        }
    }
    assert_eq!(n, 20);
}

#[test]
fn number_is_completed_when_nine_squares_hold_it() {
    let mut m = playing();
    for v in 1..=9u8 {
        let view = view_number(&m, num(v));
        assert!(!view.is_completed);
        assert_eq!(view.text, decimal_string(v as u64));
        assert_eq!(view.click, None);
    }
    m.sudoku = board(SOLUTION);
    for v in 1..=9u8 {
        assert!(view_number(&m, num(v)).is_completed);
    }
    // eight squares hold 5
    m.sudoku.cells[0] = 0;
    assert!(!view_number(&m, num(5)).is_completed);
    assert!(view_number(&m, num(3)).is_completed);
    // ten squares hold 3
    m.sudoku.cells[0] = 3;
    assert!(!view_number(&m, num(3)).is_completed);
}

#[test]
fn click_on_a_number_puts_it_at_the_selected_square() {
    let mut m = playing();
    m.sq_selected = Some(sq(2, 0));
    assert_eq!(
        view_number(&m, num(4)).click,
        Some(Msg::PutNumber { sq: sq(2, 0), num: num(4) })
    );
    m.sudoku = board(SOLUTION);
    assert_eq!(view_number(&m, num(4)).click, None);
    assert!(view_number(&m, num(4)).is_completed);
}

#[test]
fn timer_of_a_session_begun_ahead_of_the_clock() {
    let ahead = Instant::now() + Duration::from_secs(3600);
    let m = Model::start(board(PUZZLE), board(SOLUTION), ahead).unwrap();
    assert_eq!(view_control_timer(&m), "Time: 00:00");
}

#[test]
fn timer_of_a_session_begun_a_while_ago() {
    let before = Instant::now() - Duration::from_secs(125);
    let m = Model::start(board(PUZZLE), board(SOLUTION), before).unwrap();
    assert_eq!(view_control_timer(&m), "Time: 02:05");
}

#[test]
fn number_is_completed_when_its_squares_of_the_solution_are_filled() {
    let mut m = playing();
    let fives: Vec<usize> = (0..81usize).filter(|&i| m.solution.cells[i] == 5).collect();
    assert_eq!(fives.len(), 9);
    for &i in &fives {
        assert!(!view_number(&m, num(5)).is_completed);
        let at = Square::from_index(i).unwrap();
        m.put_number_at(at, num(5), 0);
        assert_eq!(m.sudoku.cells[i], 5);
    }
    assert!(view_number(&m, num(5)).is_completed);
    // it stays completed whatever is tried afterwards
    m.put_number_at(sq(2, 0), num(5), 0);
    m.put_number_at(sq(2, 0), num(4), 0);
    m.select_square(sq(7, 7));
    assert!(view_number(&m, num(5)).is_completed);
    assert!(!view_number(&m, num(4)).is_completed);
}
