//! What a session shows: the marks of each square, the state of each digit
//! of the palette, and the texts of the timer, the miss count and the end of
//! the game. All of it is computed from the session each time it is asked
//! for; nothing is kept.

use crate::clock::secs_since;
use crate::grid::{is_peer, peers, Number, Square};
use crate::session::{Model, Msg, State};
use vstd::prelude::*;

verus! {

/// Width of a border that closes a block.
pub const THICK: u32 = 8;

/// Width of a border inside a block.
pub const THIN: u32 = 2;

/// What one square of the board shows.
#[derive(Debug, PartialEq, Eq)]
pub struct ShownSquare {
    pub is_selected: bool,
    pub is_neighbor: bool,
    pub is_selected_number: bool,
    pub is_missed: bool,
    pub text: String,
    /// Widths of the top, right, bottom and left border.
    pub borders: [u32; 4],
}

/// What one digit of the palette shows, and the event that a click on it
/// gives.
#[derive(Debug, PartialEq, Eq)]
pub struct ShownNumber {
    pub is_completed: bool,
    pub text: String,
    pub click: Option<Msg>,
}

/// The character of a decimal digit.
pub open spec fn digit_char(d: int) -> char {
    if d == 0 {
        '0'
    } else if d == 1 {
        '1'
    } else if d == 2 {
        '2'
    } else if d == 3 {
        '3'
    } else if d == 4 {
        '4'
    } else if d == 5 {
        '5'
    } else if d == 6 {
        '6'
    } else if d == 7 {
        '7'
    } else if d == 8 {
        '8'
    } else {
        '9'
    }
}

/// A number written in decimal, without leading zeros.
pub open spec fn decimal(n: nat) -> Seq<char>
    decreases n,
{
    if n < 10 {
        seq![digit_char(n as int)]
    } else {
        decimal(n / 10).push(digit_char((n % 10) as int))
    }
}

/// A number written in decimal with at least two digits.
pub open spec fn two_digits(n: nat) -> Seq<char> {
    if n < 10 {
        seq!['0'] + decimal(n)
    } else {
        decimal(n)
    }
}

/// A number of seconds written as minutes and seconds, each with two digits;
/// a hundred minutes or more are written with all their digits.
pub open spec fn minutes_seconds(secs: nat) -> Seq<char> {
    two_digits(secs / 60) + seq![':'] + two_digits(secs % 60)
}

/// The text of the timer: empty before the first puzzle.
pub open spec fn timer_line(elapsed: Option<u64>) -> Seq<char> {
    seq!['T', 'i', 'm', 'e', ':', ' '] + (match elapsed {
        None => Seq::empty(),
        Some(secs) => minutes_seconds(secs as nat),
    })
}

/// The text of the miss count.
pub open spec fn miss_line(misses: nat) -> Seq<char> {
    seq!['M', 'i', 's', 's', ':', ' '] + decimal(misses)
}

/// The text that tells the end of the game.
pub open spec fn complete_line(state: State) -> Seq<char> {
    if state is Completed {
        seq!['C', 'o', 'm', 'p', 'l', 'e', 't', 'e', '!', '!']
    } else {
        Seq::empty()
    }
}

/// The sign shown on the square of the last miss.
pub open spec fn miss_sign() -> Seq<char> {
    seq!['\u{2613}']
}

/// What a square with the given content shows when it is not the missed one.
pub open spec fn content_text(v: u8) -> Seq<char> {
    if v == 0 {
        Seq::empty()
    } else {
        seq![digit_char(v as int)]
    }
}

/// The widths of the top, right, bottom and left border of a square: thick
/// where the border closes a block.
pub open spec fn border_widths(sq: Square) -> Seq<u32> {
    seq![
        if sq.row % 3 == 0 { THICK } else { THIN },
        if sq.col % 3 == 2 { THICK } else { THIN },
        if sq.row % 3 == 2 { THICK } else { THIN },
        if sq.col % 3 == 0 { THICK } else { THIN },
    ]
}

/// The selected square.
pub open spec fn shows_selected(model: Model, sq: Square) -> bool {
    model.sq_selected == Some(sq)
}

/// A square that shares a row, a column or a block with the selected one.
pub open spec fn shows_neighbor(model: Model, sq: Square) -> bool {
    model.sq_selected matches Some(sel) && peers(sq, sel)
}

/// A filled square that holds the digit of the selected square.
pub open spec fn shows_selected_number(model: Model, sq: Square) -> bool {
    model.sq_selected matches Some(sel) && model.sudoku@[sq.spec_index()] != 0
        && model.sudoku@[sq.spec_index()] == model.sudoku@[sel.spec_index()]
}

/// The square of the last miss.
pub open spec fn shows_missed(model: Model, sq: Square) -> bool {
    model.sq_missed == Some(sq)
}

/// The text of a decimal digit.
fn digit_str(d: u8) -> (s: &'static str)
    requires
        d <= 9,
    ensures
        s@ == seq![digit_char(d as int)],
{
    proof {
        reveal_strlit("0");
        reveal_strlit("1");
        reveal_strlit("2");
        reveal_strlit("3");
        reveal_strlit("4");
        reveal_strlit("5");
        reveal_strlit("6");
        reveal_strlit("7");
        reveal_strlit("8");
        reveal_strlit("9");
    }
    let s = if d == 0 {
        "0"
    } else if d == 1 {
        "1"
    } else if d == 2 {
        "2"
    } else if d == 3 {
        "3"
    } else if d == 4 {
        "4"
    } else if d == 5 {
        "5"
    } else if d == 6 {
        "6"
    } else if d == 7 {
        "7"
    } else if d == 8 {
        "8"
    } else {
        "9"
    };
    assert(s@ =~= seq![digit_char(d as int)]);
    s
}

/// A number written in decimal, without leading zeros.
pub fn decimal_string(n: u64) -> (s: String)
    ensures
        s@ == decimal(n as nat),
    decreases n,
{
    if n < 10 {
        String::from_str(digit_str(n as u8))
    } else {
        let mut s = decimal_string(n / 10);
        s.append(digit_str((n % 10) as u8));
        assert(s@ =~= decimal(n as nat));
        s
    }
}

/// A number written in decimal with at least two digits.
fn two_digit_string(n: u64) -> (s: String)
    ensures
        s@ == two_digits(n as nat),
{
    let digits = decimal_string(n);
    if n < 10 {
        proof {
            reveal_strlit("0");
        }
        let s = String::from_str("0").concat(digits.as_str());
        assert(s@ =~= two_digits(n as nat));
        s
    } else {
        digits
    }
}

/// Writes a number of seconds as minutes and seconds, each with two digits.
/// From a hundred minutes on the minutes take as many digits as they need.
pub fn format_duration(secs: u64) -> (s: String)
    ensures
        s@ == minutes_seconds(secs as nat),
{
    proof {
        reveal_strlit(":");
    }
    let mut s = two_digit_string(secs / 60);
    s.append(":");
    let tail = two_digit_string(secs % 60);
    s.append(tail.as_str());
    assert(s@ =~= minutes_seconds(secs as nat));
    s
}

/// The text of the timer for the seconds played so far, if a puzzle was
/// begun.
pub fn timer_text(elapsed: Option<u64>) -> (s: String)
    ensures
        s@ == timer_line(elapsed),
{
    proof {
        reveal_strlit("Time: ");
    }
    let mut s = String::from_str("Time: ");
    match elapsed {
        None => {},
        Some(secs) => {
            let text = format_duration(secs);
            s.append(text.as_str());
        },
    }
    assert(s@ =~= timer_line(elapsed));
    s
}

/// The text of the timer: nothing before the first puzzle, the time played
/// so far while a puzzle is played, and the time it took once it is solved.
pub fn view_control_timer(model: &Model) -> (s: String)
    ensures
        model.state is Startup ==> s@ == timer_line(None),
        model.state matches State::Completed { secs } ==> s@ == timer_line(Some(secs)),
        model.state is Playing ==> exists|secs: u64| s@ == timer_line(Some(secs)),
{
    match model.state {
        State::Startup => timer_text(None),
        State::Playing { now } => {
            let secs = secs_since(&now);
            timer_text(Some(secs))
        },
        State::Completed { secs } => timer_text(Some(secs)),
    }
}

/// The text of the miss count.
pub fn view_control_miss_count(model: &Model) -> (s: String)
    ensures
        s@ == miss_line(model.miss_count as nat),
{
    proof {
        reveal_strlit("Miss: ");
    }
    let mut s = String::from_str("Miss: ");
    let count = decimal_string(model.miss_count as u64);
    s.append(count.as_str());
    assert(s@ =~= miss_line(model.miss_count as nat));
    s
}

/// The text that tells the end of the game: empty until the puzzle is
/// solved.
pub fn view_control_complete(model: &Model) -> (s: &'static str)
    ensures
        s@ == complete_line(model.state),
{
    proof {
        reveal_strlit("Complete!!");
        reveal_strlit("");
    }
    let s = match model.state {
        State::Completed { .. } => "Complete!!",
        _ => "",
    };
    assert(s@ =~= complete_line(model.state));
    s
}

/// The widths of the top, right, bottom and left border of a square.
pub fn view_square_borders(sq: Square) -> (borders: [u32; 4])
    ensures
        borders@ == border_widths(sq),
{
    let top: u32 = if sq.row % 3 == 0 {
        THICK
    } else {
        THIN
    };
    let right: u32 = if sq.col % 3 == 2 {
        THICK
    } else {
        THIN
    };
    let bottom: u32 = if sq.row % 3 == 2 {
        THICK
    } else {
        THIN
    };
    let left: u32 = if sq.col % 3 == 0 {
        THICK
    } else {
        THIN
    };
    let borders = [top, right, bottom, left];
    assert(borders@ =~= border_widths(sq));
    borders
}

/// What the square at a column and row shows.
pub fn view_board_square(model: &Model, col: u8, row: u8) -> (v: ShownSquare)
    requires
        model.wf(),
        col < 9,
        row < 9,
    ensures
        v.is_selected == shows_selected(*model, Square { col, row }),
        v.is_neighbor == shows_neighbor(*model, Square { col, row }),
        v.is_selected_number == shows_selected_number(*model, Square { col, row }),
        v.is_missed == shows_missed(*model, Square { col, row }),
        v.text@ == (if shows_missed(*model, Square { col, row }) {
            miss_sign()
        } else {
            content_text(model.sudoku@[Square { col, row }.spec_index()])
        }),
        v.borders@ == border_widths(Square { col, row }),
{
    let sq = Square { col, row };
    let held: u8 = model.sudoku.cells[sq.index()];
    let (is_selected, is_neighbor, is_selected_number) = match model.sq_selected {
        None => (false, false, false),
        Some(sel) => (
            sel == sq,
            is_peer(sq, sel),
            held != 0 && held == model.sudoku.cells[sel.index()],
        ),
    };
    let is_missed = match model.sq_missed {
        None => false,
        Some(missed) => missed == sq,
    };
    proof {
        reveal_strlit("\u{2613}");
        reveal_strlit("");
    }
    let text = if is_missed {
        let s = String::from_str("\u{2613}");
        assert(s@ =~= miss_sign());
        s
    } else if held == 0 {
        let s = String::from_str("");
        assert(s@ =~= content_text(held));
        s
    } else {
        String::from_str(digit_str(held))
    };
    ShownSquare {
        is_selected,
        is_neighbor,
        is_selected_number,
        is_missed,
        text,
        borders: view_square_borders(sq),
    }
}

/// What a digit of the palette shows. The digit is completed when nine
/// squares hold it; a click on it then gives no event, and otherwise asks to
/// put the digit at the selected square, if there is one.
pub fn view_number(model: &Model, num: Number) -> (v: ShownNumber)
    requires
        num.wf(),
    ensures
        v.is_completed == (model.sudoku.count_of(num) == 9),
        v.text@ == seq![digit_char(num.value as int)],
        v.click == (if model.sudoku.count_of(num) == 9 {
            None
        } else {
            match model.sq_selected {
                None => None,
                Some(sq) => Some(Msg::PutNumber { sq, num }),
            }
        }),
{
    let is_completed = model.sudoku.count(num) == 9;
    let click = if is_completed {
        None
    } else {
        match model.sq_selected {
            None => None,
            Some(sq) => Some(Msg::PutNumber { sq, num }),
        }
    };
    ShownNumber { is_completed, text: String::from_str(digit_str(num.value)), click }
}

} // verus!
