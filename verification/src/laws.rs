//! What holds of every session, whatever the events it has seen.

use crate::board::{lemma_count_is_places, lemma_solved_digit_has_nine_places, places_of};
use crate::grid::{Number, Square};
use crate::session::{Session, State};
use vstd::prelude::*;

verus! {

/// Selecting a square keeps a session well formed, and changes nothing but
/// the selection.
pub proof fn law_select_changes_selection_only(s: Session, sq: Square)
    requires
        s.wf(),
        sq.wf(),
    ensures
        s.select(sq).wf(),
        s.select(sq).selected == Some(sq),
        s.select(sq).board == s.board,
        s.select(sq).solution == s.solution,
        s.select(sq).missed == s.missed,
        s.select(sq).misses == s.misses,
        s.select(sq).state == s.state,
{
}

/// Selecting the same square twice in a row gives the session that selecting
/// it once gives.
pub proof fn law_select_idempotent(s: Session, sq: Square)
    ensures
        s.select(sq).select(sq) == s.select(sq),
{
}

/// Trying a digit keeps a session well formed.
pub proof fn law_put_keeps_wf(s: Session, sq: Square, num: Number, secs: u64)
    requires
        s.wf(),
        !(s.state is Startup),
        sq.wf(),
        num.wf(),
    ensures
        s.put(sq, num, secs).wf(),
{
    let after = s.put(sq, num, secs);
    if num.value == s.solution[sq.spec_index()] {
        assert forall|i: int| 0 <= i < 81 implies #[trigger] after.board[i] == 0 || after.board[i]
            == s.solution[i] by {
            assert(s.board[i] == 0 || s.board[i] == s.solution[i]);
        }
        if s.state is Completed {
            assert(after.board =~= s.solution);
        }
    }
}

/// While a puzzle is played, the solution's digit put at a square stands on
/// the working board afterwards, and the square is not marked as missed.
pub proof fn law_right_digit_is_placed(s: Session, sq: Square, num: Number, secs: u64)
    requires
        s.wf(),
        s.state is Playing,
        sq.wf(),
        num.value == s.solution[sq.spec_index()],
    ensures
        s.put(sq, num, secs).board[sq.spec_index()] == num.value,
        s.put(sq, num, secs).missed != Some(sq),
        s.put(sq, num, secs).missed is None,
        s.put(sq, num, secs).misses == s.misses,
        forall|i: int|
            0 <= i < 81 && i != sq.spec_index() ==> s.put(sq, num, secs).board[i] == s.board[i],
{
}

/// A digit that differs from the solution's leaves the working board and the
/// phase as they are, marks the square as missed and counts one miss more,
/// as long as the counter can hold one more.
pub proof fn law_wrong_digit_is_a_miss(s: Session, sq: Square, num: Number, secs: u64)
    requires
        s.wf(),
        sq.wf(),
        num.value != s.solution[sq.spec_index()],
        s.misses < u32::MAX,
    ensures
        s.put(sq, num, secs).board == s.board,
        s.put(sq, num, secs).missed == Some(sq),
        s.put(sq, num, secs).misses == s.misses + 1,
        s.put(sq, num, secs).state == s.state,
{
}

/// Trying a digit never changes the selection or the solution, and never
/// lowers the count of misses.
pub proof fn law_put_keeps_selection(s: Session, sq: Square, num: Number, secs: u64)
    ensures
        s.put(sq, num, secs).selected == s.selected,
        s.put(sq, num, secs).solution == s.solution,
        s.put(sq, num, secs).misses >= s.misses,
{
}

/// Trying a digit completes a session that is being played exactly when the
/// digit is the solution's and the working board then holds the solution in
/// every square. The session is then completed with the seconds given.
pub proof fn law_completion(s: Session, sq: Square, num: Number, secs: u64)
    requires
        s.wf(),
        s.state is Playing,
        sq.wf(),
        num.wf(),
    ensures
        s.put(sq, num, secs).state is Completed <==> num.value == s.solution[sq.spec_index()]
            && (forall|i: int|
            0 <= i < 81 ==> s.board.update(sq.spec_index(), num.value)[i] == s.solution[i]),
        s.put(sq, num, secs).state is Completed ==> s.put(sq, num, secs).state
            == (State::Completed { secs }),
        !(s.put(sq, num, secs).state is Completed) ==> s.put(sq, num, secs).state == s.state,
{
    let board = s.board.update(sq.spec_index(), num.value);
    if forall|i: int| 0 <= i < 81 ==> board[i] == s.solution[i] {
        assert(board =~= s.solution);
    }
}

/// A completed session stays completed, with the same seconds, whatever
/// square is selected and whatever digit is tried: only a reset leaves the
/// phase.
pub proof fn law_completed_stays(s: Session, sq: Square, num: Number, secs: u64)
    requires
        s.state is Completed,
    ensures
        s.select(sq).state == s.state,
        s.put(sq, num, secs).state == s.state,
{
}

/// The session that begins with a puzzle is being played, with nothing
/// selected, nothing missed and no miss counted.
pub proof fn law_fresh_session(puzzle: Seq<u8>, solution: Seq<u8>, now: instant::Instant)
    ensures
        Session::fresh(puzzle, solution, now).state == (State::Playing { now }),
        Session::fresh(puzzle, solution, now).selected is None,
        Session::fresh(puzzle, solution, now).missed is None,
        Session::fresh(puzzle, solution, now).misses == 0,
        Session::fresh(puzzle, solution, now).board == puzzle,
        Session::fresh(puzzle, solution, now).solution == solution,
{
}

/// Once a puzzle is there, nine squares hold a digit exactly when every
/// square at which the solution holds the digit is filled.
pub proof fn law_digit_is_completed(s: Session, num: Number)
    requires
        s.wf(),
        !(s.state is Startup),
        num.wf(),
    ensures
        s.board.to_multiset().count(num.value) == 9 <==> (forall|i: int|
            0 <= i < 81 && s.solution[i] == num.value ==> s.board[i] == num.value),
{
    let d = num.value;
    let held = places_of(s.board, d);
    let due = places_of(s.solution, d);
    lemma_count_is_places(s.board, d);
    lemma_count_is_places(s.solution, d);
    lemma_solved_digit_has_nine_places(s.solution, d);
    assert forall|i: int| held.contains(i) implies due.contains(i) by {
        assert(s.board[i] == 0 || s.board[i] == s.solution[i]);
    }
    if held.len() == 9 {
        vstd::set_lib::lemma_subset_equality(held, due);
        assert forall|i: int| 0 <= i < 81 && s.solution[i] == d implies s.board[i] == d by {
            assert(due.contains(i));
        }
    }
    if forall|i: int| 0 <= i < 81 && s.solution[i] == d ==> s.board[i] == d {
        assert(held =~= due);
    }
}

/// A completed digit stays completed whatever square is selected and
/// whatever digit is tried: only a reset takes digits off the board.
pub proof fn law_completed_digit_stays(s: Session, num: Number, sq: Square, tried: Number, secs: u64)
    requires
        s.wf(),
        !(s.state is Startup),
        num.wf(),
        sq.wf(),
        tried.wf(),
        s.board.to_multiset().count(num.value) == 9,
    ensures
        s.select(sq).board.to_multiset().count(num.value) == 9,
        s.put(sq, tried, secs).board.to_multiset().count(num.value) == 9,
{
    let after = s.put(sq, tried, secs);
    law_put_keeps_wf(s, sq, tried, secs);
    law_digit_is_completed(s, num);
    law_digit_is_completed(after, num);
    assert forall|i: int| 0 <= i < 81 && after.solution[i] == num.value implies after.board[i]
        == num.value by {
        assert(s.board[i] == num.value);
    }
}

} // verus!
