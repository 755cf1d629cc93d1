//! The session: the state of one game and the events that change it.

use crate::board::{fits, lemma_solution_digit_allowed, solved_grid, Board};
use crate::clock::{now, secs_since};
use crate::engine::{generate_unique, meets_target, only_solution};
use crate::grid::{Number, Square};
use instant::Instant;
use vstd::prelude::*;

verus! {

/// Number of filled cells that a new puzzle is asked to have.
pub const GIVENS: usize = 35;

/// The phase of a session.
#[derive(Clone, Copy, Debug, PartialEq, Eq)]
pub enum State {
    /// No puzzle yet: the phase before the first reset.
    Startup,
    /// A puzzle is being played since the instant `now`.
    Playing { now: Instant },
    /// The puzzle was solved after `secs` whole seconds of play.
    Completed { secs: u64 },
}

/// An event that a session reacts to.
#[derive(Clone, Copy, Debug, PartialEq, Eq)]
pub enum Msg {
    TimerTick,
    Reset,
    SelectSquare(Square),
    PutNumber { sq: Square, num: Number },
}

/// Why a puzzle and a solution make no session.
#[derive(Clone, Copy, Debug, PartialEq, Eq)]
pub enum StartError {
    /// A cell of the puzzle holds more than nine.
    MalformedPuzzle,
    /// The solution is no solved grid.
    UnsolvedSolution,
    /// A filled cell of the puzzle differs from the solution.
    Mismatch,
}

/// The state of one game.
#[derive(Clone, Copy, Debug, PartialEq, Eq)]
pub struct Model {
    /// The working board.
    pub sudoku: Board,
    /// The solution of the puzzle on the working board.
    pub solution: Board,
    pub sq_selected: Option<Square>,
    /// The square of the last wrong digit, until a right one is put.
    pub sq_missed: Option<Square>,
    pub miss_count: u32,
    pub state: State,
}

/// A session as a mathematical value: what a `Model` stands for.
pub struct Session {
    pub board: Seq<u8>,
    pub solution: Seq<u8>,
    pub selected: Option<Square>,
    pub missed: Option<Square>,
    pub misses: nat,
    pub state: State,
}

impl View for Model {
    type V = Session;

    open spec fn view(&self) -> Session {
        Session {
            board: self.sudoku@,
            solution: self.solution@,
            selected: self.sq_selected,
            missed: self.sq_missed,
            misses: self.miss_count as nat,
            state: self.state,
        }
    }
}

impl Session {
    /// The session that begins with a puzzle and its solution at an instant.
    pub open spec fn fresh(puzzle: Seq<u8>, solution: Seq<u8>, now: Instant) -> Session {
        Session {
            board: puzzle,
            solution,
            selected: None,
            missed: None,
            misses: 0,
            state: State::Playing { now },
        }
    }

    /// What must hold of a session. Both boards are well formed and the
    /// marked squares lie on the grid. Once a puzzle is there, the solution
    /// is a solved grid and every filled cell of the working board holds the
    /// solution's digit. A completed session has the solution on its working
    /// board.
    pub open spec fn wf(self) -> bool {
        &&& self.board.len() == 81
        &&& self.solution.len() == 81
        &&& forall|i: int| 0 <= i < 81 ==> #[trigger] self.board[i] <= 9
        &&& forall|i: int| 0 <= i < 81 ==> #[trigger] self.solution[i] <= 9
        &&& self.selected matches Some(sq) ==> sq.wf()
        &&& self.missed matches Some(sq) ==> sq.wf()
        &&& self.misses <= u32::MAX
        &&& !(self.state is Startup) ==> solved_grid(self.solution) && fits(self.board, self.solution)
        &&& self.state is Completed ==> self.board == self.solution
    }

    /// The session after a square was selected.
    pub open spec fn select(self, sq: Square) -> Session {
        Session { selected: Some(sq), ..self }
    }

    /// The session after a wrong digit was tried at a square. The count of
    /// misses stops at the largest value that its counter holds.
    pub open spec fn miss(self, sq: Square) -> Session {
        Session {
            missed: Some(sq),
            misses: if self.misses < u32::MAX {
                self.misses + 1
            } else {
                self.misses
            },
            ..self
        }
    }

    /// The session after the right digit was put at a square, `secs` whole
    /// seconds after play began.
    pub open spec fn place(self, sq: Square, num: Number, secs: u64) -> Session {
        let board = self.board.update(sq.spec_index(), num.value);
        Session {
            board,
            missed: None,
            state: if board == self.solution && self.state is Playing {
                State::Completed { secs }
            } else {
                self.state
            },
            ..self
        }
    }

    /// The session after a digit was tried at a square: a miss when the
    /// solution holds another digit there, a placement otherwise.
    pub open spec fn put(self, sq: Square, num: Number, secs: u64) -> Session {
        if num.value != self.solution[sq.spec_index()] {
            self.miss(sq)
        } else {
            self.place(sq, num, secs)
        }
    }
}

impl Default for Model {
    /// The session before the first reset: empty boards, nothing selected,
    /// nothing missed.
    fn default() -> (m: Model)
        ensures
            m.wf(),
            m.state is Startup,
            m.sq_selected is None,
            m.sq_missed is None,
            m.miss_count == 0,
            forall|i: int| 0 <= i < 81 ==> #[trigger] m.sudoku@[i] == 0,
            forall|i: int| 0 <= i < 81 ==> #[trigger] m.solution@[i] == 0,
    {
        Model {
            sudoku: Board::empty(),
            solution: Board::empty(),
            sq_selected: None,
            sq_missed: None,
            miss_count: 0,
            state: State::Startup,
        }
    }
}

impl Model {
    /// What must hold of a session: see `Session::wf`.
    pub open spec fn wf(self) -> bool {
        self@.wf()
    }

    /// Whether the session is well formed.
    pub fn is_wf(&self) -> (r: bool)
        ensures
            r == self.wf(),
    {
        let marks_on_grid = (match self.sq_selected {
            None => true,
            Some(sq) => sq.is_wf(),
        }) && (match self.sq_missed {
            None => true,
            Some(sq) => sq.is_wf(),
        });
        if !marks_on_grid || !self.sudoku.is_wf() || !self.solution.is_wf() {
            return false;
        }
        match self.state {
            State::Startup => true,
            State::Playing { .. } => self.solution.is_solved() && self.sudoku.fits_into(
                &self.solution,
            ),
            State::Completed { .. } => self.solution.is_solved() && self.sudoku.same_as(
                &self.solution,
            ),
        }
    }

    /// Whether the session takes the event: see `accepts`.
    pub fn takes(&self, msg: Msg) -> (r: bool)
        ensures
            r == accepts(*self, msg),
    {
        match msg {
            Msg::TimerTick => true,
            Msg::Reset => true,
            Msg::SelectSquare(sq) => sq.is_wf(),
            Msg::PutNumber { sq, num } => sq.is_wf() && num.is_wf() && !matches!(
                self.state,
                State::Startup
            ),
        }
    }

    /// The session that begins with the given puzzle and solution at the
    /// given instant, if the solution is a solved grid and every filled cell
    /// of the puzzle holds the solution's digit.
    pub fn start(puzzle: Board, solution: Board, now: Instant) -> (r: Result<Model, StartError>)
        ensures
            r is Ok <==> puzzle.wf() && solved_grid(solution@) && puzzle.agrees_with(solution),
            r matches Ok(m) ==> m.wf() && m@ == Session::fresh(puzzle@, solution@, now),
            r == Err::<Model, StartError>(StartError::MalformedPuzzle) <==> !puzzle.wf(),
            r == Err::<Model, StartError>(StartError::UnsolvedSolution) <==> puzzle.wf()
                && !solved_grid(solution@),
            r == Err::<Model, StartError>(StartError::Mismatch) <==> puzzle.wf() && solved_grid(
                solution@,
            ) && !puzzle.agrees_with(solution),
    {
        if !puzzle.is_wf() {
            return Err(StartError::MalformedPuzzle);
        }
        if !solution.is_solved() {
            return Err(StartError::UnsolvedSolution);
        }
        if !puzzle.fits_into(&solution) {
            return Err(StartError::Mismatch);
        }
        Ok(
            Model {
                sudoku: puzzle,
                solution,
                sq_selected: None,
                sq_missed: None,
                miss_count: 0,
                state: State::Playing { now },
            },
        )
    }

    /// The solution's digit at a square.
    pub fn solution_at(&self, sq: Square) -> (num: Number)
        requires
            self.wf(),
            !(self.state is Startup),
            sq.wf(),
        ensures
            num.wf(),
            num.value == self@.solution[sq.spec_index()],
    {
        Number { value: self.solution.cells[sq.index()] }
    }

    /// Discards the session and begins one on a new puzzle with `GIVENS`
    /// filled cells, or with more where the generator's minimal puzzle has
    /// more.
    pub fn reset(&mut self)
        ensures
            final(self).wf(),
            final(self).state is Playing,
            final(self).sq_selected is None,
            final(self).sq_missed is None,
            final(self).miss_count == 0,
            only_solution(final(self).sudoku@, final(self).solution@),
            meets_target(
                final(self).sudoku@,
                final(self).solution@,
                final(self).sudoku.filled(),
                GIVENS as int,
            ),
            final(self).sudoku.filled() < 81,
    {
        let (sudoku, solution) = generate_unique(GIVENS);
        self.sudoku = sudoku;
        self.solution = solution;
        self.sq_selected = None;
        self.sq_missed = None;
        self.miss_count = 0;
        self.state = State::Playing { now: now() };
    }

    /// Marks a square as the selected one.
    pub fn select_square(&mut self, sq: Square)
        requires
            old(self).wf(),
            sq.wf(),
        ensures
            final(self).wf(),
            final(self)@ == old(self)@.select(sq),
    {
        self.sq_selected = Some(sq);
    }

    /// Does all of `put_number` but the change of phase, and says whether
    /// that change is due: the digit was right, the board is now solved, and
    /// the puzzle was being played.
    fn try_number(&mut self, sq: Square, num: Number) -> (over: bool)
        requires
            old(self).wf(),
            !(old(self).state is Startup),
            sq.wf(),
            num.wf(),
        ensures
            final(self).wf(),
            over == (old(self)@.put(sq, num, 0).state is Completed && old(self).state is Playing),
            final(self)@ == (Session { state: old(self).state, ..old(self)@.put(sq, num, 0) }),
            over ==> final(self)@.board == final(self)@.solution,
    {
        if num != self.solution_at(sq) {
            self.sq_missed = Some(sq);
            if self.miss_count < u32::MAX {
                self.miss_count += 1;
            }
            return false;
        }
        proof {
            lemma_solution_digit_allowed(self.sudoku, self.solution, sq);
        }
        let accepted = self.sudoku.put(sq, num);
        assert(accepted);
        self.sq_missed = None;
        let solved = self.sudoku.is_solved();
        proof {
            assert(self.sudoku.agrees_with(self.solution)) by {
                assert forall|i: int| 0 <= i < 81 implies #[trigger] self.sudoku@[i] == 0
                    || self.sudoku@[i] == self.solution@[i] by {
                    assert(old(self).sudoku@[i] == 0 || old(self).sudoku@[i] == self.solution@[i]);
                }
            }
            if solved || self.state is Completed {
                assert(self.sudoku@ =~= self.solution@);
            }
        }
        match self.state {
            State::Playing { .. } => solved,
            _ => false,
        }
    }

    /// Tries a digit at a square, `secs` whole seconds after play began.
    ///
    /// A digit that differs from the solution's marks the square as missed
    /// and counts one miss. The solution's digit is written on the working
    /// board and clears the miss mark; when it solves the board of a puzzle
    /// that is being played, the session is completed with `secs`.
    pub fn put_number_at(&mut self, sq: Square, num: Number, secs: u64)
        requires
            old(self).wf(),
            !(old(self).state is Startup),
            sq.wf(),
            num.wf(),
        ensures
            final(self).wf(),
            final(self)@ == old(self)@.put(sq, num, secs),
    {
        if self.try_number(sq, num) {
            self.state = State::Completed { secs };
        }
    }

    /// Tries a digit at a square, as `put_number_at` does with the seconds
    /// that the clock gives when the board is solved.
    pub fn put_number(&mut self, sq: Square, num: Number)
        requires
            old(self).wf(),
            !(old(self).state is Startup),
            sq.wf(),
            num.wf(),
        ensures
            final(self).wf(),
            exists|secs: u64| final(self)@ == old(self)@.put(sq, num, secs),
    {
        if self.try_number(sq, num) {
            if let State::Playing { now } = self.state {
                let secs = secs_since(&now);
                self.state = State::Completed { secs };
                assert(self@ == old(self)@.put(sq, num, secs));
            }
        } else {
            assert(self@ == old(self)@.put(sq, num, 0));
        }
    }
}

/// What an event asks of the session it is sent to: marked squares lie on
/// the grid, digits lie between one and nine, and a digit is tried only once
/// a puzzle is there.
pub open spec fn accepts(model: Model, msg: Msg) -> bool {
    match msg {
        Msg::TimerTick => true,
        Msg::Reset => true,
        Msg::SelectSquare(sq) => sq.wf(),
        Msg::PutNumber { sq, num } => sq.wf() && num.wf() && !(model.state is Startup),
    }
}

/// Lets the session react to an event.
pub fn update(msg: Msg, model: &mut Model)
    requires
        old(model).wf(),
        accepts(*old(model), msg),
    ensures
        final(model).wf(),
        msg is TimerTick ==> *final(model) == *old(model),
        msg is Reset ==> final(model)@.state is Playing && final(model)@.selected is None
            && final(model)@.missed is None && final(model)@.misses == 0 && only_solution(
            final(model)@.board,
            final(model)@.solution,
        ) && meets_target(
            final(model)@.board,
            final(model)@.solution,
            final(model).sudoku.filled(),
            GIVENS as int,
        ) && final(model).sudoku.filled() < 81,
        msg matches Msg::SelectSquare(sq) ==> final(model)@ == old(model)@.select(sq),
        msg matches Msg::PutNumber { sq, num } ==> exists|secs: u64|
            final(model)@ == old(model)@.put(sq, num, secs),
{
    match msg {
        Msg::TimerTick => {},
        Msg::Reset => model.reset(),
        Msg::SelectSquare(sq) => model.select_square(sq),
        Msg::PutNumber { sq, num } => model.put_number(sq, num),
    }
}

} // verus!
