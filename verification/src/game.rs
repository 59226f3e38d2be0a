//! The game engine: current turn, board and winner, a single move operation
//! with full validation and win detection, and a text rendering of the board.

use vstd::prelude::*;
use vstd::string::StringExecFns;
use rand::Rng;

use crate::board::{Board, Coord, Player, cell, other};

verus! {

/// Why a move was rejected: the target cell already holds a mark, or the game
/// already has a winner.
#[derive(Debug)]
pub enum GameError {
    CoordOccupied,
    GameOver,
}

/// Options for starting a game: a fixed first mark, or none to have one
/// drawn at random.
pub struct GameOptions {
    pub initial_player: Option<Player>,
}

impl Default for GameOptions {
    fn default() -> (r: Self)
        ensures
            r.initial_player is None,
    {
        GameOptions { initial_player: None }
    }
}

/// The mathematical state of a game: whose turn it is, which mark each
/// occupied position holds, and the winner once one is decided.
pub ghost struct GameState {
    pub turn: Player,
    pub board: Map<(int, int), Player>,
    pub winner: Option<Player>,
}

/// All three cells of row `y` hold mark `m`.
pub open spec fn row_won(b: Map<(int, int), Player>, m: Player, y: int) -> bool {
    cell(b, 1, y) == Some(m) && cell(b, 2, y) == Some(m) && cell(b, 3, y) == Some(m)
}

/// All three cells of column `x` hold mark `m`.
pub open spec fn col_won(b: Map<(int, int), Player>, m: Player, x: int) -> bool {
    cell(b, x, 1) == Some(m) && cell(b, x, 2) == Some(m) && cell(b, x, 3) == Some(m)
}

/// The top-left to bottom-right diagonal holds mark `m` throughout.
pub open spec fn diag_won(b: Map<(int, int), Player>, m: Player) -> bool {
    cell(b, 1, 1) == Some(m) && cell(b, 2, 2) == Some(m) && cell(b, 3, 3) == Some(m)
}

/// The top-right to bottom-left diagonal holds mark `m` throughout.
pub open spec fn anti_diag_won(b: Map<(int, int), Player>, m: Player) -> bool {
    cell(b, 3, 1) == Some(m) && cell(b, 2, 2) == Some(m) && cell(b, 1, 3) == Some(m)
}

/// Mark `m` has completed a row, a column or a diagonal.
pub open spec fn wins(b: Map<(int, int), Player>, m: Player) -> bool {
    ||| row_won(b, m, 1)
    ||| row_won(b, m, 2)
    ||| row_won(b, m, 3)
    ||| col_won(b, m, 1)
    ||| col_won(b, m, 2)
    ||| col_won(b, m, 3)
    ||| diag_won(b, m)
    ||| anti_diag_won(b, m)
}

/// The winner field is truthful: set exactly when some mark has a complete
/// line, and then to such a mark.
pub open spec fn state_wf(g: GameState) -> bool {
    match g.winner {
        Some(m) => wins(g.board, m),
        None => !wins(g.board, Player::X) && !wins(g.board, Player::O),
    }
}

/// A move at key `p` is accepted: no winner yet and the cell is empty.
pub open spec fn step_ok(g: GameState, p: (int, int)) -> bool {
    g.winner is None && !g.board.contains_key(p)
}

/// The state after an accepted move at key `p`: the mover's mark is recorded
/// at `p`; if that completes a line the mover wins and keeps the turn,
/// otherwise the turn passes to the other mark.
pub open spec fn step(g: GameState, p: (int, int)) -> GameState {
    let b = g.board.insert(p, g.turn);
    if wins(b, g.turn) {
        GameState { turn: g.turn, board: b, winner: Some(g.turn) }
    } else {
        GameState { turn: other(g.turn), board: b, winner: g.winner }
    }
}

/// Adding a mark `m` somewhere gives the other mark no line it did not have.
pub proof fn lemma_insert_keeps_other_losing(b: Map<(int, int), Player>, k: (int, int), m: Player)
    requires
        !wins(b, other(m)),
    ensures
        !wins(b.insert(k, m), other(m)),
{
    let b2 = b.insert(k, m);
    assert(forall|x: int, y: int| (x, y) != k ==> #[trigger] cell(b2, x, y) == cell(b, x, y));
    assert(cell(b2, k.0, k.1) == Some(m));
    assert(m != other(m));
}

/// The single character shown for mark `m`.
pub open spec fn mark_char(m: Player) -> char {
    match m {
        Player::X => 'X',
        Player::O => 'O',
    }
}

/// The character shown for the board cell at (`x`, `y`): the mark's
/// character, or a blank for an empty cell.
pub open spec fn cell_char(b: Map<(int, int), Player>, x: int, y: int) -> char {
    match cell(b, x, y) {
        Some(m) => mark_char(m),
        None => ' ',
    }
}

/// Row `y` of the rendering: the three cells, pipe-delimited.
pub open spec fn row_chars(b: Map<(int, int), Player>, y: int) -> Seq<char> {
    seq!['|', cell_char(b, 1, y), '|', cell_char(b, 2, y), '|', cell_char(b, 3, y), '|']
}

/// The whole rendering: the three rows, each ended by a newline.
pub open spec fn render_chars(b: Map<(int, int), Player>) -> Seq<char> {
    row_chars(b, 1) + seq!['\n'] + row_chars(b, 2) + seq!['\n'] + row_chars(b, 3) + seq!['\n']
}

/// A game engine: the mark to move, the board, and the winner once decided.
pub struct Game {
    pub player: Player,
    pub grid: Board,
    pub winner: Option<Player>,
}

impl View for Game {
    type V = GameState;

    open spec fn view(&self) -> GameState {
        GameState { turn: self.player, board: self.grid@, winner: self.winner }
    }
}

/// Relies on rand::thread_rng and rand::Rng::gen::<bool>: draws a bool from
/// the thread-local generator; nothing is promised of the outcome.
#[verifier::external_body]
fn random_bool() -> bool {
    rand::thread_rng().gen()
}

impl Game {
    /// The board's keys are distinct and the winner field is truthful.
    pub open spec fn wf(&self) -> bool {
        self.grid.wf() && state_wf(self@)
    }

    /// A fresh game with an empty board, no winner, and a starting mark drawn
    /// at random.
    pub fn new() -> (g: Game)
        ensures
            g.wf(),
            g@.board == Map::<(int, int), Player>::empty(),
            g@.winner is None,
    {
        Game::new_with(GameOptions::default())
    }

    /// A fresh game with an empty board and no winner; the starting mark is
    /// the one requested, or drawn at random where none is.
    pub fn new_with(options: GameOptions) -> (g: Game)
        ensures
            g.wf(),
            g@.board == Map::<(int, int), Player>::empty(),
            g@.winner is None,
            match options.initial_player {
                Some(p) => g@.turn == p,
                None => true,
            },
    {
        let player = match options.initial_player {
            Some(p) => p,
            None => if random_bool() {
                Player::X
            } else {
                Player::O
            },
        };
        Game { player, grid: Board::new(), winner: None }
    }

    /// Whether the board cell at (`x`, `y`) holds mark `m`.
    fn cell_is(&self, x: usize, y: usize, m: Player) -> (r: bool)
        requires
            self.grid.wf(),
        ensures
            r == (cell(self.grid@, x as int, y as int) == Some(m)),
    {
        match self.grid.get(&Coord { x, y }) {
            Some(p) => p == m,
            None => false,
        }
    }

    /// Whether mark `m` has completed a row, a column or a diagonal.
    fn has_line(&self, m: Player) -> (r: bool)
        requires
            self.grid.wf(),
        ensures
            r == wins(self.grid@, m),
    {
        let rows = self.cell_is(1, 1, m) && self.cell_is(2, 1, m) && self.cell_is(3, 1, m)
            || self.cell_is(1, 2, m) && self.cell_is(2, 2, m) && self.cell_is(3, 2, m)
            || self.cell_is(1, 3, m) && self.cell_is(2, 3, m) && self.cell_is(3, 3, m);
        let cols = self.cell_is(1, 1, m) && self.cell_is(1, 2, m) && self.cell_is(1, 3, m)
            || self.cell_is(2, 1, m) && self.cell_is(2, 2, m) && self.cell_is(2, 3, m)
            || self.cell_is(3, 1, m) && self.cell_is(3, 2, m) && self.cell_is(3, 3, m);
        let diags = self.cell_is(1, 1, m) && self.cell_is(2, 2, m) && self.cell_is(3, 3, m)
            || self.cell_is(3, 1, m) && self.cell_is(2, 2, m) && self.cell_is(1, 3, m);
        rows || cols || diags
    }

    /// Append the character of the cell at (`x`, `y`) and a pipe to `out`.
    fn push_cell(&self, out: &mut String, x: usize, y: usize)
        requires
            self.grid.wf(),
        ensures
            final(out)@ == old(out)@ + seq![
                cell_char(self.grid@, x as int, y as int),
                '|',
            ],
    {
        proof {
            reveal_strlit("X|");
            reveal_strlit("O|");
            reveal_strlit(" |");
        }
        match self.grid.get(&Coord { x, y }) {
            Some(Player::X) => out.append("X|"),
            Some(Player::O) => out.append("O|"),
            None => out.append(" |"),
        }
        proof {
            assert(out@ =~= old(out)@ + seq![cell_char(self.grid@, x as int, y as int), '|']);
        }
    }

    /// Append row `y` of the rendering and a newline to `out`.
    fn push_row(&self, out: &mut String, y: usize)
        requires
            self.grid.wf(),
        ensures
            final(out)@ == old(out)@ + row_chars(self.grid@, y as int) + seq!['\n'],
    {
        proof {
            reveal_strlit("|");
            reveal_strlit("\n");
        }
        out.append("|");
        self.push_cell(out, 1, y);
        self.push_cell(out, 2, y);
        self.push_cell(out, 3, y);
        out.append("\n");
        proof {
            assert(out@ =~= old(out)@ + row_chars(self.grid@, y as int) + seq!['\n']);
        }
    }

    /// The text grid for the board: three pipe-delimited rows, each cell
    /// showing its mark's character or a blank, each row ended by a newline.
    /// A pure function of the state.
    pub fn render(&self) -> (r: String)
        requires
            self.grid.wf(),
        ensures
            r@ == render_chars(self.grid@),
    {
        let mut out = String::new();
        self.push_row(&mut out, 1);
        self.push_row(&mut out, 2);
        self.push_row(&mut out, 3);
        proof {
            assert(out@ =~= render_chars(self.grid@));
        }
        out
    }

    /// Attempt a move at `coord` for the mark whose turn it is.
    ///
    /// Fails with `GameOver` if a winner is already set and with
    /// `CoordOccupied` if the cell already holds a mark, in both cases
    /// leaving the state unchanged; otherwise records the mark, decides the
    /// winner, and alternates the turn unless the move won.
    pub fn next(&mut self, coord: Coord) -> (r: Result<(), GameError>)
        requires
            old(self).wf(),
        ensures
            final(self).wf(),
            match r {
                Ok(()) => step_ok(old(self)@, coord.key()) && final(self)@ == step(
                    old(self)@,
                    coord.key(),
                ),
                Err(GameError::GameOver) => old(self)@.winner is Some && final(self)@ == old(
                    self,
                )@,
                Err(GameError::CoordOccupied) => old(self)@.winner is None && old(
                    self,
                )@.board.contains_key(coord.key()) && final(self)@ == old(self)@,
            },
    {
        if self.winner.is_some() {
            return Err(GameError::GameOver);
        }
        if self.grid.get(&coord).is_some() {
            return Err(GameError::CoordOccupied);
        }
        let me = self.player;
        self.grid.insert(coord, me);
        if self.has_line(me) {
            self.winner = Some(me);
        } else {
            proof {
                lemma_insert_keeps_other_losing(old(self).grid@, coord.key(), me);
            }
            self.player = match me {
                Player::X => Player::O,
                Player::O => Player::X,
            };
        }
        Ok(())
    }
}

} // verus!
