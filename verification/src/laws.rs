//! Laws of the game's transition system: what a run of accepted moves
//! records on the board, how the turn alternates, and that the board only
//! grows.

use vstd::prelude::*;

use crate::board::{Player, other};
use crate::game::{GameState, step, step_ok, wins};

verus! {

/// The state after playing the keys of `ps` in order from `g`, each by one
/// accepted move.
pub open spec fn run(g: GameState, ps: Seq<(int, int)>) -> GameState
    decreases ps.len(),
{
    if ps.len() == 0 {
        g
    } else {
        step(run(g, ps.drop_last()), ps.last())
    }
}

/// Every move of `ps` is accepted in the state it is played from.
pub open spec fn moves_ok(g: GameState, ps: Seq<(int, int)>) -> bool {
    forall|i: int| 0 <= i < ps.len() ==> #[trigger] step_ok(run(g, ps.take(i)), ps[i])
}

/// A prefix of an accepted run is an accepted run.
proof fn lemma_moves_ok_prefix(g: GameState, ps: Seq<(int, int)>)
    requires
        moves_ok(g, ps),
        ps.len() > 0,
    ensures
        moves_ok(g, ps.drop_last()),
{
    let pre = ps.drop_last();
    assert forall|j: int| 0 <= j < pre.len() implies #[trigger] step_ok(
        run(g, pre.take(j)),
        pre[j],
    ) by {
        assert(pre.take(j) =~= ps.take(j));
        assert(step_ok(run(g, ps.take(j)), ps[j]));
    }
}

/// Marks, once placed, persist: after any run of accepted moves, the mark
/// recorded at each played position is the mark whose turn it was at the
/// time of that placement.
pub proof fn lemma_mark_records_turn(g: GameState, ps: Seq<(int, int)>, i: int)
    requires
        moves_ok(g, ps),
        0 <= i < ps.len(),
    ensures
        run(g, ps).board.contains_key(ps[i]),
        run(g, ps).board[ps[i]] == run(g, ps.take(i)).turn,
    decreases ps.len(),
{
    let pre = ps.drop_last();
    let last = ps.last();
    assert(ps.take(ps.len() - 1) =~= pre);
    assert(step_ok(run(g, ps.take(ps.len() - 1)), ps[ps.len() - 1]));
    if i == ps.len() - 1 {
        assert(ps.take(i) =~= pre);
    } else {
        lemma_moves_ok_prefix(g, ps);
        lemma_mark_records_turn(g, pre, i);
        assert(pre.take(i) =~= ps.take(i));
        assert(pre[i] == ps[i]);
        assert(!run(g, pre).board.contains_key(last));
        assert(ps[i] != last);
    }
}

/// An accepted move that completes no line for its mark leaves no winner and
/// passes the turn to the other mark.
pub proof fn lemma_nonwinning_move_alternates(g: GameState, p: (int, int))
    requires
        step_ok(g, p),
        !wins(g.board.insert(p, g.turn), g.turn),
    ensures
        step(g, p).turn == other(g.turn),
        step(g, p).winner is None,
{
}

/// An accepted move that completes a line for its mark keeps the turn and
/// records that mark as the winner.
pub proof fn lemma_winning_move_keeps_turn(g: GameState, p: (int, int))
    requires
        step_ok(g, p),
        wins(g.board.insert(p, g.turn), g.turn),
    ensures
        step(g, p).turn == g.turn,
        step(g, p).winner == Some(g.turn),
{
}

/// An accepted move only adds to the occupied positions: every mark already
/// on the board stays where it is.
pub proof fn lemma_board_only_grows(g: GameState, p: (int, int))
    requires
        step_ok(g, p),
    ensures
        forall|q: (int, int)| #[trigger]
            g.board.contains_key(q) ==> step(g, p).board.contains_key(q) && step(
                g,
                p,
            ).board[q] == g.board[q],
{
}

} // verus!
