use vstd::prelude::*;
use rand::rngs::StdRng;
use crate::alphabeta::legal_children;
use crate::board::{Board, Move};
use crate::color::Color;
use crate::evaluator::Evaluator;
use crate::negamax::legal_moves;
use crate::select::{pick, scored_moves, select_move, top_moves};

verus! {

/// A selection engine: given a position and the player to move, it proposes a move,
/// or none where the player has no legal move.
pub trait Engine<B: Board> {
    /// The moves among which the engine picks.
    spec fn choices(&self, board: B, player: Color) -> Seq<Move>;

    /// Proposes one of the choices, picked with `rng` where there are several.
    fn do_move(&self, rng: &mut StdRng, board: &B, player: Color) -> (r: Option<Move>)
        ensures
            r is None <==> self.choices(*board, player).len() == 0,
            r is Some ==> self.choices(*board, player).contains(r.unwrap()),
    ;
}

/// The legal moves of `player`, in the order in which they are generated.
pub fn collect_legal_moves<B: Board>(board: &B, player: Color) -> (moves: Vec<Move>)
    ensures
        moves@ == legal_moves(*board, player),
{
    let children = legal_children(board, player);
    let mut moves: Vec<Move> = Vec::new();
    let mut k: usize = 0;
    while k < children.len()
        invariant
            k <= children@.len(),
            moves@.len() == k,
            children@.len() == legal_moves(*board, player).len(),
            forall|j: int|
                0 <= j < children@.len() ==> (#[trigger] children@[j]).0 == legal_moves(
                    *board,
                    player,
                )[j],
            forall|j: int| 0 <= j < k ==> #[trigger] moves@[j] == legal_moves(*board, player)[j],
        decreases children@.len() - k,
    {
        moves.push(children[k].0);
        k += 1;
    }
    assert(moves@ =~= legal_moves(*board, player));
    moves
}

/// Plays any legal move.
#[derive(Clone, Copy, Debug, PartialEq, Eq)]
pub struct Random();

impl<B: Board> Engine<B> for Random {
    open spec fn choices(&self, board: B, player: Color) -> Seq<Move> {
        legal_moves(board, player)
    }

    fn do_move(&self, rng: &mut StdRng, board: &B, player: Color) -> (r: Option<Move>) {
        let moves = collect_legal_moves(board, player);
        pick(rng, &moves)
    }
}

/// Plays a move that leads to a position with the greatest score, looking no
/// further.
#[derive(Clone, Copy, Debug, PartialEq, Eq)]
pub struct Lookahead0<F>(pub F);

impl<B: Board, F: Evaluator<B>> Engine<B> for Lookahead0<F> {
    open spec fn choices(&self, board: B, player: Color) -> Seq<Move> {
        top_moves(scored_moves(board, player, self.0))
    }

    fn do_move(&self, rng: &mut StdRng, board: &B, player: Color) -> (r: Option<Move>) {
        select_move(rng, board, player, &self.0)
    }
}

} // verus!
