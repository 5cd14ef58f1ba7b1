use vstd::prelude::*;
use rand::rngs::StdRng;
use crate::alphabeta::legal_children;
use crate::board::{Board, Move};
use crate::color::Color;
use crate::engine::Engine;
use crate::evaluator::Evaluator;
use crate::negamax::{legal_moves, INF};
use crate::select::{scored_moves, select_move, top_moves};

verus! {

/// Looks ahead one ply: a position is worth what the opponent's best reply leaves.
#[derive(Clone, Copy, Debug, PartialEq, Eq)]
pub struct Lookahead1<F>(pub F);

/// The scores, as `p` sees them, of the positions that the legal moves of `p`
/// lead to.
pub open spec fn reply_scores<B: Board, F: Evaluator<B>>(b: B, p: Color, f: F) -> Seq<int> {
    Seq::new(legal_moves(b, p).len(), |i: int| f.score(b.after(legal_moves(b, p)[i]), p))
}

/// The one-ply value of a position for `p`: the opponent picks the reply that is
/// best for the opponent, and `p` is left with the negation of its score. Where
/// the opponent has no legal reply the value is `INF`.
pub open spec fn l1_score<B: Board, F: Evaluator<B>>(b: B, p: Color, f: F) -> int {
    let replies = reply_scores(b, p.opposite(), f);
    if replies.len() == 0 {
        INF as int
    } else {
        -replies.max()
    }
}

impl<F> Lookahead1<F> {
    pub fn l1_value<B: Board>(&self, board: &B, player: Color) -> (r: i32) where F: Evaluator<B>
        ensures
            r == l1_score(*board, player, self.0),
            r > i32::MIN,
    {
        let opp = player.opposite();
        let children = legal_children(board, opp);
        let ghost replies = reply_scores(*board, opp, self.0);
        if children.len() == 0 {
            return INF;
        }
        let mut best: i32 = self.0.eval(&children[0].1, opp);
        let ghost mut at: int = 0;
        let mut k: usize = 1;
        while k < children.len()
            invariant
                1 <= k <= children@.len(),
                replies == reply_scores(*board, opp, self.0),
                children@.len() == legal_moves(*board, opp).len(),
                forall|j: int|
                    0 <= j < children@.len() ==> (#[trigger] children@[j]).0 == legal_moves(
                        *board,
                        opp,
                    )[j] && children@[j].1 == board.after(children@[j].0),
                0 <= at < k,
                replies[at] == best,
                best > i32::MIN,
                forall|j: int| 0 <= j < k ==> #[trigger] replies[j] <= best,
            decreases children@.len() - k,
        {
            let score = self.0.eval(&children[k].1, opp);
            if score > best {
                best = score;
                proof {
                    at = k as int;
                }
            }
            k += 1;
        }
        proof {
            replies.max_ensures();
            assert(replies.contains(replies[at]));
        }
        -best
    }
}

impl<B: Board, F: Evaluator<B>> Evaluator<B> for Lookahead1<F> {
    open spec fn score(&self, board: B, player: Color) -> int {
        l1_score(board, player, self.0)
    }

    fn eval(&self, board: &B, player: Color) -> (r: i32) {
        self.l1_value(board, player)
    }
}

impl<B: Board, F: Evaluator<B>> Engine<B> for Lookahead1<F> {
    /// The legal moves with the greatest one-ply value.
    open spec fn choices(&self, board: B, player: Color) -> Seq<Move> {
        top_moves(scored_moves(board, player, *self))
    }

    fn do_move(&self, rng: &mut StdRng, board: &B, player: Color) -> (r: Option<Move>) {
        select_move(rng, board, player, self)
    }
}

} // verus!
