use vstd::prelude::*;
use rand::rngs::StdRng;
use crate::alphabeta::legal_children;
use crate::board::{Board, Move};
use crate::color::Color;
use crate::engine::Engine;
use crate::evaluator::Evaluator;
use crate::negamax::{legal_moves, MAX_DEPTH};
use crate::par_alphabeta::{root_scores, score_reply};
use crate::select::{best_moves, pick, top_moves, with_int_scores};

verus! {

/// Alpha-beta search that works on the moves of the root one after the other.
pub struct AlphaBeta<F> {
    depth: u32,
    leaf_value: F,
}

impl<F> AlphaBeta<F> {
    #[verifier::type_invariant]
    spec fn depth_in_range(self) -> bool {
        1 <= self.depth <= MAX_DEPTH
    }

    /// The number of plies that the engine looks ahead.
    pub closed spec fn plies(&self) -> nat {
        self.depth as nat
    }

    /// The leaf evaluator of the engine.
    pub closed spec fn evaluator(&self) -> F {
        self.leaf_value
    }

    /// An engine that looks `depth` plies ahead, the move at the root counted.
    pub fn new(depth: u32, leaf_value: F) -> (r: Self)
        requires
            1 <= depth <= MAX_DEPTH,
        ensures
            r.plies() == depth,
            r.evaluator() == leaf_value,
    {
        Self { leaf_value, depth }
    }

    /// Scores every legal move of `player`, in the order in which the moves are
    /// generated. The parallel engine returns the same scores in the same order.
    pub fn eval_moves<B>(&self, board: &B, player: Color) -> (scored: Vec<(Move, i32)>) where
        B: Board,
        F: Evaluator<B>,

        ensures
            with_int_scores(scored@) == root_scores(*board, player, self.evaluator(), self.plies()),
            scored@.len() == legal_moves(*board, player).len(),
    {
        proof {
            use_type_invariant(self);
        }
        let children = legal_children(board, player);
        let mut scored: Vec<(Move, i32)> = Vec::new();
        let mut k: usize = 0;
        while k < children.len()
            invariant
                k <= children@.len(),
                scored@.len() == k,
                1 <= self.depth <= MAX_DEPTH,
                children@.len() == legal_moves(*board, player).len(),
                forall|j: int|
                    0 <= j < children@.len() ==> (#[trigger] children@[j]).0 == legal_moves(
                        *board,
                        player,
                    )[j] && children@[j].1 == board.after(children@[j].0),
                forall|j: int|
                    0 <= j < k ==> #[trigger] with_int_scores(scored@)[j] == root_scores(
                        *board,
                        player,
                        self.leaf_value,
                        self.depth as nat,
                    )[j],
            decreases children@.len() - k,
        {
            let ghost before = scored@;
            let entry = score_reply(&children[k], player, &self.leaf_value, self.depth - 1);
            scored.push(entry);
            proof {
                assert forall|j: int| 0 <= j < k + 1 implies #[trigger] with_int_scores(scored@)[j]
                    == root_scores(*board, player, self.leaf_value, self.depth as nat)[j] by {
                    if j < k {
                        assert(with_int_scores(before)[j] == with_int_scores(scored@)[j]);
                    }
                }
            }
            k += 1;
        }
        assert(with_int_scores(scored@) =~= root_scores(
            *board,
            player,
            self.evaluator(),
            self.plies(),
        ));
        scored
    }
}

impl<B: Board, F: Evaluator<B>> Engine<B> for AlphaBeta<F> {
    /// The legal moves with the greatest score at the root.
    open spec fn choices(&self, board: B, player: Color) -> Seq<Move> {
        top_moves(root_scores(board, player, self.evaluator(), self.plies()))
    }

    fn do_move(&self, rng: &mut StdRng, board: &B, player: Color) -> (r: Option<Move>) {
        let scored = self.eval_moves(board, player);
        assert(with_int_scores(scored@).len() == scored@.len());
        let best = best_moves(&scored);
        pick(rng, &best)
    }
}

} // verus!
