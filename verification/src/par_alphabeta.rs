use vstd::prelude::*;
use rand::rngs::StdRng;
use rayon::iter::{IntoParallelRefIterator, ParallelIterator};
use crate::alphabeta::{alphabeta, legal_children};
use crate::board::{Board, Move};
use crate::color::Color;
use crate::engine::Engine;
use crate::evaluator::Evaluator;
use crate::negamax::{legal_moves, search, MoveOrder, INF, MAX_DEPTH};
use crate::select::{best_moves, pick, top_moves, with_int_scores};

verus! {

/// Alpha-beta search that works on the moves of the root in parallel. The workers
/// share the position and the evaluator and nothing else: both must be `Sync`.
pub struct ParAlphaBeta<F> {
    depth: u32,
    leaf_value: F,
}

/// What a move of `p` scores when the search goes on for `depth` plies after it:
/// the negated score of the position that it leads to, for the opponent, searched
/// with the widest window.
pub open spec fn reply_score<B: Board, E: Evaluator<B>>(b: B, p: Color, e: E, mv: Move, depth: nat) -> int {
    -search(
        b.after(mv),
        p.opposite(),
        e,
        -INF as int,
        INF as int,
        depth,
        MoveOrder::Ascending,
    ).1
}

/// The legal moves of `p` at the root, in the order in which they are generated,
/// each with its score where `depth` plies remain at the root. The scores are
/// those that one search after the other gives.
pub open spec fn root_scores<B: Board, E: Evaluator<B>>(b: B, p: Color, e: E, depth: nat) -> Seq<
    (Move, int),
> {
    Seq::new(
        legal_moves(b, p).len(),
        |i: int| (legal_moves(b, p)[i], reply_score(b, p, e, legal_moves(b, p)[i], (depth - 1) as nat)),
    )
}

/// Scores one move of the root by searching the position that it leads to.
pub fn score_reply<B: Board, E: Evaluator<B>>(
    child: &(Move, B),
    player: Color,
    leaf_eval: &E,
    depth: u32,
) -> (r: (Move, i32))
    requires
        depth <= MAX_DEPTH,
    ensures
        r.0 == child.0,
        r.1 == -search(
            child.1,
            player.opposite(),
            *leaf_eval,
            -INF as int,
            INF as int,
            depth as nat,
            MoveOrder::Ascending,
        ).1,
{
    (child.0, -alphabeta(&child.1, player.opposite(), leaf_eval, depth))
}

/// Scores the moves of the root on rayon's workers: `par_iter` on the vector, `map`
/// with `score_reply`, and `collect` into a vector. Not proved: that the vector
/// holds, for each entry of `children` and in the same order, what `score_reply`
/// returns for it.
#[verifier::external_body]
fn par_score_replies<B: Board + Sync, E: Evaluator<B> + Sync>(
    children: &Vec<(Move, B)>,
    player: Color,
    leaf_eval: &E,
    depth: u32,
) -> (scored: Vec<(Move, i32)>)
    requires
        depth <= MAX_DEPTH,
    ensures
        scored@.len() == children@.len(),
        forall|k: int|
            0 <= k < children@.len() ==> (#[trigger] scored@[k]).0 == children@[k].0 && scored@[k].1
                == -search(
                children@[k].1,
                player.opposite(),
                *leaf_eval,
                -INF as int,
                INF as int,
                depth as nat,
                MoveOrder::Ascending,
            ).1,
{
    children.par_iter().map(|child| score_reply(child, player, leaf_eval, depth)).collect()
}

impl<F> ParAlphaBeta<F> {
    #[verifier::type_invariant]
    spec fn depth_in_range(self) -> bool {
        1 <= self.depth <= MAX_DEPTH
    }

    /// The number of plies that the engine looks ahead.
    pub closed spec fn plies(&self) -> nat {
        self.depth as nat
    }

    /// The leaf evaluator of the engine.
    pub closed spec fn evaluator(&self) -> F {
        self.leaf_value
    }

    /// An engine that looks `depth` plies ahead, the move at the root counted.
    pub fn new(depth: u32, leaf_value: F) -> (r: Self)
        requires
            1 <= depth <= MAX_DEPTH,
        ensures
            r.plies() == depth,
            r.evaluator() == leaf_value,
    {
        Self { leaf_value, depth }
    }

    /// Scores every legal move of `player`. The moves come in the order in which
    /// they are generated, whatever worker scored them, and with the scores that
    /// one search after the other gives.
    pub fn eval_moves<B>(&self, board: &B, player: Color) -> (scored: Vec<(Move, i32)>) where
        B: Board + Sync,
        F: Evaluator<B> + Sync,

        ensures
            with_int_scores(scored@) == root_scores(*board, player, self.evaluator(), self.plies()),
            scored@.len() == legal_moves(*board, player).len(),
    {
        proof {
            use_type_invariant(self);
        }
        let children = legal_children(board, player);
        let scored = par_score_replies(&children, player, &self.leaf_value, self.depth - 1);
        assert(with_int_scores(scored@) =~= root_scores(
            *board,
            player,
            self.evaluator(),
            self.plies(),
        ));
        scored
    }
}

impl<B: Board + Sync, F: Evaluator<B> + Sync> Engine<B> for ParAlphaBeta<F> {
    /// The legal moves with the greatest score at the root.
    open spec fn choices(&self, board: B, player: Color) -> Seq<Move> {
        top_moves(root_scores(board, player, self.evaluator(), self.plies()))
    }

    fn do_move(&self, rng: &mut StdRng, board: &B, player: Color) -> (r: Option<Move>) {
        let scored = self.eval_moves(board, player);
        assert(with_int_scores(scored@).len() == scored@.len());
        let best = best_moves(&scored);
        pick(rng, &best)
    }
}

} // verus!
