use vstd::prelude::*;
use rand::rngs::StdRng;
use crate::alphabeta::legal_children;
use crate::board::{Board, Move};
use crate::color::Color;
use crate::evaluator::Evaluator;
use crate::negamax::legal_moves;
use crate::rng::random_index;

verus! {

/// The legal moves of `p`, each with the score of the position that it leads to,
/// as `p` sees it.
pub open spec fn scored_moves<B: Board, E: Evaluator<B>>(b: B, p: Color, e: E) -> Seq<(Move, int)> {
    Seq::new(
        legal_moves(b, p).len(),
        |i: int| (legal_moves(b, p)[i], e.score(b.after(legal_moves(b, p)[i]), p)),
    )
}

/// No move of `scored` has a score above `score`.
pub open spec fn is_top(scored: Seq<(Move, int)>, score: int) -> bool {
    forall|j: int| 0 <= j < scored.len() ==> (#[trigger] scored[j]).1 <= score
}

/// Those of the first `n` moves of `scored` that no move of `scored` outscores, in
/// their order.
pub open spec fn top_moves_upto(scored: Seq<(Move, int)>, n: nat) -> Seq<Move>
    decreases n,
{
    if n == 0 || n > scored.len() {
        Seq::empty()
    } else if is_top(scored, scored[n - 1].1) {
        top_moves_upto(scored, (n - 1) as nat).push(scored[n - 1].0)
    } else {
        top_moves_upto(scored, (n - 1) as nat)
    }
}

/// The moves with the greatest score, in their order.
pub open spec fn top_moves(scored: Seq<(Move, int)>) -> Seq<Move> {
    top_moves_upto(scored, scored.len())
}

/// Scored moves as the engines hold them, their scores taken as integers.
pub open spec fn with_int_scores(scored: Seq<(Move, i32)>) -> Seq<(Move, int)> {
    Seq::new(scored.len(), |i: int| (scored[i].0, scored[i].1 as int))
}

/// A move is among the top moves exactly if it is scored and none is scored higher.
pub proof fn top_moves_are_the_best(scored: Seq<(Move, int)>, n: nat, mv: Move)
    requires
        n <= scored.len(),
    ensures
        top_moves_upto(scored, n).contains(mv) <==> exists|i: int|
            0 <= i < n && (#[trigger] scored[i]).0 == mv && is_top(scored, scored[i].1),
    decreases n,
{
    if n > 0 {
        let fewer = top_moves_upto(scored, (n - 1) as nat);
        top_moves_are_the_best(scored, (n - 1) as nat, mv);
        let last = scored[n - 1];
        let all = top_moves_upto(scored, n);
        if all.contains(mv) {
            let k = choose|k: int| 0 <= k < all.len() && all[k] == mv;
            if is_top(scored, last.1) && k == all.len() - 1 {
                assert(scored[n - 1].0 == mv);
            } else {
                assert(fewer[k] == mv);
                assert(fewer.contains(mv));
            }
        }
        if exists|i: int| 0 <= i < n && (#[trigger] scored[i]).0 == mv && is_top(scored, scored[i].1) {
            let i = choose|i: int|
                0 <= i < n && (#[trigger] scored[i]).0 == mv && is_top(scored, scored[i].1);
            if i == n - 1 {
                assert(all[all.len() - 1] == mv);
            } else {
                assert(fewer.contains(mv));
                let k = choose|k: int| 0 <= k < fewer.len() && fewer[k] == mv;
                assert(all[k] == mv);
            }
        }
    }
}

/// Scores every legal move of `player` by the position that it leads to.
pub fn score_moves<B: Board, E: Evaluator<B>>(board: &B, player: Color, eval: &E) -> (scored: Vec<
    (Move, i32),
>)
    ensures
        with_int_scores(scored@) == scored_moves(*board, player, *eval),
        scored@.len() == legal_moves(*board, player).len(),
{
    let children = legal_children(board, player);
    let mut scored: Vec<(Move, i32)> = Vec::new();
    let mut k: usize = 0;
    while k < children.len()
        invariant
            k <= children@.len(),
            scored@.len() == k,
            children@.len() == legal_moves(*board, player).len(),
            forall|j: int|
                0 <= j < children@.len() ==> (#[trigger] children@[j]).0 == legal_moves(
                    *board,
                    player,
                )[j] && children@[j].1 == board.after(children@[j].0),
            forall|j: int|
                0 <= j < k ==> (#[trigger] scored@[j]).0 == children@[j].0 && scored@[j].1
                    == eval.score(children@[j].1, player),
        decreases children@.len() - k,
    {
        let score = eval.eval(&children[k].1, player);
        scored.push((children[k].0, score));
        k += 1;
    }
    assert(with_int_scores(scored@) =~= scored_moves(*board, player, *eval));
    scored
}

/// Keeps the moves with the greatest score, in their order.
pub fn best_moves(scored: &Vec<(Move, i32)>) -> (best: Vec<Move>)
    ensures
        best@ == top_moves(with_int_scores(scored@)),
        best@.len() == 0 <==> scored@.len() == 0,
{
    let n = scored.len();
    let mut best: Vec<Move> = Vec::new();
    if n == 0 {
        return best;
    }
    let ghost ints = with_int_scores(scored@);
    let mut top: i32 = scored[0].1;
    let ghost mut at: int = 0;
    let mut i: usize = 1;
    while i < n
        invariant
            1 <= i <= n,
            n == scored@.len(),
            0 <= at < i,
            scored@[at].1 == top,
            forall|j: int| 0 <= j < i ==> (#[trigger] scored@[j]).1 <= top,
        decreases n - i,
    {
        if scored[i].1 > top {
            top = scored[i].1;
            proof {
                at = i as int;
            }
        }
        i += 1;
    }
    assert forall|j: int| 0 <= j < n implies (is_top(ints, (#[trigger] ints[j]).1) <==> scored@[j].1
        == top) by {
        assert(ints[at].1 == top);
        if scored@[j].1 == top {
            assert forall|k: int| 0 <= k < ints.len() implies (#[trigger] ints[k]).1 <= ints[j].1 by {
                assert(scored@[k].1 <= top);
            }
        }
    }
    let mut k: usize = 0;
    while k < n
        invariant
            k <= n,
            n == scored@.len(),
            ints == with_int_scores(scored@),
            0 <= at < n,
            scored@[at].1 == top,
            forall|j: int| 0 <= j < n ==> (is_top(ints, (#[trigger] ints[j]).1) <==> scored@[j].1 == top),
            best@ == top_moves_upto(ints, k as nat),
            k > at ==> best@.len() > 0,
        decreases n - k,
    {
        assert(ints[k as int].0 == scored@[k as int].0);
        if scored[k].1 == top {
            best.push(scored[k].0);
        }
        k += 1;
    }
    best
}

/// The move at `index`, if there is one.
pub fn pick_at(candidates: &Vec<Move>, index: usize) -> (r: Option<Move>)
    ensures
        r == if index < candidates@.len() {
            Some(candidates@[index as int])
        } else {
            None
        },
{
    if index < candidates.len() {
        Some(candidates[index])
    } else {
        None
    }
}

/// Picks one of the candidates at random; none where there is no candidate.
pub fn pick(rng: &mut StdRng, candidates: &Vec<Move>) -> (r: Option<Move>)
    ensures
        r is None <==> candidates@.len() == 0,
        r is Some ==> candidates@.contains(r.unwrap()),
{
    if candidates.len() == 0 {
        None
    } else {
        let index = random_index(rng, candidates.len());
        pick_at(candidates, index)
    }
}

/// Proposes a move for `player`: one of the legal moves that lead to the position
/// with the greatest score, picked at random among them.
pub fn select_move<B: Board, E: Evaluator<B>>(
    rng: &mut StdRng,
    board: &B,
    player: Color,
    eval: &E,
) -> (r: Option<Move>)
    ensures
        r is None <==> legal_moves(*board, player).len() == 0,
        r is None <==> top_moves(scored_moves(*board, player, *eval)).len() == 0,
        r is Some ==> top_moves(scored_moves(*board, player, *eval)).contains(r.unwrap()),
{
    let scored = score_moves(board, player, eval);
    assert(with_int_scores(scored@).len() == scored@.len());
    let best = best_moves(&scored);
    pick(rng, &best)
}

} // verus!
