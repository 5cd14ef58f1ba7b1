use vstd::prelude::*;
use crate::board::{Board, Move};
use crate::color::Color;
use crate::evaluator::Evaluator;
use crate::negamax::{
    arrange, arrange_keeps_moves, king_loss_score, legal_moves, no_move_score, scan, search,
    MoveOrder, INF,
};
use crate::piece_value::{material_is_bounded, material_score, Material};

verus! {

/// The evaluator keeps its scores between `-INF` and `INF`.
pub open spec fn in_range<B: Board, E: Evaluator<B>>(e: E) -> bool {
    forall|b: B, p: Color| -INF <= #[trigger] e.score(b, p) <= INF
}

/// The material evaluator keeps its scores between `-INF` and `INF`, and well
/// inside.
pub proof fn material_in_range<B: Board>()
    ensures
        in_range::<B, Material>(Material),
        forall|b: B, p: Color| -64000 <= #[trigger] material_score(b, p) <= 64000,
{
    assert forall|b: B, p: Color| -64000 <= #[trigger] material_score(b, p) <= 64000 by {
        material_is_bounded(b, 64);
    }
    assert forall|b: B, p: Color| -INF <= #[trigger] Material.score(b, p) <= INF by {
        assert(Material.score(b, p) == material_score(b, p));
    }
}

/// Of the two terminal scores the one for a lost king is the greater, from the
/// first ply on: the more plies remain when the king is missed, the less the loss
/// counts, whereas having no move counts the more.
pub proof fn terminal_scores_ordered(depth: nat)
    ensures
        no_move_score(depth) <= king_loss_score(depth),
        depth > 0 ==> no_move_score(depth) < king_loss_score(depth),
{
}

/// Both terminal scores lie below every material score: the score for having no
/// move always, and the score for a lost king so long as the plies that remain do
/// not make up for the material on a board.
pub proof fn terminal_scores_below_material<B: Board>(b: B, p: Color, depth: nat)
    ensures
        no_move_score(depth) < material_score(b, p),
        depth < INF - 64000 ==> king_loss_score(depth) < material_score(b, p),
{
    material_in_range::<B>();
}

proof fn scan_move_is_listed<B: Board, E: Evaluator<B>>(
    b: B,
    p: Color,
    e: E,
    moves: Seq<Move>,
    i: nat,
    alpha: int,
    beta: int,
    depth: nat,
    order: MoveOrder,
    best: (Option<Move>, int),
)
    ensures
        scan(b, p, e, moves, i, alpha, beta, depth, order, best).0 == best.0 || (scan(
            b,
            p,
            e,
            moves,
            i,
            alpha,
            beta,
            depth,
            order,
            best,
        ).0 is Some && moves.contains(
            scan(b, p, e, moves, i, alpha, beta, depth, order, best).0.unwrap(),
        )),
    decreases moves.len() - i,
{
    if i < moves.len() && depth > 0 {
        let mv = moves[i as int];
        let value = -search(b.after(mv), p.opposite(), e, -beta, -alpha, (depth - 1) as nat, order).1;
        let better = if value >= best.1 {
            (Some(mv), value)
        } else {
            best
        };
        let raised = if value > alpha {
            value
        } else {
            alpha
        };
        assert(moves.contains(mv));
        if raised < beta {
            scan_move_is_listed(b, p, e, moves, i + 1, raised, beta, depth, order, better);
        }
    }
}

/// The move that the search settles on is a legal move of the player.
pub proof fn search_move_is_legal<B: Board, E: Evaluator<B>>(
    b: B,
    p: Color,
    e: E,
    alpha: int,
    beta: int,
    depth: nat,
    order: MoveOrder,
)
    ensures
        search(b, p, e, alpha, beta, depth, order).0 is Some ==> legal_moves(b, p).contains(
            search(b, p, e, alpha, beta, depth, order).0.unwrap(),
        ),
{
    if b.king(p) && depth > 0 {
        let legal = legal_moves(b, p);
        let arranged = arrange(b, p, e, legal, order, depth);
        arrange_keeps_moves(b, p, e, legal, order, depth);
        scan_move_is_listed(b, p, e, arranged, 0, alpha, beta, depth, order, (None, no_move_score(depth)));
        let found = search(b, p, e, alpha, beta, depth, order).0;
        if found is Some {
            let k = choose|k: int| 0 <= k < arranged.len() && arranged[k] == found.unwrap();
            assert(legal.contains(arranged[k]));
        }
    }
}

proof fn scan_score_in_range<B: Board, E: Evaluator<B>>(
    b: B,
    p: Color,
    e: E,
    moves: Seq<Move>,
    i: nat,
    alpha: int,
    beta: int,
    depth: nat,
    order: MoveOrder,
    best: (Option<Move>, int),
)
    requires
        in_range::<B, E>(e),
        depth > 0,
        -INF - depth <= best.1 <= INF + depth,
        best.0 is None ==> best.1 == no_move_score(depth),
    ensures
        -INF - depth <= scan(b, p, e, moves, i, alpha, beta, depth, order, best).1 <= INF + depth,
        scan(b, p, e, moves, i, alpha, beta, depth, order, best).0 is None <==> best.0 is None && i
            >= moves.len(),
    decreases depth, 0nat, moves.len() - i,
{
    if i < moves.len() {
        let mv = moves[i as int];
        let below = (depth - 1) as nat;
        search_score_in_range(b.after(mv), p.opposite(), e, -beta, -alpha, below, order);
        let value = -search(b.after(mv), p.opposite(), e, -beta, -alpha, below, order).1;
        let better = if value >= best.1 {
            (Some(mv), value)
        } else {
            best
        };
        let raised = if value > alpha {
            value
        } else {
            alpha
        };
        if raised < beta {
            scan_score_in_range(b, p, e, moves, i + 1, raised, beta, depth, order, better);
        }
    }
}

/// With an evaluator that keeps its scores between `-INF` and `INF`, the score of
/// a search of `depth` plies lies between `-INF - depth` and `INF + depth`, and
/// the search returns no move exactly where the game has ended or no ply
/// remains: the player has lost the king, or has no legal move.
pub proof fn search_score_in_range<B: Board, E: Evaluator<B>>(
    b: B,
    p: Color,
    e: E,
    alpha: int,
    beta: int,
    depth: nat,
    order: MoveOrder,
)
    requires
        in_range::<B, E>(e),
    ensures
        -INF - depth <= search(b, p, e, alpha, beta, depth, order).1 <= INF + depth,
        search(b, p, e, alpha, beta, depth, order).0 is None <==> !b.king(p) || depth == 0
            || legal_moves(b, p).len() == 0,
    decreases depth, 1nat, 0nat,
{
    if b.king(p) && depth > 0 {
        let legal = legal_moves(b, p);
        let arranged = arrange(b, p, e, legal, order, depth);
        arrange_keeps_moves(b, p, e, legal, order, depth);
        scan_score_in_range(b, p, e, arranged, 0, alpha, beta, depth, order, (None, no_move_score(depth)));
    }
}

} // verus!
