use vstd::prelude::*;
use crate::board::{Board, Move};
use crate::color::Color;
use crate::evaluator::{symmetric, Evaluator};
use crate::sorting::{sorted_order, sorted_order_is_stable};

verus! {

/// The score that stands for infinity: the widest window is `(-INF, INF)`.
pub const INF: i32 = 1_000_000_000;

/// The greatest number of plies that a search may look ahead: with more, the
/// terminal scores would leave the range of `i32`.
pub const MAX_DEPTH: u32 = 1_147_483_647;

/// The order in which a node's legal moves are searched, where at least two plies
/// remain. It bears on how much is pruned.
#[derive(Clone, Copy, PartialEq, Eq, Debug, Structural)]
pub enum MoveOrder {
    /// As the position generates them.
    Generated,
    /// By ascending shallow score of the position they lead to.
    Ascending,
    /// By descending shallow score of the position they lead to.
    Descending,
}

/// The score of a player who has lost the king, with `depth` plies remaining.
pub open spec fn king_loss_score(depth: nat) -> int {
    -INF + depth
}

/// The score of a player who has no legal move, with `depth` plies remaining.
pub open spec fn no_move_score(depth: nat) -> int {
    -INF - depth
}

/// A move is legal if it does not leave the mover's own king in check.
pub open spec fn is_legal<B: Board>(b: B, p: Color, mv: Move) -> bool {
    !b.after(mv).in_check(p)
}

/// Legality, as a predicate on the moves of `p`.
pub open spec fn legality<B: Board>(b: B, p: Color) -> spec_fn(Move) -> bool {
    |mv: Move| is_legal(b, p, mv)
}

/// The legal moves of `p`, in the order in which they are generated.
pub open spec fn legal_moves<B: Board>(b: B, p: Color) -> Seq<Move> {
    b.moves(p).filter(legality(b, p))
}

/// The value of a position for the player to move, looking `depth` plies ahead:
/// plain negamax, with nothing pruned.
pub open spec fn negamax<B: Board, E: Evaluator<B>>(b: B, p: Color, e: E, depth: nat) -> int
    decreases depth, 2nat, 0nat,
{
    if !b.king(p) {
        king_loss_score(depth)
    } else if depth == 0 {
        e.score(b, p)
    } else {
        best_reply(b, p, e, legal_moves(b, p), legal_moves(b, p).len(), depth)
    }
}

/// What a move is worth to the mover `p`, with `depth` plies remaining before it:
/// the negated value of the position it leads to, for the opponent.
pub open spec fn reply_value<B: Board, E: Evaluator<B>>(
    b: B,
    p: Color,
    e: E,
    mv: Move,
    depth: nat,
) -> int
    decreases depth, 0nat, 0nat,
{
    if depth == 0 {
        0
    } else {
        -negamax(b.after(mv), p.opposite(), e, (depth - 1) as nat)
    }
}

/// The greatest of the values of the first `n` of `moves` and of the score for
/// having no move.
pub open spec fn best_reply<B: Board, E: Evaluator<B>>(
    b: B,
    p: Color,
    e: E,
    moves: Seq<Move>,
    n: nat,
    depth: nat,
) -> int
    decreases depth, 1nat, n,
{
    if n == 0 || n > moves.len() {
        no_move_score(depth)
    } else {
        let rest = best_reply(b, p, e, moves, (n - 1) as nat, depth);
        let value = reply_value(b, p, e, moves[n - 1], depth);
        if value >= rest {
            value
        } else {
            rest
        }
    }
}

/// The score by which a move is ordered before the search goes deeper.
pub open spec fn shallow_key<B: Board, E: Evaluator<B>>(
    b: B,
    p: Color,
    e: E,
    order: MoveOrder,
    mv: Move,
) -> int {
    match order {
        MoveOrder::Generated => 0,
        MoveOrder::Ascending => e.score(b.after(mv), p),
        MoveOrder::Descending => -e.score(b.after(mv), p),
    }
}

/// The shallow scores of `moves`, one for each.
pub open spec fn shallow_keys<B: Board, E: Evaluator<B>>(
    b: B,
    p: Color,
    e: E,
    order: MoveOrder,
    moves: Seq<Move>,
) -> Seq<int> {
    Seq::new(moves.len(), |i: int| shallow_key(b, p, e, order, moves[i]))
}

/// The moves in the order in which they are searched: sorted by shallow score,
/// moves of equal score in the order they had, where at least two plies remain;
/// else as they are.
pub open spec fn arrange<B: Board, E: Evaluator<B>>(
    b: B,
    p: Color,
    e: E,
    moves: Seq<Move>,
    order: MoveOrder,
    depth: nat,
) -> Seq<Move> {
    if depth > 1 && order != MoveOrder::Generated {
        let visit = sorted_order(shallow_keys(b, p, e, order, moves));
        Seq::new(moves.len(), |i: int| moves[visit[i]])
    } else {
        moves
    }
}

/// What the pruned search returns: the move it settles on, if any, and the score.
pub open spec fn search<B: Board, E: Evaluator<B>>(
    b: B,
    p: Color,
    e: E,
    alpha: int,
    beta: int,
    depth: nat,
    order: MoveOrder,
) -> (Option<Move>, int)
    decreases depth, 1nat, 0nat,
{
    if !b.king(p) {
        (None, king_loss_score(depth))
    } else if depth == 0 {
        (None, e.score(b, p))
    } else {
        scan(
            b,
            p,
            e,
            arrange(b, p, e, legal_moves(b, p), order, depth),
            0,
            alpha,
            beta,
            depth,
            order,
            (None, no_move_score(depth)),
        )
    }
}

/// The search of one node from its move number `i` on, with the window and the
/// best result that the moves before it have left. A move that scores at least as
/// well as the best so far replaces it; the search of the node ends as soon as the
/// window is empty.
pub open spec fn scan<B: Board, E: Evaluator<B>>(
    b: B,
    p: Color,
    e: E,
    moves: Seq<Move>,
    i: nat,
    alpha: int,
    beta: int,
    depth: nat,
    order: MoveOrder,
    best: (Option<Move>, int),
) -> (Option<Move>, int)
    decreases depth, 0nat, moves.len() - i,
{
    if i >= moves.len() || depth == 0 {
        best
    } else {
        let mv = moves[i as int];
        let value = -search(b.after(mv), p.opposite(), e, -beta, -alpha, (depth - 1) as nat, order).1;
        let better = if value >= best.1 {
            (Some(mv), value)
        } else {
            best
        };
        let raised = if value > alpha {
            value
        } else {
            alpha
        };
        if raised >= beta {
            better
        } else {
            scan(b, p, e, moves, i + 1, raised, beta, depth, order, better)
        }
    }
}

/// How a score `found` inside or outside a window relates to the true value: equal
/// to it inside the window, and on the same side of the window as it outside.
pub open spec fn agrees(found: int, value: int, alpha: int, beta: int) -> bool {
    &&& found <= alpha ==> value <= found
    &&& alpha < found < beta ==> value == found
    &&& found >= beta ==> found <= value
}

/// Two sequences hold the same moves, whatever their order.
pub open spec fn same_moves(a: Seq<Move>, b: Seq<Move>) -> bool {
    &&& forall|i: int| 0 <= i < a.len() ==> b.contains(#[trigger] a[i])
    &&& forall|i: int| 0 <= i < b.len() ==> a.contains(#[trigger] b[i])
}

/// The best reply is the greatest of the moves' values and the score for having no
/// move.
pub proof fn best_reply_is_greatest<B: Board, E: Evaluator<B>>(
    b: B,
    p: Color,
    e: E,
    moves: Seq<Move>,
    n: nat,
    depth: nat,
)
    requires
        n <= moves.len(),
    ensures
        best_reply(b, p, e, moves, n, depth) >= no_move_score(depth),
        forall|j: int|
            0 <= j < n ==> #[trigger] reply_value(b, p, e, moves[j], depth) <= best_reply(
                b,
                p,
                e,
                moves,
                n,
                depth,
            ),
        best_reply(b, p, e, moves, n, depth) == no_move_score(depth) || exists|j: int|
            0 <= j < n && #[trigger] reply_value(b, p, e, moves[j], depth) == best_reply(
                b,
                p,
                e,
                moves,
                n,
                depth,
            ),
    decreases n,
{
    if n > 0 {
        best_reply_is_greatest(b, p, e, moves, (n - 1) as nat, depth);
        let rest = best_reply(b, p, e, moves, (n - 1) as nat, depth);
        let value = reply_value(b, p, e, moves[n - 1], depth);
        let best = best_reply(b, p, e, moves, n, depth);
        if value >= rest {
            assert(reply_value(b, p, e, moves[n - 1], depth) == best);
        } else if rest != no_move_score(depth) {
            let j = choose|j: int|
                0 <= j < n - 1 && #[trigger] reply_value(b, p, e, moves[j], depth) == rest;
            assert(reply_value(b, p, e, moves[j], depth) == best);
        }
    }
}

/// The best reply does not depend on the order of the moves.
pub proof fn best_reply_of_same_moves<B: Board, E: Evaluator<B>>(
    b: B,
    p: Color,
    e: E,
    first: Seq<Move>,
    second: Seq<Move>,
    depth: nat,
)
    requires
        same_moves(first, second),
    ensures
        best_reply(b, p, e, first, first.len(), depth) == best_reply(
            b,
            p,
            e,
            second,
            second.len(),
            depth,
        ),
{
    best_reply_is_greatest(b, p, e, first, first.len(), depth);
    best_reply_is_greatest(b, p, e, second, second.len(), depth);
    let one = best_reply(b, p, e, first, first.len(), depth);
    let two = best_reply(b, p, e, second, second.len(), depth);
    if one != no_move_score(depth) {
        let j = choose|j: int|
            0 <= j < first.len() && #[trigger] reply_value(b, p, e, first[j], depth) == one;
        assert(second.contains(first[j]));
        let k = choose|k: int| 0 <= k < second.len() && second[k] == first[j];
        assert(reply_value(b, p, e, second[k], depth) <= two);
    }
    if two != no_move_score(depth) {
        let j = choose|j: int|
            0 <= j < second.len() && #[trigger] reply_value(b, p, e, second[j], depth) == two;
        assert(first.contains(second[j]));
        let k = choose|k: int| 0 <= k < first.len() && first[k] == second[j];
        assert(reply_value(b, p, e, first[k], depth) <= one);
    }
}

/// With more moves counted the best reply does not get worse.
pub proof fn best_reply_grows<B: Board, E: Evaluator<B>>(
    b: B,
    p: Color,
    e: E,
    moves: Seq<Move>,
    n: nat,
    m: nat,
    depth: nat,
)
    requires
        n <= m <= moves.len(),
    ensures
        best_reply(b, p, e, moves, n, depth) <= best_reply(b, p, e, moves, m, depth),
    decreases m - n,
{
    if n < m {
        best_reply_grows(b, p, e, moves, n, (m - 1) as nat, depth);
    }
}

/// Ordering the moves rearranges them: none is lost and none is added.
pub proof fn arrange_keeps_moves<B: Board, E: Evaluator<B>>(
    b: B,
    p: Color,
    e: E,
    moves: Seq<Move>,
    order: MoveOrder,
    depth: nat,
)
    ensures
        arrange(b, p, e, moves, order, depth).len() == moves.len(),
        same_moves(arrange(b, p, e, moves, order, depth), moves),
{
    let arranged = arrange(b, p, e, moves, order, depth);
    if depth > 1 && order != MoveOrder::Generated {
        let keys = shallow_keys(b, p, e, order, moves);
        let visit = sorted_order(keys);
        sorted_order_is_stable(keys);
        assert forall|i: int| 0 <= i < arranged.len() implies moves.contains(
            #[trigger] arranged[i],
        ) by {
            assert(0 <= visit[i] < moves.len());
            assert(moves[visit[i]] == arranged[i]);
        }
        assert forall|i: int| 0 <= i < moves.len() implies arranged.contains(
            #[trigger] moves[i],
        ) by {
            assert(visit.contains(i));
            let k = choose|k: int| 0 <= k < visit.len() && visit[k] == i;
            assert(arranged[k] == moves[i]);
        }
    } else {
        assert forall|i: int| 0 <= i < moves.len() implies moves.contains(#[trigger] moves[i]) by {}
    }
}

/// The pruned search of a node from move `i` on agrees with the best reply over
/// all its moves, if what was found before move `i` agrees with the best reply
/// over the moves before it.
proof fn scan_agrees<B: Board, E: Evaluator<B>>(
    b: B,
    p: Color,
    e: E,
    moves: Seq<Move>,
    i: nat,
    floor: int,
    alpha: int,
    beta: int,
    depth: nat,
    order: MoveOrder,
    best: (Option<Move>, int),
)
    requires
        depth > 0,
        i <= moves.len(),
        floor <= alpha < beta,
        alpha <= floor || alpha <= best.1,
        no_move_score(depth) <= best.1,
        best.1 > floor ==> best.1 <= best_reply(b, p, e, moves, i, depth),
        best_reply(b, p, e, moves, i, depth) <= best.1,
    ensures
        agrees(
            scan(b, p, e, moves, i, alpha, beta, depth, order, best).1,
            best_reply(b, p, e, moves, moves.len(), depth),
            floor,
            beta,
        ),
    decreases depth, 0nat, moves.len() - i,
{
    if i < moves.len() {
        let mv = moves[i as int];
        let below = (depth - 1) as nat;
        search_agrees(b.after(mv), p.opposite(), e, -beta, -alpha, below, order);
        let value = -search(b.after(mv), p.opposite(), e, -beta, -alpha, below, order).1;
        let truth = reply_value(b, p, e, mv, depth);
        assert(value < beta ==> truth <= value);
        assert(value > alpha ==> truth >= value);
        let better = if value >= best.1 {
            (Some(mv), value)
        } else {
            best
        };
        let raised = if value > alpha {
            value
        } else {
            alpha
        };
        let next = (i + 1) as nat;
        assert(best_reply(b, p, e, moves, next, depth) == if truth >= best_reply(
            b,
            p,
            e,
            moves,
            i,
            depth,
        ) {
            truth
        } else {
            best_reply(b, p, e, moves, i, depth)
        });
        if raised >= beta {
            best_reply_grows(b, p, e, moves, next, moves.len(), depth);
        } else {
            scan_agrees(b, p, e, moves, next, floor, raised, beta, depth, order, better);
        }
    }
}

/// The pruned search agrees with plain negamax: it returns the negamax value where
/// that lies inside the window, and else a score on the same side of the window as
/// the negamax value. This holds in whatever order the moves are searched.
pub proof fn search_agrees<B: Board, E: Evaluator<B>>(
    b: B,
    p: Color,
    e: E,
    alpha: int,
    beta: int,
    depth: nat,
    order: MoveOrder,
)
    requires
        alpha < beta,
    ensures
        agrees(search(b, p, e, alpha, beta, depth, order).1, negamax(b, p, e, depth), alpha, beta),
    decreases depth, 1nat, 0nat,
{
    if b.king(p) && depth > 0 {
        let legal = legal_moves(b, p);
        let arranged = arrange(b, p, e, legal, order, depth);
        arrange_keeps_moves(b, p, e, legal, order, depth);
        best_reply_of_same_moves(b, p, e, arranged, legal, depth);
        scan_agrees(b, p, e, arranged, 0, alpha, alpha, beta, depth, order, (None, no_move_score(depth)));
    }
}

/// The order in which the moves are searched does not change the score, wherever
/// the negamax value lies inside the window: the score is then the negamax value.
pub proof fn move_order_is_transparent<B: Board, E: Evaluator<B>>(
    b: B,
    p: Color,
    e: E,
    alpha: int,
    beta: int,
    depth: nat,
    first: MoveOrder,
    second: MoveOrder,
)
    requires
        alpha < negamax(b, p, e, depth) < beta,
    ensures
        search(b, p, e, alpha, beta, depth, first).1 == negamax(b, p, e, depth),
        search(b, p, e, alpha, beta, depth, first).1 == search(b, p, e, alpha, beta, depth, second).1,
{
    search_agrees(b, p, e, alpha, beta, depth, first);
    search_agrees(b, p, e, alpha, beta, depth, second);
}

/// With no ply remaining and both kings on the board, what one player scores the
/// other scores with the opposite sign, if the evaluator counts the same for both.
pub proof fn leaf_scores_are_zero_sum<B: Board, E: Evaluator<B>>(
    b: B,
    e: E,
    alpha: int,
    beta: int,
    order: MoveOrder,
)
    requires
        symmetric::<B, E>(e),
        b.king(Color::White),
        b.king(Color::Black),
    ensures
        search(b, Color::White, e, alpha, beta, 0, order).1 == -search(
            b,
            Color::Black,
            e,
            alpha,
            beta,
            0,
            order,
        ).1,
        negamax(b, Color::White, e, 0) == -negamax(b, Color::Black, e, 0),
{
    assert(e.score(b, Color::White) == -e.score(b, Color::Black));
}

/// The mover's value is the opponent's loss: with a king and a ply remaining, the
/// value of a position is the greatest of the negated values, for the opponent,
/// of the positions that the legal moves lead to, and of the score for having no
/// move.
pub proof fn negamax_is_zero_sum<B: Board, E: Evaluator<B>>(b: B, p: Color, e: E, depth: nat)
    requires
        b.king(p),
        depth > 0,
    ensures
        negamax(b, p, e, depth) >= no_move_score(depth),
        forall|i: int|
            0 <= i < legal_moves(b, p).len() ==> negamax(b, p, e, depth) >= -#[trigger] negamax(
                b.after(legal_moves(b, p)[i]),
                p.opposite(),
                e,
                (depth - 1) as nat,
            ),
        negamax(b, p, e, depth) == no_move_score(depth) || exists|i: int|
            0 <= i < legal_moves(b, p).len() && negamax(b, p, e, depth) == -#[trigger] negamax(
                b.after(legal_moves(b, p)[i]),
                p.opposite(),
                e,
                (depth - 1) as nat,
            ),
{
    let legal = legal_moves(b, p);
    best_reply_is_greatest(b, p, e, legal, legal.len(), depth);
    assert forall|i: int| 0 <= i < legal.len() implies negamax(b, p, e, depth) >= -#[trigger] negamax(
        b.after(legal[i]),
        p.opposite(),
        e,
        (depth - 1) as nat,
    ) by {
        assert(reply_value(b, p, e, legal[i], depth) <= negamax(b, p, e, depth));
    }
    if negamax(b, p, e, depth) != no_move_score(depth) {
        let i = choose|i: int|
            0 <= i < legal.len() && #[trigger] reply_value(b, p, e, legal[i], depth) == negamax(
                b,
                p,
                e,
                depth,
            );
        assert(negamax(b, p, e, depth) == -negamax(
            b.after(legal[i]),
            p.opposite(),
            e,
            (depth - 1) as nat,
        ));
    }
}

} // verus!
