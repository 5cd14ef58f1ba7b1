use vstd::prelude::*;
use crate::board::{Board, Move};
use crate::color::Color;
use crate::evaluator::Evaluator;
use crate::negamax::{
    agrees, arrange, legal_moves, legality, negamax, scan, search, search_agrees, shallow_keys,
    MoveOrder, INF, MAX_DEPTH,
};
use crate::outcome::{in_range, search_move_is_legal, search_score_in_range};
use crate::sorting::{index_seq, key_seq, sorted_indices};

verus! {

/// The legal moves of `player`, in the order in which they are generated, each
/// with the position that it leads to.
pub fn legal_children<B: Board>(board: &B, player: Color) -> (r: Vec<(Move, B)>)
    ensures
        r@.len() == legal_moves(*board, player).len(),
        forall|k: int|
            0 <= k < r@.len() ==> (#[trigger] r@[k]).0 == legal_moves(*board, player)[k] && r@[k].1
                == board.after(r@[k].0),
{
    let all = board.collect_moves(player);
    let mut children: Vec<(Move, B)> = Vec::new();
    let ghost legal = legality(*board, player);
    let mut i: usize = 0;
    proof {
        broadcast use vstd::seq_lib::group_filter_ensures;

        assert(all@.take(0).filter(legal).len() <= all@.take(0).len());
    }
    while i < all.len()
        invariant
            i <= all@.len(),
            all@ == board.moves(player),
            legal == legality(*board, player),
            children@.len() == all@.take(i as int).filter(legal).len(),
            forall|k: int|
                0 <= k < children@.len() ==> (#[trigger] children@[k]).0 == all@.take(
                    i as int,
                ).filter(legal)[k] && children@[k].1 == board.after(children@[k].0),
        decreases all@.len() - i,
    {
        let mv = all[i];
        assert(board.moves(player).contains(mv));
        let child = board.with_move(mv);
        proof {
            assert(all@.take(i + 1) =~= all@.take(i as int).push(mv));
            all@.take(i as int).lemma_filter_push(mv, legal);
        }
        if !child.is_check(player) {
            children.push((mv, child));
        }
        i += 1;
    }
    assert(all@.take(all@.len() as int) =~= all@);
    children
}

/// The shallow scores by which the moves of a node are ordered: for each position
/// that a move leads to, its score for `player`, negated where the order descends.
fn shallow_scores<B: Board, E: Evaluator<B>>(
    children: &Vec<(Move, B)>,
    player: Color,
    leaf_eval: &E,
    descending: bool,
) -> (keys: Vec<i32>)
    ensures
        keys@.len() == children@.len(),
        forall|k: int|
            0 <= k < keys@.len() ==> #[trigger] keys@[k] == if descending {
                -leaf_eval.score(children@[k].1, player)
            } else {
                leaf_eval.score(children@[k].1, player)
            },
{
    let mut keys: Vec<i32> = Vec::new();
    let mut k: usize = 0;
    while k < children.len()
        invariant
            k <= children@.len(),
            keys@.len() == k,
            forall|j: int|
                0 <= j < k ==> #[trigger] keys@[j] == if descending {
                    -leaf_eval.score(children@[j].1, player)
                } else {
                    leaf_eval.score(children@[j].1, player)
                },
        decreases children@.len() - k,
    {
        let score = leaf_eval.eval(&children[k].1, player);
        keys.push(if descending { -score } else { score });
        k += 1;
    }
    keys
}

/// The indices below `n`, in ascending order.
fn ascending_indices(n: usize) -> (order: Vec<usize>)
    ensures
        order@.len() == n,
        forall|i: int| 0 <= i < n ==> #[trigger] order@[i] == i,
{
    let mut order: Vec<usize> = Vec::new();
    let mut i: usize = 0;
    while i < n
        invariant
            i <= n,
            order@.len() == i,
            forall|j: int| 0 <= j < i ==> #[trigger] order@[j] == j,
        decreases n - i,
    {
        order.push(i);
        i += 1;
    }
    order
}

/// Negamax search with alpha-beta pruning, its moves searched in the given order.
///
/// A player without a king scores `-INF + depth`, whatever else holds. With no ply
/// remaining the score is the leaf evaluator's. Else the legal moves are searched
/// in turn, each with the opponent to move and the window negated and swapped:
/// the best score wins, of equal scores the one found later, and the node is left
/// as soon as a score reaches `beta`. With no legal move the score is
/// `-INF - depth`, and no move is returned.
///
/// The search calls itself once for each ply: it needs a stack for `depth` calls
/// on top of one another.
pub fn alphabeta_with<B: Board, E: Evaluator<B>>(
    board: &B,
    player: Color,
    leaf_eval: &E,
    alpha: i32,
    beta: i32,
    depth: u32,
    order: MoveOrder,
) -> (r: (Option<Move>, i32))
    requires
        depth <= MAX_DEPTH,
        alpha > i32::MIN,
        beta > i32::MIN,
    ensures
        r.0 == search(*board, player, *leaf_eval, alpha as int, beta as int, depth as nat, order).0,
        r.1 == search(*board, player, *leaf_eval, alpha as int, beta as int, depth as nat, order).1,
        r.1 > i32::MIN,
        alpha < beta ==> agrees(
            r.1 as int,
            negamax(*board, player, *leaf_eval, depth as nat),
            alpha as int,
            beta as int,
        ),
        r.0 is Some ==> legal_moves(*board, player).contains(r.0.unwrap()),
        in_range::<B, E>(*leaf_eval) ==> (r.0 is None <==> !board.king(player) || depth == 0
            || legal_moves(*board, player).len() == 0),
    decreases depth,
{
    proof {
        let e = *leaf_eval;
        if alpha < beta {
            search_agrees(*board, player, e, alpha as int, beta as int, depth as nat, order);
        }
        search_move_is_legal(*board, player, e, alpha as int, beta as int, depth as nat, order);
        if in_range::<B, E>(e) {
            search_score_in_range(*board, player, e, alpha as int, beta as int, depth as nat, order);
        }
    }
    if !board.has_king(player) {
        return (None, -INF + (depth as i32));
    }
    if depth == 0 {
        return (None, leaf_eval.eval(board, player));
    }
    let ghost target = search(
        *board,
        player,
        *leaf_eval,
        alpha as int,
        beta as int,
        depth as nat,
        order,
    );
    let ghost legal = legal_moves(*board, player);
    let ghost arranged = arrange(*board, player, *leaf_eval, legal, order, depth as nat);
    let children = legal_children(board, player);
    let n = children.len();
    let visit = if depth > 1 && order != MoveOrder::Generated {
        let keys = shallow_scores(&children, player, leaf_eval, order == MoveOrder::Descending);
        assert(key_seq(keys@) =~= shallow_keys(*board, player, *leaf_eval, order, legal));
        sorted_indices(&keys)
    } else {
        ascending_indices(n)
    };
    assert forall|i: int| 0 <= i < n implies arranged[i] == children@[#[trigger] visit@[i] as int].0 by {
        if depth > 1 && order != MoveOrder::Generated {
            assert(index_seq(visit@)[i] == visit@[i]);
        }
    }

    let mut best_value: i32 = -INF - (depth as i32);
    let mut best_move: Option<Move> = None;
    let mut alpha = alpha;
    let mut i: usize = 0;
    while i < n
        invariant_except_break
            scan(
                *board,
                player,
                *leaf_eval,
                arranged,
                i as nat,
                alpha as int,
                beta as int,
                depth as nat,
                order,
                (best_move, best_value as int),
            ) == target,
        invariant
            i <= n,
            n == arranged.len(),
            n == children@.len(),
            visit@.len() == n,
            0 < depth <= MAX_DEPTH,
            alpha > i32::MIN,
            beta > i32::MIN,
            best_value > i32::MIN,
            forall|j: int| 0 <= j < n ==> #[trigger] visit@[j] < n,
            forall|j: int| 0 <= j < n ==> arranged[j] == children@[#[trigger] visit@[j] as int].0,
            forall|k: int| 0 <= k < n ==> (#[trigger] children@[k]).1 == board.after(children@[k].0),
        ensures
            best_move == target.0,
            best_value == target.1,
            best_value > i32::MIN,
        decreases n - i,
    {
        let k = visit[i];
        let mv = children[k].0;
        let (_, value) = alphabeta_with(
            &children[k].1,
            player.opposite(),
            leaf_eval,
            -beta,
            -alpha,
            depth - 1,
            order,
        );
        let value = -value;
        if value >= best_value {
            best_value = value;
            best_move = Some(mv);
        }
        if value > alpha {
            alpha = value;
        }
        if alpha >= beta {
            break;
        }
        i += 1;
    }
    (best_move, best_value)
}

/// Negamax search with alpha-beta pruning, the moves of each node ordered by
/// ascending shallow score where at least two plies remain.
pub fn alphabeta_<B: Board, E: Evaluator<B>>(
    board: &B,
    player: Color,
    leaf_eval: &E,
    alpha: i32,
    beta: i32,
    depth: u32,
) -> (r: (Option<Move>, i32))
    requires
        depth <= MAX_DEPTH,
        alpha > i32::MIN,
        beta > i32::MIN,
    ensures
        r.0 == search(
            *board,
            player,
            *leaf_eval,
            alpha as int,
            beta as int,
            depth as nat,
            MoveOrder::Ascending,
        ).0,
        r.1 == search(
            *board,
            player,
            *leaf_eval,
            alpha as int,
            beta as int,
            depth as nat,
            MoveOrder::Ascending,
        ).1,
        r.1 > i32::MIN,
        alpha < beta ==> agrees(
            r.1 as int,
            negamax(*board, player, *leaf_eval, depth as nat),
            alpha as int,
            beta as int,
        ),
        r.0 is Some ==> legal_moves(*board, player).contains(r.0.unwrap()),
        in_range::<B, E>(*leaf_eval) ==> (r.0 is None <==> !board.king(player) || depth == 0
            || legal_moves(*board, player).len() == 0),
{
    alphabeta_with(board, player, leaf_eval, alpha, beta, depth, MoveOrder::Ascending)
}

/// How good the position is for `player`, looking `depth` plies ahead: the score
/// of the search with the widest window. Good scores are positive and bad ones
/// negative, whoever the player is. Where the negamax value lies between `-INF`
/// and `INF`, the score is that value.
pub fn alphabeta<B: Board, E: Evaluator<B>>(board: &B, player: Color, leaf_eval: &E, depth: u32) -> (r: i32)
    requires
        depth <= MAX_DEPTH,
    ensures
        r == search(
            *board,
            player,
            *leaf_eval,
            -INF as int,
            INF as int,
            depth as nat,
            MoveOrder::Ascending,
        ).1,
        agrees(r as int, negamax(*board, player, *leaf_eval, depth as nat), -INF as int, INF as int),
        -INF < negamax(*board, player, *leaf_eval, depth as nat) < INF ==> r == negamax(
            *board,
            player,
            *leaf_eval,
            depth as nat,
        ),
        r > i32::MIN,
{
    alphabeta_(board, player, leaf_eval, -INF, INF, depth).1
}

} // verus!
