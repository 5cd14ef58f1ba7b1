use chess_engine::alphabeta::{alphabeta, alphabeta_, alphabeta_with, legal_children};
use chess_engine::board::{pos, Board, Move, Pos};
use chess_engine::color::Color;
use chess_engine::color::Color::{Black, White};
use chess_engine::engine::{collect_legal_moves, Engine, Lookahead0, Random};
use chess_engine::evaluator::Evaluator;
use chess_engine::greedy::Greedy;
use chess_engine::lookahead1::Lookahead1;
use chess_engine::negamax::{MoveOrder, INF, MAX_DEPTH};
use chess_engine::par_alphabeta::{score_reply, ParAlphaBeta};
use chess_engine::parse_engine::{parse_engine, NamedEngine, UnknownEngine};
use chess_engine::piece_value::{material, material_value, Material};
use chess_engine::select::{best_moves, pick, pick_at, score_moves, select_move};
use chess_engine::seq_alphabeta::AlphaBeta;
use chess_engine::square::Square;
use rand::rngs::StdRng;
use rand::SeedableRng;

/// A board of 64 squares, row by row from the top, with the moves of chess but
/// castling and capturing in passing. A pawn that reaches the far row becomes a
/// queen.
#[derive(Clone, Debug, PartialEq, Eq)]
struct Mailbox {
    cells: [Square; 64],
}

const ROOK_STEPS: [(i32, i32); 4] = [(-1, 0), (1, 0), (0, -1), (0, 1)];
const BISHOP_STEPS: [(i32, i32); 4] = [(-1, -1), (-1, 1), (1, -1), (1, 1)];
const KNIGHT_STEPS: [(i32, i32); 8] =
    [(-2, -1), (-2, 1), (-1, -2), (-1, 2), (1, -2), (1, 2), (2, -1), (2, 1)];

impl Mailbox {
    fn from_str(diagram: &str) -> Mailbox {
        let marks: Vec<Square> = diagram
            .chars()
            .filter(|c| !c.is_whitespace())
            .map(|c| Square::try_from(c).unwrap())
            .collect();
        assert_eq!(marks.len(), 64);
        let mut cells = [Square::Empty; 64];
        cells.copy_from_slice(&marks);
        Mailbox { cells }
    }

    fn get(&self, row: i32, col: i32) -> Option<Square> {
        if (0..8).contains(&row) && (0..8).contains(&col) {
            Some(self.cells[(row * 8 + col) as usize])
        } else {
            None
        }
    }

    fn step_to(&self, moves: &mut Vec<Move>, from: (i32, i32), to: (i32, i32), piece: Square) -> bool {
        let mover = self.cells[(from.0 * 8 + from.1) as usize];
        match self.get(to.0, to.1) {
            None => false,
            Some(target) => {
                if target.color() == mover.color() {
                    return false;
                }
                moves.push(Move {
                    from: pos(from.0 as u8, from.1 as u8),
                    to: pos(to.0 as u8, to.1 as u8),
                    piece,
                });
                target.is_empty()
            }
        }
    }

    fn slide(&self, moves: &mut Vec<Move>, from: (i32, i32), steps: &[(i32, i32)], piece: Square) {
        for (dr, dc) in steps {
            let mut to = (from.0 + dr, from.1 + dc);
            while self.step_to(moves, from, to, piece) {
                to = (to.0 + dr, to.1 + dc);
            }
        }
    }

    fn pawn(&self, moves: &mut Vec<Move>, from: (i32, i32), piece: Square) {
        let white = piece == Square::WPawn;
        let (dir, home, far) = if white { (-1, 6, 0) } else { (1, 1, 7) };
        let arrives = |row: i32| {
            if row != far {
                piece
            } else if white {
                Square::WQueen
            } else {
                Square::BQueen
            }
        };
        let ahead = from.0 + dir;
        if self.get(ahead, from.1) == Some(Square::Empty) {
            self.step_to(moves, from, (ahead, from.1), arrives(ahead));
            if from.0 == home && self.get(ahead + dir, from.1) == Some(Square::Empty) {
                self.step_to(moves, from, (ahead + dir, from.1), piece);
            }
        }
        for dc in [-1, 1] {
            if let Some(target) = self.get(ahead, from.1 + dc) {
                if !target.is_empty() && target.color() != piece.color() {
                    self.step_to(moves, from, (ahead, from.1 + dc), arrives(ahead));
                }
            }
        }
    }
}

impl Board for Mailbox {
    fn moves(&self, _player: Color) -> vstd::seq::Seq<Move> {
        unreachable!()
    }

    fn after(&self, _mv: Move) -> Self {
        unreachable!()
    }

    fn in_check(&self, _player: Color) -> bool {
        unreachable!()
    }

    fn king(&self, _player: Color) -> bool {
        unreachable!()
    }

    fn piece(&self, _pos: Pos) -> Square {
        unreachable!()
    }

    fn collect_moves(&self, player: Color) -> Vec<Move> {
        let mut moves = Vec::new();
        for row in 0..8 {
            for col in 0..8 {
                let piece = self.cells[(row * 8 + col) as usize];
                if !piece.is_color(player) {
                    continue;
                }
                let from = (row, col);
                match piece {
                    Square::WPawn | Square::BPawn => self.pawn(&mut moves, from, piece),
                    Square::WRook | Square::BRook => self.slide(&mut moves, from, &ROOK_STEPS, piece),
                    Square::WBisshop | Square::BBisshop => {
                        self.slide(&mut moves, from, &BISHOP_STEPS, piece)
                    }
                    Square::WQueen | Square::BQueen => {
                        self.slide(&mut moves, from, &ROOK_STEPS, piece);
                        self.slide(&mut moves, from, &BISHOP_STEPS, piece);
                    }
                    Square::WKnight | Square::BKnight => {
                        for (dr, dc) in KNIGHT_STEPS {
                            self.step_to(&mut moves, from, (row + dr, col + dc), piece);
                        }
                    }
                    _ => {
                        for (dr, dc) in ROOK_STEPS.iter().chain(BISHOP_STEPS.iter()) {
                            self.step_to(&mut moves, from, (row + dr, col + dc), piece);
                        }
                    }
                }
            }
        }
        moves
    }

    fn with_move(&self, mv: Move) -> Self {
        let mut next = self.clone();
        next.cells[mv.from.row as usize * 8 + mv.from.col as usize] = Square::Empty;
        next.cells[mv.to.row as usize * 8 + mv.to.col as usize] = mv.piece;
        next
    }

    fn is_check(&self, player: Color) -> bool {
        self.collect_moves(player.opposite())
            .iter()
            .any(|mv| self.at(mv.to).is_king() && self.at(mv.to).is_color(player))
    }

    fn has_king(&self, player: Color) -> bool {
        self.cells.iter().any(|sq| sq.is_king() && sq.is_color(player))
    }

    fn at(&self, pos: Pos) -> Square {
        self.cells[pos.row as usize * 8 + pos.col as usize]
    }
}

fn board(diagram: &str) -> Mailbox {
    Mailbox::from_str(diagram)
}

fn rook_endgame() -> Mailbox {
    board(
        r"
		. . . . R . . k
		. . . . R . . .
		. . . . . . . .
		. . . . . . . .
		. . . . . . . .
		. . . . . . . .
		. . . . . . . .
		. . . . . . . K
		",
    )
}

fn queen_and_pawns() -> Mailbox {
    board(
        r"
		. . . . . . . .
		. . . . . p . .
		. . . . p . . .
		. . . . . . . .
		. . . . . . . .
		. . . . Q . . .
		. . . . . . . .
		k . . . . . . K
		",
    )
}

fn white_queen_hunts() -> Mailbox {
    board(
        r"
		Q . . p p p . k
		. . . . . . . .
		. . . . . . . .
		. . . . . . . .
		. . . . . . . .
		. . . . . . . .
		. . . . . . . .
		. . . . . . . K
		",
    )
}

fn black_queen_hunts() -> Mailbox {
    board(
        r"
		. . . . . . . k
		. . . . . . . .
		. . . . . . . .
		. . . . . . . .
		. . . . . . . .
		. . . . . . . .
		. . . . . . . .
		q . . P P P . K
		",
    )
}

fn start() -> Mailbox {
    board(
        r"
		r n b q k b n r
		p p p p p p p p
		. . . . . . . .
		. . . . . . . .
		. . . . . . . .
		. . . . . . . .
		P P P P P P P P
		R N B Q K B N R
		",
    )
}

fn positions() -> Vec<Mailbox> {
    vec![rook_endgame(), queen_and_pawns(), white_queen_hunts(), black_queen_hunts(), start()]
}

#[test]
fn test_alphabeta_mate() {
    let board = rook_endgame();

    assert_eq!(alphabeta(&board, White, &Material, 0), 10);
    assert_eq!(alphabeta(&board, Black, &Material, 0), -10);

    assert_eq!(alphabeta(&board, White, &Material, 1), INF);
}

#[test]
fn test_alpahbeta_1() {
    let board = queen_and_pawns();

    assert_eq!(alphabeta(&board, White, &Material, 0), 7);
    assert_eq!(alphabeta(&board, Black, &Material, 0), -7);

    assert_eq!(alphabeta(&board, White, &Material, 1), 8); // white greedily takes a pawn
    assert_eq!(alphabeta(&board, Black, &Material, 1), -7);

    assert_eq!(alphabeta(&board, White, &Material, 2), 7); // white sees that the pawn is protected
}

#[test]
fn test_alphabeta_2() {
    let board = white_queen_hunts();

    assert_eq!(alphabeta(&board, White, &Material, 0), 6);
    assert_eq!(alphabeta(&board, Black, &Material, 0), -6);

    assert_eq!(alphabeta(&board, White, &Material, 1), 7);
    assert_eq!(alphabeta(&board, Black, &Material, 1), -6);

    assert_eq!(alphabeta(&board, White, &Material, 2), 7);
    assert_eq!(alphabeta(&board, Black, &Material, 2), -7);

    assert_eq!(alphabeta(&board, White, &Material, 3), 8);
    assert_eq!(alphabeta(&board, Black, &Material, 3), -7);

    assert_eq!(alphabeta(&board, White, &Material, 4), 8);
    assert_eq!(alphabeta(&board, Black, &Material, 4), -8);
}

#[test]
fn test_alphabeta_3() {
    let board = black_queen_hunts();

    assert_eq!(alphabeta(&board, Black, &Material, 0), 6);
    assert_eq!(alphabeta(&board, White, &Material, 0), -6);

    assert_eq!(alphabeta(&board, Black, &Material, 1), 7);
    assert_eq!(alphabeta(&board, White, &Material, 1), -6);

    assert_eq!(alphabeta(&board, Black, &Material, 2), 7);
    assert_eq!(alphabeta(&board, White, &Material, 2), -7);

    assert_eq!(alphabeta(&board, Black, &Material, 3), 8);
    assert_eq!(alphabeta(&board, White, &Material, 3), -7);

    assert_eq!(alphabeta(&board, Black, &Material, 4), 8);
    assert_eq!(alphabeta(&board, White, &Material, 4), -8);
}

#[test]
fn mated_side_scores_below_minus_inf() {
    let board = rook_endgame();
    // Black is in check and every king move stays in check.
    assert!(legal_children(&board, Black).is_empty());
    assert_eq!(alphabeta_(&board, Black, &Material, -INF, INF, 1), (None, -INF - 1));
    assert_ne!(alphabeta(&board, Black, &Material, 1), -INF);
    assert_eq!(alphabeta(&board, Black, &Material, 2), -INF - 2);
    assert_eq!(alphabeta(&board, Black, &Material, 7), -INF - 7);
}

#[test]
fn lost_king_scores_by_depth() {
    let board = board(
        r"
		. . . . . . . k
		. . . . . . . .
		. . . . . . . .
		. . . Q . . . .
		. . . . . . . .
		. . . . . . . .
		. . . . . . . .
		. . . . . . . .
		",
    );
    for depth in [0, 1, 2, 5, 1000, MAX_DEPTH] {
        assert_eq!(
            alphabeta_(&board, White, &Material, -INF, INF, depth),
            (None, -INF + depth as i32)
        );
    }
    // the king is missed before the leaf is scored
    assert_eq!(material(&board, White), 9 - 1000);
    assert_eq!(alphabeta(&board, White, &Material, 0), -INF);
}

#[test]
fn leaf_returns_no_move() {
    for board in positions() {
        for player in [White, Black] {
            assert_eq!(
                alphabeta_(&board, player, &Material, -INF, INF, 0),
                (None, material(&board, player))
            );
        }
    }
}

#[test]
fn terminal_scores_lie_below_material() {
    // the lowest material score there is: 63 black kings against a white one
    let mut cells = [Square::BKing; 64];
    cells[0] = Square::WKing;
    let lowest = material(&Mailbox { cells }, White);
    assert_eq!(lowest, -62000);
    let mated = alphabeta(&rook_endgame(), Black, &Material, 1);
    let kingless = alphabeta(&board(&". ".repeat(64)), White, &Material, 1);
    assert_eq!(mated, -INF - 1);
    assert_eq!(kingless, -INF + 1);
    assert!(mated < kingless);
    assert!(kingless < lowest);
}

#[test]
fn leaf_scores_swap_sign_with_the_player() {
    for board in positions() {
        assert!(board.has_king(White) && board.has_king(Black));
        assert_eq!(
            alphabeta(&board, White, &Material, 0),
            -alphabeta(&board, Black, &Material, 0)
        );
    }
}

#[test]
fn deeper_scores_need_not_swap_sign() {
    let board = queen_and_pawns();
    assert_eq!(alphabeta(&board, White, &Material, 1), 8);
    assert_eq!(-alphabeta(&board, Black, &Material, 1), 7);
}

#[test]
fn best_move_takes_the_pawn() {
    let board = queen_and_pawns();
    let (mv, score) = alphabeta_(&board, White, &Material, -INF, INF, 1);
    assert_eq!(score, 8);
    assert_eq!(mv, Some(Move { from: pos(5, 4), to: pos(2, 4), piece: Square::WQueen }));
}

#[test]
fn later_move_wins_a_tie() {
    let board = rook_endgame();
    // At depth 1 nothing is reordered and Black has nothing to take: all scores tie,
    // but no move of Black is legal. White's king moves tie at 10 behind the capture.
    let legal = collect_legal_moves(&board, White);
    let (mv, score) = alphabeta_(&board, White, &Material, -INF, INF, 1);
    assert_eq!(score, INF);
    assert_eq!(mv, Some(Move { from: pos(0, 4), to: pos(0, 7), piece: Square::WRook }));
    assert!(legal.contains(&mv.unwrap()));

    let quiet = start();
    let moves = collect_legal_moves(&quiet, White);
    assert_eq!(moves.len(), 20);
    let (mv, score) = alphabeta_(&quiet, White, &Material, -INF, INF, 1);
    assert_eq!(score, 0);
    assert_eq!(mv, Some(moves[19]));
}

#[test]
fn cutoff_stops_at_beta() {
    let quiet = start();
    let moves = collect_legal_moves(&quiet, White);
    // every move scores 0, and 0 reaches beta: the first move ends the search
    let (mv, score) = alphabeta_(&quiet, White, &Material, -5, 0, 1);
    assert_eq!(score, 0);
    assert_eq!(mv, Some(moves[0]));
    // with beta above 0 every move is searched and the last one stays
    let (mv, score) = alphabeta_(&quiet, White, &Material, -5, 1, 1);
    assert_eq!(score, 0);
    assert_eq!(mv, Some(moves[19]));
}

#[test]
fn move_order_does_not_change_the_score() {
    for board in positions() {
        for player in [White, Black] {
            for depth in 0..4 {
                let plain = alphabeta_with(
                    &board,
                    player,
                    &Material,
                    -INF,
                    INF,
                    depth,
                    MoveOrder::Generated,
                )
                .1;
                if -INF < plain && plain < INF {
                    for order in [MoveOrder::Ascending, MoveOrder::Descending] {
                        let sorted =
                            alphabeta_with(&board, player, &Material, -INF, INF, depth, order).1;
                        assert_eq!(sorted, plain);
                    }
                    assert_eq!(alphabeta(&board, player, &Material, depth), plain);
                }
            }
        }
    }
}

#[test]
fn mate_scores_depend_on_the_move_order() {
    // White mates at once by taking the pinned pawn, and in two moves by a quiet
    // move of the other rook along its row.
    let board = board(
        r"
		R p . . . . . k
		. . R . . . . .
		. . . . . . . .
		. . . . . . . .
		. . . . . . . .
		. . . . . . . .
		. . . . . . . .
		. . . . . . . K
		",
    );
    let takes = Move { from: pos(0, 0), to: pos(0, 1), piece: Square::WRook };
    assert_eq!(plain_negamax(&board, White, 4), INF + 3);
    // as generated, the capture comes before the other rook's moves
    assert_eq!(
        alphabeta_with(&board, White, &Material, -INF, INF, 4, MoveOrder::Generated),
        (Some(takes), INF + 3)
    );
    assert_eq!(
        alphabeta_with(&board, White, &Material, -INF, INF, 4, MoveOrder::Descending),
        (Some(takes), INF + 3)
    );
    // by ascending material the quiet moves come first: the mate in two ends the search
    let (mv, score) = alphabeta_(&board, White, &Material, -INF, INF, 4);
    assert_eq!(score, INF + 1);
    assert_eq!(mv.unwrap().from, pos(1, 2));
    // either way the score says that White mates
    assert!(alphabeta(&board, White, &Material, 4) >= INF);
}

fn plain_negamax(board: &Mailbox, player: Color, depth: u32) -> i32 {
    if !board.has_king(player) {
        return -INF + depth as i32;
    }
    if depth == 0 {
        return material(board, player);
    }
    let mut best = -INF - depth as i32;
    for (_, child) in legal_children(board, player) {
        best = best.max(-plain_negamax(&child, player.opposite(), depth - 1));
    }
    best
}

#[test]
fn pruning_does_not_change_the_score() {
    for board in positions() {
        for player in [White, Black] {
            for depth in 0..4 {
                let plain = plain_negamax(&board, player, depth);
                if -INF < plain && plain < INF {
                    assert_eq!(alphabeta(&board, player, &Material, depth), plain);
                }
            }
        }
    }
}

#[test]
fn material_counts_the_board() {
    assert_eq!(material_value(&rook_endgame()), 10);
    assert_eq!(material_value(&queen_and_pawns()), 7);
    assert_eq!(material_value(&black_queen_hunts()), -6);
    assert_eq!(material_value(&start()), 0);
    assert_eq!(material(&rook_endgame(), Black), -10);
    assert_eq!(Material.eval(&rook_endgame(), White), 10);
    assert_eq!(material_value(&board(&"K ".repeat(64))), 64000);
    assert_eq!(material_value(&board(&"k ".repeat(64))), -64000);
}

#[test]
fn legal_children_drop_self_check() {
    let board = board(
        r"
		. . . . r . . k
		. . . . . . . .
		. . . . . . . .
		. . . . . . . .
		. . . . . . . .
		. . . . . . . .
		. . . . B . . .
		. . . . K . . .
		",
    );
    // the bishop is pinned: only the king moves, and not onto the rook's file
    let all = board.collect_moves(White);
    let legal = legal_children(&board, White);
    assert_eq!(all.len(), 13);
    let moves: Vec<Move> = legal.iter().map(|(mv, _)| *mv).collect();
    assert_eq!(
        moves,
        vec![
            Move { from: pos(7, 4), to: pos(7, 3), piece: Square::WKing },
            Move { from: pos(7, 4), to: pos(7, 5), piece: Square::WKing },
            Move { from: pos(7, 4), to: pos(6, 3), piece: Square::WKing },
            Move { from: pos(7, 4), to: pos(6, 5), piece: Square::WKing },
        ]
    );
    for (mv, child) in &legal {
        assert_eq!(*child, board.with_move(*mv));
        assert!(!child.is_check(White));
    }
    assert_eq!(collect_legal_moves(&board, White), moves);
}

#[test]
fn parallel_scores_match_sequential_ones() {
    for board in positions() {
        for player in [White, Black] {
            for depth in 1..4 {
                let engine = ParAlphaBeta::new(depth, Material);
                let expected: Vec<(Move, i32)> = legal_children(&board, player)
                    .iter()
                    .map(|(mv, child)| {
                        (*mv, -alphabeta(child, player.opposite(), &Material, depth - 1))
                    })
                    .collect();
                for _ in 0..3 {
                    assert_eq!(engine.eval_moves(&board, player), expected);
                }
                assert_eq!(AlphaBeta::new(depth, Material).eval_moves(&board, player), expected);
            }
        }
    }
}

#[test]
fn parallel_scores_of_the_queen() {
    let board = queen_and_pawns();
    let scored = ParAlphaBeta::new(2, Material).eval_moves(&board, White);
    let takes = Move { from: pos(5, 4), to: pos(2, 4), piece: Square::WQueen };
    let taken: Vec<i32> = scored.iter().filter(|(mv, _)| *mv == takes).map(|(_, s)| *s).collect();
    // the pawn is protected: taking it costs the queen
    assert_eq!(taken, vec![-1]);
    assert_eq!(scored.iter().map(|(_, s)| *s).max(), Some(7));
    assert_eq!(scored.len(), collect_legal_moves(&board, White).len());
    let child = (takes, board.with_move(takes));
    assert_eq!(score_reply(&child, White, &Material, 1), (takes, -1));
    assert_eq!(score_reply(&child, White, &Material, 0), (takes, 8));
}

#[test]
fn parallel_engine_plays_a_best_move() {
    let board = queen_and_pawns();
    let mut rng = StdRng::seed_from_u64(7);
    let engine = ParAlphaBeta::new(1, Material);
    let takes = Move { from: pos(5, 4), to: pos(2, 4), piece: Square::WQueen };
    assert_eq!(engine.do_move(&mut rng, &board, White), Some(takes));
    let engine = ParAlphaBeta::new(2, Material);
    let scored = engine.eval_moves(&board, White);
    let best = best_moves(&scored);
    for _ in 0..10 {
        let mv = engine.do_move(&mut rng, &board, White).unwrap();
        assert!(best.contains(&mv));
        assert_ne!(mv, takes);
    }
    assert_eq!(engine.do_move(&mut rng, &rook_endgame(), Black), None);
}

#[test]
fn sequential_engine_plays_a_best_move() {
    let board = queen_and_pawns();
    let mut rng = StdRng::seed_from_u64(13);
    let takes = Move { from: pos(5, 4), to: pos(2, 4), piece: Square::WQueen };
    assert_eq!(AlphaBeta::new(1, Material).do_move(&mut rng, &board, White), Some(takes));
    let engine = AlphaBeta::new(2, Material);
    let best = best_moves(&engine.eval_moves(&board, White));
    for _ in 0..10 {
        let mv = engine.do_move(&mut rng, &board, White).unwrap();
        assert!(best.contains(&mv));
        assert_ne!(mv, takes);
    }
    assert_eq!(engine.do_move(&mut rng, &rook_endgame(), Black), None);
    // with one ply the mate is seen at the root
    let mates = Move { from: pos(0, 4), to: pos(0, 7), piece: Square::WRook };
    assert_eq!(AlphaBeta::new(1, Material).do_move(&mut rng, &rook_endgame(), White), Some(mates));
}

#[test]
fn best_moves_keep_the_maxima_in_order() {
    let a = Move { from: pos(0, 0), to: pos(0, 1), piece: Square::WRook };
    let b = Move { from: pos(0, 0), to: pos(0, 2), piece: Square::WRook };
    let c = Move { from: pos(0, 0), to: pos(0, 3), piece: Square::WRook };
    assert_eq!(best_moves(&vec![(a, 1), (b, 3), (c, 3)]), vec![b, c]);
    assert_eq!(best_moves(&vec![(a, 3), (b, 1), (c, 3)]), vec![a, c]);
    assert_eq!(best_moves(&vec![(a, -3), (b, -1), (c, -2)]), vec![b]);
    assert_eq!(best_moves(&vec![(a, i32::MIN)]), vec![a]);
    assert_eq!(best_moves(&vec![]), Vec::<Move>::new());
}

#[test]
fn pick_at_reads_the_index() {
    let a = Move { from: pos(0, 0), to: pos(0, 1), piece: Square::WRook };
    let b = Move { from: pos(0, 0), to: pos(0, 2), piece: Square::WRook };
    assert_eq!(pick_at(&vec![a, b], 0), Some(a));
    assert_eq!(pick_at(&vec![a, b], 1), Some(b));
    assert_eq!(pick_at(&vec![a, b], 2), None);
    assert_eq!(pick_at(&vec![], 0), None);
}

#[test]
fn pick_draws_a_candidate() {
    let a = Move { from: pos(0, 0), to: pos(0, 1), piece: Square::WRook };
    let b = Move { from: pos(0, 0), to: pos(0, 2), piece: Square::WRook };
    let mut rng = StdRng::seed_from_u64(1);
    assert_eq!(pick(&mut rng, &vec![]), None);
    assert_eq!(pick(&mut rng, &vec![a]), Some(a));
    let mut seen = Vec::new();
    for _ in 0..64 {
        let mv = pick(&mut rng, &vec![a, b]).unwrap();
        assert!(mv == a || mv == b);
        seen.push(mv);
    }
    assert!(seen.contains(&a) && seen.contains(&b));
}

#[test]
fn same_seed_same_move() {
    let board = start();
    let mut first = StdRng::seed_from_u64(99);
    let mut second = StdRng::seed_from_u64(99);
    for _ in 0..5 {
        assert_eq!(
            Greedy().do_move(&mut first, &board, White),
            Greedy().do_move(&mut second, &board, White)
        );
    }
}

#[test]
fn greedy_takes_material() {
    let board = queen_and_pawns();
    let mut rng = StdRng::seed_from_u64(3);
    let takes = Move { from: pos(5, 4), to: pos(2, 4), piece: Square::WQueen };
    assert_eq!(Greedy().do_move(&mut rng, &board, White), Some(takes));
    assert_eq!(select_move(&mut rng, &board, White, &Material), Some(takes));
    assert_eq!(Lookahead0(Material).do_move(&mut rng, &board, White), Some(takes));
    let scored = score_moves(&board, White, &Material);
    assert_eq!(scored.iter().filter(|(_, s)| *s == 8).count(), 1);
    assert_eq!(scored.iter().filter(|(_, s)| *s == 7).count(), scored.len() - 1);
    assert_eq!(Greedy().do_move(&mut rng, &rook_endgame(), Black), None);
}

#[test]
fn greedy_picks_among_ties() {
    let board = start();
    let mut rng = StdRng::seed_from_u64(5);
    let legal = collect_legal_moves(&board, White);
    let mut seen = Vec::new();
    for _ in 0..200 {
        let mv = Greedy().do_move(&mut rng, &board, White).unwrap();
        assert!(legal.contains(&mv));
        if !seen.contains(&mv) {
            seen.push(mv);
        }
    }
    assert!(seen.len() > 1);
}

#[test]
fn lookahead1_sees_the_recapture() {
    let board = queen_and_pawns();
    let engine = Lookahead1(Material);
    let takes = Move { from: pos(5, 4), to: pos(2, 4), piece: Square::WQueen };
    // value of the position for White if Black is to move: Black takes nothing
    assert_eq!(engine.l1_value(&board, White), 7);
    // after the capture Black takes the queen back
    assert_eq!(engine.l1_value(&board.with_move(takes), White), -1);
    assert_eq!(engine.eval(&board.with_move(takes), White), -1);
    let mut rng = StdRng::seed_from_u64(11);
    for _ in 0..10 {
        let mv = engine.do_move(&mut rng, &board, White).unwrap();
        assert_ne!(mv, takes);
        assert_eq!(engine.l1_value(&board.with_move(mv), White), 7);
    }
}

#[test]
fn lookahead1_without_a_reply() {
    // Black to reply has no legal move: the position is worth INF to White
    assert_eq!(Lookahead1(Material).l1_value(&rook_endgame(), White), INF);
    assert_eq!(Lookahead1(Material).do_move(&mut StdRng::seed_from_u64(0), &rook_endgame(), Black), None);
}

#[test]
fn random_plays_a_legal_move() {
    let board = queen_and_pawns();
    let mut rng = StdRng::seed_from_u64(17);
    let legal = collect_legal_moves(&board, Black);
    assert_eq!(legal.len(), 6);
    for _ in 0..20 {
        let mv = Random().do_move(&mut rng, &board, Black).unwrap();
        assert!(legal.contains(&mv));
    }
    assert_eq!(Random().do_move(&mut rng, &rook_endgame(), Black), None);
}

#[test]
fn engines_by_name() {
    assert_eq!(parse_engine("random"), Ok(NamedEngine::Random(Random())));
    assert_eq!(parse_engine("greedy"), Ok(NamedEngine::Greedy(Greedy())));
    assert_eq!(parse_engine("l0.mat"), Ok(NamedEngine::L0Material(Lookahead0(Material))));
    assert_eq!(parse_engine("l1.mat"), Ok(NamedEngine::L1Material(Lookahead1(Material))));
}

#[test]
fn unknown_engine_is_named() {
    for name in ["", "Greedy", "greedy ", "l2.mat", "l0.only_k_dist", "l0.mat+k_dist"] {
        let err = parse_engine(name).unwrap_err();
        assert_eq!(err, UnknownEngine(name.to_string()));
        assert_eq!(err.message(), format!("unknown engine: {}", name));
    }
}

#[test]
fn named_engine_plays() {
    let board = queen_and_pawns();
    let mut rng = StdRng::seed_from_u64(23);
    let takes = Move { from: pos(5, 4), to: pos(2, 4), piece: Square::WQueen };
    assert_eq!(parse_engine("greedy").unwrap().do_move(&mut rng, &board, White), Some(takes));
    assert_eq!(parse_engine("l0.mat").unwrap().do_move(&mut rng, &board, White), Some(takes));
    assert_ne!(parse_engine("l1.mat").unwrap().do_move(&mut rng, &board, White), Some(takes));
    let legal = collect_legal_moves(&board, White);
    let mv = parse_engine("random").unwrap().do_move(&mut rng, &board, White).unwrap();
    assert!(legal.contains(&mv));
}
