use vstd::prelude::*;
use crate::board::{pos, Board, Pos};
use crate::color::Color;
use crate::evaluator::{symmetric, Evaluator};
use crate::square::Square;

verus! {

/// What a piece counts for in the material balance: positive for White, negative
/// for Black, and a king outweighs everything else on the board.
pub open spec fn piece_worth(sq: Square) -> int {
    match sq {
        Square::WKing => 1000,
        Square::BKing => -1000,
        _ => sq.worth(),
    }
}

/// The square with number `k`, counted row by row.
pub open spec fn cell(k: int) -> Pos {
    Pos { row: (k / 8) as u8, col: (k % 8) as u8 }
}

/// The material on the first `n` squares, counted row by row.
pub open spec fn material_upto<B: Board>(b: B, n: nat) -> int
    decreases n,
{
    if n == 0 {
        0
    } else {
        material_upto(b, (n - 1) as nat) + piece_worth(b.piece(cell(n - 1)))
    }
}

/// The material balance of the whole board, from White's side.
pub open spec fn material_balance<B: Board>(b: B) -> int {
    material_upto(b, 64)
}

/// The material balance as `player` sees it.
pub open spec fn material_score<B: Board>(b: B, player: Color) -> int {
    player.spec_sign() * material_balance(b)
}

/// No square counts for more than a king.
pub proof fn material_is_bounded<B: Board>(b: B, n: nat)
    ensures
        -1000 * n <= material_upto(b, n) <= 1000 * n,
    decreases n,
{
    if n > 0 {
        material_is_bounded(b, (n - 1) as nat);
    }
}

pub fn piece_value(sq: Square) -> (r: i32)
    ensures
        r == piece_worth(sq),
{
    match sq {
        Square::WPawn => 1,
        Square::WKnight => 3,
        Square::WBisshop => 3,
        Square::WRook => 5,
        Square::WQueen => 9,
        Square::WKing => 1000,
        Square::BPawn => -1,
        Square::BKnight => -3,
        Square::BBisshop => -3,
        Square::BRook => -5,
        Square::BQueen => -9,
        Square::BKing => -1000,
        _ => 0,
    }
}

pub fn material_value<B: Board>(board: &B) -> (r: i32)
    ensures
        r == material_balance(*board),
        -64000 <= r <= 64000,
{
    let mut value: i32 = 0;
    for r in 0..8u8
        invariant
            value == material_upto(*board, (r * 8) as nat),
            -1000 * (r * 8) <= value <= 1000 * (r * 8),
    {
        for c in 0..8u8
            invariant
                r < 8,
                value == material_upto(*board, (r * 8 + c) as nat),
                -1000 * (r * 8 + c) <= value <= 1000 * (r * 8 + c),
        {
            assert(cell(r * 8 + c) == Pos { row: r, col: c });
            value += piece_value(board.at(pos(r, c)))
        }
    }
    value
}

/// The flat material evaluator.
pub fn material<B: Board>(board: &B, player: Color) -> (r: i32)
    ensures
        r == material_score(*board, player),
        -64000 <= r <= 64000,
{
    match player {
        Color::White => material_value(board),
        Color::Black => -material_value(board),
    }
}

/// The flat material evaluator, as a value that the engines take.
#[derive(Clone, Copy, Debug, PartialEq, Eq)]
pub struct Material;

impl<B: Board> Evaluator<B> for Material {
    open spec fn score(&self, board: B, player: Color) -> int {
        material_score(board, player)
    }

    fn eval(&self, board: &B, player: Color) -> (r: i32)
    {
        material(board, player)
    }
}

/// Material counts the same for both players, with the opposite sign.
pub proof fn material_is_symmetric<B: Board>()
    ensures
        symmetric::<B, Material>(Material),
{
}

} // verus!
