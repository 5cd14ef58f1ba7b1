use vstd::prelude::*;
use crate::color::Color;
use crate::square::Square;

verus! {

/// A coordinate: row and column, both counted from zero.
#[derive(Clone, Copy, PartialEq, Eq, Debug, Hash, Structural)]
pub struct Pos {
    pub row: u8,
    pub col: u8,
}

impl Pos {
    /// The coordinate names one of the 64 squares.
    pub open spec fn on_board(self) -> bool {
        self.row < 8 && self.col < 8
    }
}

pub fn pos(row: u8, col: u8) -> (p: Pos)
    ensures
        p == (Pos { row, col }),
{
    Pos { row, col }
}

/// What turns one position into the next: where a piece leaves, where it arrives,
/// and the mark it arrives as.
#[derive(Clone, Copy, PartialEq, Eq, Debug, Hash, Structural)]
pub struct Move {
    pub from: Pos,
    pub to: Pos,
    pub piece: Square,
}

/// A position of the game, as the search sees it. A position is a value: a move
/// gives a new position and leaves the old one as it was.
///
/// The spec functions are the mathematical model of a position; the executable
/// methods compute them.
pub trait Board: Sized {
    /// The candidate moves of `player`, in the order in which they are generated.
    /// A candidate may leave the player's own king in check.
    spec fn moves(&self, player: Color) -> Seq<Move>;

    /// The position after `mv`.
    spec fn after(&self, mv: Move) -> Self;

    /// `player`'s king is attacked.
    spec fn in_check(&self, player: Color) -> bool;

    /// `player` still has a king.
    spec fn king(&self, player: Color) -> bool;

    /// The mark on a square.
    spec fn piece(&self, pos: Pos) -> Square;

    fn collect_moves(&self, player: Color) -> (r: Vec<Move>)
        ensures
            r@ == self.moves(player),
    ;

    fn with_move(&self, mv: Move) -> (r: Self)
        requires
            self.moves(Color::White).contains(mv) || self.moves(Color::Black).contains(mv),
        ensures
            r == self.after(mv),
    ;

    fn is_check(&self, player: Color) -> (r: bool)
        ensures
            r == self.in_check(player),
    ;

    fn has_king(&self, player: Color) -> (r: bool)
        ensures
            r == self.king(player),
    ;

    fn at(&self, pos: Pos) -> (r: Square)
        requires
            pos.on_board(),
        ensures
            r == self.piece(pos),
    ;
}

} // verus!
