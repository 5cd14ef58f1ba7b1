use vstd::prelude::*;
use crate::board::Board;
use crate::color::Color;

verus! {

/// A leaf evaluator: a pure function from a position and a player to a score,
/// positive where the position favours that player. An engine that evaluates on
/// several workers at once asks for an evaluator that is `Sync` as well.
pub trait Evaluator<B: Board> {
    /// The score of `board` as `player` sees it.
    spec fn score(&self, board: B, player: Color) -> int;

    /// Computes the score. The score can be negated: it is never `i32::MIN`.
    fn eval(&self, board: &B, player: Color) -> (r: i32)
        ensures
            r == self.score(*board, player),
            r > i32::MIN,
    ;
}

/// What one player gains the other loses: seen from the other side, every score
/// changes its sign.
pub open spec fn symmetric<B: Board, E: Evaluator<B>>(e: E) -> bool {
    forall|b: B| #[trigger] e.score(b, Color::White) == -e.score(b, Color::Black)
}

} // verus!
