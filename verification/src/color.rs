use vstd::prelude::*;

verus! {

/// One of the two players.
#[derive(Clone, Copy, PartialEq, Eq, Debug, Hash, Structural)]
pub enum Color {
    White,
    Black,
}

impl Color {
    /// The other player.
    pub open spec fn spec_opposite(self) -> Color {
        match self {
            Color::White => Color::Black,
            Color::Black => Color::White,
        }
    }

    /// `+1` for White, `-1` for Black.
    pub open spec fn spec_sign(self) -> int {
        match self {
            Color::White => 1,
            Color::Black => -1,
        }
    }

    #[verifier::when_used_as_spec(spec_opposite)]
    pub fn opposite(self) -> (r: Color)
        ensures
            r == self.spec_opposite(),
    {
        match self {
            Color::White => Color::Black,
            Color::Black => Color::White,
        }
    }

    pub fn sign(self) -> (r: i32)
        ensures
            r == self.spec_sign(),
    {
        match self {
            Color::White => 1,
            Color::Black => -1,
        }
    }

    /// Each player is the opponent of their opponent, and nobody is their own opponent.
    pub proof fn opposite_is_involution(self)
        ensures
            self.opposite().opposite() == self,
            self.opposite() != self,
            self.opposite().spec_sign() == -self.spec_sign(),
    {
    }
}

} // verus!
