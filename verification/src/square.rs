use vstd::prelude::*;
use vstd::std_specs::convert::FromSpecImpl;
use vstd::std_specs::convert::TryFromSpecImpl;
use vstd::string::StringExecFns;
use crate::color::Color;
use crate::text::push_char;

verus! {

/// What stands on one square of the board: nothing, or one of the twelve pieces.
#[derive(Clone, Copy, PartialEq, Eq, Debug, Hash, PartialOrd, Ord, Structural)]
pub enum Square {
    Empty,
    WPawn,
    WRook,
    WKnight,
    WBisshop,
    WQueen,
    WKing,
    BPawn,
    BRook,
    BKnight,
    BBisshop,
    BQueen,
    BKing,
}

/// The character that was offered as a piece mark and is none.
#[derive(Clone, Copy, PartialEq, Eq, Debug, Structural)]
pub struct InvalidPiece(pub char);

impl InvalidPiece {
    /// The text of the error: `invalid piece: ` and the character.
    pub fn message(&self) -> (text: String)
        ensures
            text@ == "invalid piece: "@.push(self.0),
    {
        let mut text = String::from_str("invalid piece: ");
        push_char(&mut text, self.0);
        text
    }
}

impl Square {
    pub const ALL_PIECES: [Square; 12] = [
        Square::WPawn, Square::WRook, Square::WKnight, Square::WBisshop, Square::WQueen, Square::WKing,
        Square::BPawn, Square::BRook, Square::BKnight, Square::BBisshop, Square::BQueen, Square::BKing,
    ];

    pub const ALL_SQUARES: [Square; 13] = [
        Square::Empty,
        Square::WPawn, Square::WRook, Square::WKnight, Square::WBisshop, Square::WQueen, Square::WKing,
        Square::BPawn, Square::BRook, Square::BKnight, Square::BBisshop, Square::BQueen, Square::BKing,
    ];

    const ASCII: [char; 14] = ['.', 'P', 'R', 'N', 'B', 'Q', 'K', 'p', 'r', 'n', 'b', 'q', 'k', '?'];

    const UNICODE: [char; 14] = [' ', '♙', '♖', '♘', '♗', '♕', '♔', '♟', '♜', '♞', '♝', '♛', '♚', '?'];

    const VALUE: [i32; 13] = [0, 1, 5, 3, 3, 9, 0, -1, -5, -3, -3, -9, 0];

    /// The mark's place in the order in which the marks are declared.
    pub open spec fn ordinal(self) -> int {
        match self {
            Square::Empty => 0,
            Square::WPawn => 1,
            Square::WRook => 2,
            Square::WKnight => 3,
            Square::WBisshop => 4,
            Square::WQueen => 5,
            Square::WKing => 6,
            Square::BPawn => 7,
            Square::BRook => 8,
            Square::BKnight => 9,
            Square::BBisshop => 10,
            Square::BQueen => 11,
            Square::BKing => 12,
        }
    }

    /// Whose piece this is; nobody's where the square is empty.
    pub open spec fn owner(self) -> Option<Color> {
        if 1 <= self.ordinal() <= 6 {
            Some(Color::White)
        } else if 7 <= self.ordinal() <= 12 {
            Some(Color::Black)
        } else {
            None
        }
    }

    /// The letter of the mark: upper case for White, lower case for Black, a dot for
    /// the empty square.
    pub open spec fn glyph(self) -> char {
        match self {
            Square::Empty => '.',
            Square::WPawn => 'P',
            Square::WRook => 'R',
            Square::WKnight => 'N',
            Square::WBisshop => 'B',
            Square::WQueen => 'Q',
            Square::WKing => 'K',
            Square::BPawn => 'p',
            Square::BRook => 'r',
            Square::BKnight => 'n',
            Square::BBisshop => 'b',
            Square::BQueen => 'q',
            Square::BKing => 'k',
        }
    }

    /// The chess symbol of the mark, a blank for the empty square.
    pub open spec fn symbol(self) -> char {
        match self {
            Square::Empty => ' ',
            Square::WPawn => '♙',
            Square::WRook => '♖',
            Square::WKnight => '♘',
            Square::WBisshop => '♗',
            Square::WQueen => '♕',
            Square::WKing => '♔',
            Square::BPawn => '♟',
            Square::BRook => '♜',
            Square::BKnight => '♞',
            Square::BBisshop => '♝',
            Square::BQueen => '♛',
            Square::BKing => '♚',
        }
    }

    /// The relative value of the piece, positive for White and negative for Black.
    /// Kings and the empty square count for nothing.
    pub open spec fn worth(self) -> int {
        match self {
            Square::WPawn => 1,
            Square::WRook => 5,
            Square::WKnight | Square::WBisshop => 3,
            Square::WQueen => 9,
            Square::BPawn => -1,
            Square::BRook => -5,
            Square::BKnight | Square::BBisshop => -3,
            Square::BQueen => -9,
            Square::Empty | Square::WKing | Square::BKing => 0,
        }
    }

    /// The mark that a letter stands for, if any.
    pub open spec fn parse(c: char) -> Option<Square> {
        if c == '.' {
            Some(Square::Empty)
        } else if c == 'P' {
            Some(Square::WPawn)
        } else if c == 'R' {
            Some(Square::WRook)
        } else if c == 'N' {
            Some(Square::WKnight)
        } else if c == 'B' {
            Some(Square::WBisshop)
        } else if c == 'Q' {
            Some(Square::WQueen)
        } else if c == 'K' {
            Some(Square::WKing)
        } else if c == 'p' {
            Some(Square::BPawn)
        } else if c == 'r' {
            Some(Square::BRook)
        } else if c == 'n' {
            Some(Square::BKnight)
        } else if c == 'b' {
            Some(Square::BBisshop)
        } else if c == 'q' {
            Some(Square::BQueen)
        } else if c == 'k' {
            Some(Square::BKing)
        } else {
            None
        }
    }

    pub fn to_char(self) -> (r: char)
        ensures
            r == self.glyph(),
    {
        self.into()
    }

    pub fn is_empty(self) -> (r: bool)
        ensures
            r == (self == Square::Empty),
    {
        self == Square::Empty
    }

    pub fn color(self) -> (r: Option<Color>)
        ensures
            r == self.owner(),
    {
        match self {
            Square::WPawn | Square::WRook | Square::WKnight | Square::WBisshop | Square::WQueen | Square::WKing => Some(Color::White),
            Square::BPawn | Square::BRook | Square::BKnight | Square::BBisshop | Square::BQueen | Square::BKing => Some(Color::Black),
            Square::Empty => None,
        }
    }

    pub fn sign(self) -> (r: i32)
        ensures
            self.owner() == Some(Color::White) ==> r == 1,
            self.owner() == Some(Color::Black) ==> r == -1,
            self.owner().is_none() ==> r == 0,
    {
        match self {
            Square::WPawn | Square::WRook | Square::WKnight | Square::WBisshop | Square::WQueen | Square::WKing => 1,
            Square::BPawn | Square::BRook | Square::BKnight | Square::BBisshop | Square::BQueen | Square::BKing => -1,
            Square::Empty => 0,
        }
    }

    pub fn index(self) -> (r: usize)
        ensures
            r == self.ordinal(),
    {
        match self {
            Square::Empty => 0,
            Square::WPawn => 1,
            Square::WRook => 2,
            Square::WKnight => 3,
            Square::WBisshop => 4,
            Square::WQueen => 5,
            Square::WKing => 6,
            Square::BPawn => 7,
            Square::BRook => 8,
            Square::BKnight => 9,
            Square::BBisshop => 10,
            Square::BQueen => 11,
            Square::BKing => 12,
        }
    }

    pub fn is_color(self, color: Color) -> (r: bool)
        ensures
            r == (self.owner() == Some(color)),
    {
        match self.color() {
            Some(c) => c == color,
            None => false,
        }
    }

    pub fn is_king(self) -> (r: bool)
        ensures
            r == (self == Square::WKing || self == Square::BKing),
    {
        match self {
            Square::WKing | Square::BKing => true,
            _ => false,
        }
    }

    pub fn unicode(self) -> (r: char)
        ensures
            r == self.symbol(),
    {
        Self::UNICODE[self.index()]
    }

    pub fn value(self) -> (r: i32)
        ensures
            r == self.worth(),
    {
        Self::VALUE[self.index()]
    }

    /// Every mark is found again from its letter.
    pub proof fn glyph_round_trip(self)
        ensures
            Square::parse(self.glyph()) == Some(self),
    {
    }

    /// A letter that stands for a mark is the letter of that mark. The letters that
    /// stand for a mark are those of `"PRNBQKprnbqk."`.
    pub proof fn parse_round_trip(c: char)
        ensures
            "PRNBQKprnbqk."@.contains(c) <==> Square::parse(c).is_some(),
            Square::parse(c).is_some() ==> Square::parse(c).unwrap().glyph() == c,
    {
        reveal_strlit("PRNBQKprnbqk.");
        let s = "PRNBQKprnbqk."@;
        if Square::parse(c).is_some() {
            let sq = Square::parse(c).unwrap();
            let i = if sq == Square::Empty { 12 } else { sq.ordinal() - 1 };
            assert(s[i] == c);
        }
    }
}

impl From<Square> for char {
    fn from(sq: Square) -> (r: char)
    {
        Square::ASCII[sq.index()]
    }
}

impl FromSpecImpl<Square> for char {
    open spec fn obeys_from_spec() -> bool {
        true
    }

    open spec fn from_spec(sq: Square) -> char {
        sq.glyph()
    }
}

impl TryFrom<char> for Square {
    type Error = InvalidPiece;

    fn try_from(value: char) -> (r: Result<Square, InvalidPiece>)
    {
        Ok(match value {
            '.' => Square::Empty,
            'P' => Square::WPawn,
            'R' => Square::WRook,
            'N' => Square::WKnight,
            'B' => Square::WBisshop,
            'Q' => Square::WQueen,
            'K' => Square::WKing,
            'p' => Square::BPawn,
            'r' => Square::BRook,
            'n' => Square::BKnight,
            'b' => Square::BBisshop,
            'q' => Square::BQueen,
            'k' => Square::BKing,
            invalid => return Err(InvalidPiece(invalid)),
        })
    }
}

impl TryFromSpecImpl<char> for Square {
    open spec fn obeys_try_from_spec() -> bool {
        true
    }

    open spec fn try_from_spec(value: char) -> Result<Square, InvalidPiece> {
        match Square::parse(value) {
            Some(sq) => Ok(sq),
            None => Err(InvalidPiece(value)),
        }
    }
}

impl Default for Square {
    fn default() -> (r: Square)
        ensures
            r == Square::Empty,
    {
        Square::Empty
    }
}

} // verus!
