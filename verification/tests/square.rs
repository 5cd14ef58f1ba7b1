use chess_engine::color::Color;
use chess_engine::piece_value::piece_value;
use chess_engine::sorting::sorted_indices;
use chess_engine::square::{InvalidPiece, Square};

#[test]
fn every_letter_round_trips() {
    for c in "PRNBQKprnbqk.".chars() {
        let sq = Square::try_from(c).unwrap();
        assert_eq!(sq.to_char(), c);
        let back: char = sq.into();
        assert_eq!(back, c);
    }
}

#[test]
fn every_square_round_trips() {
    for sq in Square::ALL_SQUARES {
        assert_eq!(Square::try_from(sq.to_char()), Ok(sq));
    }
}

#[test]
fn letters_of_the_marks() {
    let letters: Vec<char> = Square::ALL_SQUARES.iter().map(|sq| sq.to_char()).collect();
    assert_eq!(letters, vec!['.', 'P', 'R', 'N', 'B', 'Q', 'K', 'p', 'r', 'n', 'b', 'q', 'k']);
}

#[test]
fn symbols_of_the_marks() {
    let symbols: Vec<char> = Square::ALL_SQUARES.iter().map(|sq| sq.unicode()).collect();
    assert_eq!(
        symbols,
        vec![' ', '♙', '♖', '♘', '♗', '♕', '♔', '♟', '♜', '♞', '♝', '♛', '♚']
    );
}

#[test]
fn unknown_letters_are_rejected() {
    assert_eq!(Square::try_from('x'), Err(InvalidPiece('x')));
    assert_eq!(Square::try_from('?'), Err(InvalidPiece('?')));
    assert_eq!(Square::try_from(' '), Err(InvalidPiece(' ')));
    assert_eq!(Square::try_from('♔'), Err(InvalidPiece('♔')));
}

#[test]
fn invalid_piece_names_the_letter() {
    assert_eq!(InvalidPiece('x').message(), "invalid piece: x");
    assert_eq!(InvalidPiece('♔').message(), "invalid piece: ♔");
}

#[test]
fn ordinals_follow_the_declaration() {
    for (i, sq) in Square::ALL_SQUARES.iter().enumerate() {
        assert_eq!(sq.index(), i);
    }
    for (i, sq) in Square::ALL_PIECES.iter().enumerate() {
        assert_eq!(sq.index(), i + 1);
    }
}

#[test]
fn colors_and_signs() {
    assert_eq!(Square::Empty.color(), None);
    assert_eq!(Square::Empty.sign(), 0);
    assert!(Square::Empty.is_empty());
    assert_eq!(Square::default(), Square::Empty);
    for sq in Square::ALL_PIECES {
        assert!(!sq.is_empty());
        let white = sq.to_char().is_ascii_uppercase();
        if white {
            assert_eq!(sq.color(), Some(Color::White));
            assert_eq!(sq.sign(), 1);
            assert!(sq.is_color(Color::White));
            assert!(!sq.is_color(Color::Black));
        } else {
            assert_eq!(sq.color(), Some(Color::Black));
            assert_eq!(sq.sign(), -1);
            assert!(sq.is_color(Color::Black));
            assert!(!sq.is_color(Color::White));
        }
    }
    assert!(!Square::Empty.is_color(Color::White));
    assert!(!Square::Empty.is_color(Color::Black));
}

#[test]
fn kings_are_kings() {
    for sq in Square::ALL_SQUARES {
        assert_eq!(sq.is_king(), sq == Square::WKing || sq == Square::BKing);
    }
}

#[test]
fn relative_values() {
    let values: Vec<i32> = Square::ALL_SQUARES.iter().map(|sq| sq.value()).collect();
    assert_eq!(values, vec![0, 1, 5, 3, 3, 9, 0, -1, -5, -3, -3, -9, 0]);
}

#[test]
fn material_values() {
    let values: Vec<i32> = Square::ALL_SQUARES.iter().map(|sq| piece_value(*sq)).collect();
    assert_eq!(values, vec![0, 1, 5, 3, 3, 9, 1000, -1, -5, -3, -3, -9, -1000]);
}

#[test]
fn opposite_colors() {
    assert_eq!(Color::White.opposite(), Color::Black);
    assert_eq!(Color::Black.opposite(), Color::White);
    assert_eq!(Color::White.opposite().opposite(), Color::White);
    assert_eq!(Color::White.sign(), 1);
    assert_eq!(Color::Black.sign(), -1);
}

#[test]
fn sorting_is_stable() {
    assert_eq!(sorted_indices(&vec![3, 1, 2, 1]), vec![1, 3, 2, 0]);
    assert_eq!(sorted_indices(&vec![]), Vec::<usize>::new());
    assert_eq!(sorted_indices(&vec![5]), vec![0]);
    assert_eq!(sorted_indices(&vec![7, 7, 7]), vec![0, 1, 2]);
    assert_eq!(sorted_indices(&vec![3, 2, 1, 0, -1]), vec![4, 3, 2, 1, 0]);
    assert_eq!(sorted_indices(&vec![i32::MAX, i32::MIN, 0]), vec![1, 2, 0]);
}
