//! The standard starting position, as a table of bitboard constants.
//!
//! White stands on ranks 1 and 2, black on ranks 7 and 8. Another position can
//! be had by building a [`Board`](crate::board::Board) from other words.
use crate::bits::{bit_is_set, bit_set};
use crate::piece::{Color, Piece};
use vstd::prelude::*;

verus! {

pub const WHITE_PAWNS: u64 = 0x0000_0000_0000_FF00;

pub const WHITE_KNIGHTS: u64 = 0x0000_0000_0000_0042;

pub const WHITE_BISHOPS: u64 = 0x0000_0000_0000_0024;

pub const WHITE_ROOKS: u64 = 0x0000_0000_0000_0081;

pub const WHITE_QUEENS: u64 = 0x0000_0000_0000_0008;

pub const WHITE_KING: u64 = 0x0000_0000_0000_0010;

pub const BLACK_PAWNS: u64 = 0x00FF_0000_0000_0000;

pub const BLACK_KNIGHTS: u64 = 0x4200_0000_0000_0000;

pub const BLACK_BISHOPS: u64 = 0x2400_0000_0000_0000;

pub const BLACK_ROOKS: u64 = 0x8100_0000_0000_0000;

pub const BLACK_QUEENS: u64 = 0x0800_0000_0000_0000;

pub const BLACK_KING: u64 = 0x1000_0000_0000_0000;

/// The word of the table for one colour and piece type.
pub open spec fn start_bits(color: Color, piece: Piece) -> u64 {
    match (color, piece) {
        (Color::White, Piece::Pawn) => WHITE_PAWNS,
        (Color::White, Piece::Knight) => WHITE_KNIGHTS,
        (Color::White, Piece::Bishop) => WHITE_BISHOPS,
        (Color::White, Piece::Rook) => WHITE_ROOKS,
        (Color::White, Piece::Queen) => WHITE_QUEENS,
        (Color::White, Piece::King) => WHITE_KING,
        (Color::Black, Piece::Pawn) => BLACK_PAWNS,
        (Color::Black, Piece::Knight) => BLACK_KNIGHTS,
        (Color::Black, Piece::Bishop) => BLACK_BISHOPS,
        (Color::Black, Piece::Rook) => BLACK_ROOKS,
        (Color::Black, Piece::Queen) => BLACK_QUEENS,
        (Color::Black, Piece::King) => BLACK_KING,
    }
}

/// The rank, counted from 0, on which a colour's pieces other than pawns start.
pub open spec fn back_rank(color: Color) -> int {
    match color {
        Color::White => 0,
        Color::Black => 7,
    }
}

/// The rank, counted from 0, on which a colour's pawns start.
pub open spec fn pawn_rank(color: Color) -> int {
    match color {
        Color::White => 1,
        Color::Black => 6,
    }
}

/// Whether a piece of the given type starts on the given file of its rank:
/// rook, knight, bishop, queen, king, bishop, knight, rook from file a to file
/// h, and a pawn on every file.
pub open spec fn starts_on_file(piece: Piece, file: int) -> bool {
    match piece {
        Piece::Pawn => 0 <= file < 8,
        Piece::Rook => file == 0 || file == 7,
        Piece::Knight => file == 1 || file == 6,
        Piece::Bishop => file == 2 || file == 5,
        Piece::Queen => file == 3,
        Piece::King => file == 4,
    }
}

/// Whether a piece of the given colour and type starts the game on square `i`.
pub open spec fn starts_on(color: Color, piece: Piece, i: int) -> bool {
    let rank = if piece == Piece::Pawn {
        pawn_rank(color)
    } else {
        back_rank(color)
    };
    0 <= i < 64 && i / 8 == rank && starts_on_file(piece, i % 8)
}

/// The squares on which the pieces of the given colour and type start the game.
pub open spec fn start_squares(color: Color, piece: Piece) -> Set<int> {
    Set::new(|i: int| starts_on(color, piece, i))
}

/// Bit `i` of a word of the table is one exactly when a piece of the word's
/// colour and type starts on square `i`.
pub proof fn lemma_start_bits(color: Color, piece: Piece, i: int)
    ensures
        bit_is_set(start_bits(color, piece), i) <==> starts_on(color, piece, i),
{
    if 0 <= i < 64 {
        let j: u64 = i as u64;
        assert((WHITE_PAWNS >> j) & 1 == 1 <==> 8 <= j < 16) by (bit_vector)
            requires
                j < 64,
        ;
        assert((WHITE_KNIGHTS >> j) & 1 == 1 <==> j == 1 || j == 6) by (bit_vector)
            requires
                j < 64,
        ;
        assert((WHITE_BISHOPS >> j) & 1 == 1 <==> j == 2 || j == 5) by (bit_vector)
            requires
                j < 64,
        ;
        assert((WHITE_ROOKS >> j) & 1 == 1 <==> j == 0 || j == 7) by (bit_vector)
            requires
                j < 64,
        ;
        assert((WHITE_QUEENS >> j) & 1 == 1 <==> j == 3) by (bit_vector)
            requires
                j < 64,
        ;
        assert((WHITE_KING >> j) & 1 == 1 <==> j == 4) by (bit_vector)
            requires
                j < 64,
        ;
        assert((BLACK_PAWNS >> j) & 1 == 1 <==> 48 <= j < 56) by (bit_vector)
            requires
                j < 64,
        ;
        assert((BLACK_KNIGHTS >> j) & 1 == 1 <==> j == 57 || j == 62) by (bit_vector)
            requires
                j < 64,
        ;
        assert((BLACK_BISHOPS >> j) & 1 == 1 <==> j == 58 || j == 61) by (bit_vector)
            requires
                j < 64,
        ;
        assert((BLACK_ROOKS >> j) & 1 == 1 <==> j == 56 || j == 63) by (bit_vector)
            requires
                j < 64,
        ;
        assert((BLACK_QUEENS >> j) & 1 == 1 <==> j == 59) by (bit_vector)
            requires
                j < 64,
        ;
        assert((BLACK_KING >> j) & 1 == 1 <==> j == 60) by (bit_vector)
            requires
                j < 64,
        ;
    }
}

/// Each word of the table holds the squares on which the pieces of its colour
/// and type start.
pub proof fn lemma_start_squares(color: Color, piece: Piece)
    ensures
        bit_set(start_bits(color, piece)) == start_squares(color, piece),
{
    assert forall|i: int|
        bit_is_set(start_bits(color, piece), i) <==> starts_on(color, piece, i) by {
        lemma_start_bits(color, piece, i);
    }
    assert(bit_set(start_bits(color, piece)) =~= start_squares(color, piece));
}

/// No square is the starting square of two different pieces.
pub proof fn lemma_start_squares_disjoint(c1: Color, p1: Piece, c2: Color, p2: Piece)
    requires
        c1 != c2 || p1 != p2,
    ensures
        start_squares(c1, p1).disjoint(start_squares(c2, p2)),
{
}

} // verus!
