//! Board representation for a chess program.
//!
//! Pieces are placed on the 64 squares of the board with bit-level sets. A
//! [`square::Square`] addresses one square, a [`bitboard::BitBoard`] is a set of
//! squares, a [`side::Side`] holds the six piece sets of one player, and a
//! [`board::Board`] is the pair of sides. Move generation, rules and search are
//! left to the code that reads the board.
//!
//! One mapping of squares to bits is used throughout. Square `i` has file
//! `i % 8` (`a` to `h`) and rank `i / 8` (rank 1 to rank 8), so index 0 is a1
//! and index 63 is h8. White starts on ranks 1 and 2 and is shown in lower
//! case; black starts on ranks 7 and 8 and is shown in upper case.
//!
//! In contracts a set of squares is a `Set<int>` of indices, the view of a
//! bitboard, and a text is the `Seq<char>` of its characters. [`bits`] relates
//! the bitwise operations on words to operations on those sets, [`start`]
//! holds the starting position, and [`strings`] states what the two methods of
//! `String` that build the texts do.
pub mod bitboard;
pub mod bits;
pub mod board;
pub mod piece;
pub mod side;
pub mod square;
pub mod start;
pub mod strings;
