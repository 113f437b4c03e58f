//! The board: the pieces of both players.
use crate::bitboard::BitBoard;
use crate::bits::{lemma_bit_set_disjoint, lemma_bit_set_or};
use crate::piece::{Color, Piece};
use crate::side::Side;
use crate::square::{rank_char, rank_digit, Square};
use crate::start::{
    lemma_start_squares, lemma_start_squares_disjoint, start_bits, start_squares, BLACK_BISHOPS,
    BLACK_KING, BLACK_KNIGHTS, BLACK_PAWNS, BLACK_QUEENS, BLACK_ROOKS, WHITE_BISHOPS, WHITE_KING,
    WHITE_KNIGHTS, WHITE_PAWNS, WHITE_QUEENS, WHITE_ROOKS,
};
use vstd::prelude::*;

verus! {

/// The pieces of both players.
///
/// No square should hold two pieces. The type does not enforce this:
/// [`Board::wf`] states it and [`Board::is_consistent`] tests it. Code that
/// changes a field has to keep it.
#[derive(Debug, Clone, Copy, PartialEq, Eq, Structural)]
pub struct Board {
    pub white: Side,
    pub black: Side,
}

/// The character that stands for a piece in the text of a board: the first
/// letter of its type (`n` for the knight), in lower case for white and in
/// upper case for black.
pub open spec fn piece_symbol(color: Color, piece: Piece) -> char {
    match (color, piece) {
        (Color::White, Piece::Pawn) => 'p',
        (Color::White, Piece::Knight) => 'n',
        (Color::White, Piece::Bishop) => 'b',
        (Color::White, Piece::Rook) => 'r',
        (Color::White, Piece::Queen) => 'q',
        (Color::White, Piece::King) => 'k',
        (Color::Black, Piece::Pawn) => 'P',
        (Color::Black, Piece::Knight) => 'N',
        (Color::Black, Piece::Bishop) => 'B',
        (Color::Black, Piece::Rook) => 'R',
        (Color::Black, Piece::Queen) => 'Q',
        (Color::Black, Piece::King) => 'K',
    }
}

impl Board {
    /// The pieces of the given colour.
    pub open spec fn side_of(&self, color: Color) -> Side {
        match color {
            Color::White => self.white,
            Color::Black => self.black,
        }
    }

    /// The set of the pieces of the given colour and type.
    pub open spec fn spec_get_piece_bitboard(&self, color: Color, piece: Piece) -> BitBoard {
        self.side_of(color).bitboard_of(piece)
    }

    /// The squares that hold a piece of either player.
    pub open spec fn occupied(&self) -> Set<int> {
        self.white.occupied() + self.black.occupied()
    }

    /// No square holds two pieces, of one colour or of both.
    pub open spec fn wf(&self) -> bool {
        &&& self.white.wf()
        &&& self.black.wf()
        &&& self.white.occupied().disjoint(self.black.occupied())
    }

    /// The sets of any two different pairs of colour and piece type share no
    /// square. [`Board::lemma_wf_pairwise`] shows that this is [`Board::wf`].
    pub open spec fn pairwise_disjoint(&self) -> bool {
        forall|c1: Color, p1: Piece, c2: Color, p2: Piece|
            c1 != c2 || p1 != p2 ==> (#[trigger] self.spec_get_piece_bitboard(c1, p1)@).disjoint(
                #[trigger] self.spec_get_piece_bitboard(c2, p2)@,
            )
    }

    /// The character shown for square `i`: the symbol of the first set that
    /// holds `i`, looking through white's pawns, knights, bishops, rooks, queens
    /// and king and then through black's in the same order, or a dot when no
    /// set holds it.
    pub open spec fn piece_char(&self, i: int) -> char {
        if self.white.pawns@.contains(i) {
            'p'
        } else if self.white.knights@.contains(i) {
            'n'
        } else if self.white.bishops@.contains(i) {
            'b'
        } else if self.white.rooks@.contains(i) {
            'r'
        } else if self.white.queens@.contains(i) {
            'q'
        } else if self.white.king@.contains(i) {
            'k'
        } else if self.black.pawns@.contains(i) {
            'P'
        } else if self.black.knights@.contains(i) {
            'N'
        } else if self.black.bishops@.contains(i) {
            'B'
        } else if self.black.rooks@.contains(i) {
            'R'
        } else if self.black.queens@.contains(i) {
            'Q'
        } else if self.black.king@.contains(i) {
            'K'
        } else {
            '.'
        }
    }

    /// The text of the first `n` squares of a rank, from file a on: for each
    /// square its character between two blanks.
    pub open spec fn cells_text(&self, rank: int, n: int) -> Seq<char>
        decreases n,
    {
        if n <= 0 {
            Seq::empty()
        } else {
            self.cells_text(rank, n - 1) + seq![' ', self.piece_char(rank * 8 + n - 1), ' ']
        }
    }

    /// One line of the board: the digit of the rank, a bar, the eight squares,
    /// a bar.
    pub open spec fn row_text(&self, rank: int) -> Seq<char> {
        seq![rank_digit(rank)] + " |"@ + self.cells_text(rank, 8) + "|\n"@
    }

    /// The lines of the board from rank 8 down to the given rank.
    pub open spec fn rows_text(&self, rank: int) -> Seq<char>
        decreases 8 - rank,
    {
        if rank >= 8 {
            Seq::empty()
        } else {
            self.rows_text(rank + 1) + self.row_text(rank)
        }
    }

    /// The board as text: an empty line, a border, the eight ranks from rank 8
    /// down to rank 1, a border, and a line that labels the files.
    pub open spec fn pretty_text(&self) -> Seq<char> {
        "\n  +------------------------+\n"@ + self.rows_text(0)
            + "  +------------------------+\n"@ + "    a  b  c  d  e  f  g  h\n"@
    }

    /// The standard starting position: every set is its word of the table in
    /// [`start`](crate::start), and so holds the squares on which the pieces of
    /// its colour and type start a game.
    pub fn new() -> (r: Board)
        ensures
            forall|color: Color, piece: Piece|
                #![trigger r.spec_get_piece_bitboard(color, piece)]
                r.spec_get_piece_bitboard(color, piece).0 == start_bits(color, piece)
                    && r.spec_get_piece_bitboard(color, piece)@ == start_squares(color, piece),
            r.wf(),
    {
        let r = Board {
            white: Side {
                pawns: BitBoard(WHITE_PAWNS),
                knights: BitBoard(WHITE_KNIGHTS),
                bishops: BitBoard(WHITE_BISHOPS),
                rooks: BitBoard(WHITE_ROOKS),
                queens: BitBoard(WHITE_QUEENS),
                king: BitBoard(WHITE_KING),
            },
            black: Side {
                pawns: BitBoard(BLACK_PAWNS),
                knights: BitBoard(BLACK_KNIGHTS),
                bishops: BitBoard(BLACK_BISHOPS),
                rooks: BitBoard(BLACK_ROOKS),
                queens: BitBoard(BLACK_QUEENS),
                king: BitBoard(BLACK_KING),
            },
        };
        proof {
            assert forall|color: Color, piece: Piece|
                #![trigger r.spec_get_piece_bitboard(color, piece)]
                r.spec_get_piece_bitboard(color, piece).0 == start_bits(color, piece)
                    && r.spec_get_piece_bitboard(color, piece)@ == start_squares(color, piece) by {
                lemma_start_squares(color, piece);
            }
            assert(r.pairwise_disjoint()) by {
                assert forall|c1: Color, p1: Piece, c2: Color, p2: Piece|
                    c1 != c2 || p1 != p2 implies start_squares(c1, p1).disjoint(
                    start_squares(c2, p2),
                ) by {
                    lemma_start_squares_disjoint(c1, p1, c2, p2);
                }
            }
            r.lemma_wf_pairwise();
        }
        r
    }

    /// All squares that hold a piece, of either player.
    pub fn combined_occupancy(&self) -> (r: BitBoard)
        ensures
            r@ == self.occupied(),
    {
        let white = self.white.combined();
        let black = self.black.combined();
        proof {
            lemma_bit_set_or(white.0, black.0);
        }
        BitBoard(white.0 | black.0)
    }

    /// The set of the pieces of the given colour and type.
    #[verifier::when_used_as_spec(spec_get_piece_bitboard)]
    pub fn get_piece_bitboard(&self, color: Color, piece: Piece) -> (r: BitBoard)
        ensures
            r == self.spec_get_piece_bitboard(color, piece),
    {
        let side = match color {
            Color::White => &self.white,
            Color::Black => &self.black,
        };
        match piece {
            Piece::Pawn => side.pawns,
            Piece::Knight => side.knights,
            Piece::Bishop => side.bishops,
            Piece::Rook => side.rooks,
            Piece::Queen => side.queens,
            Piece::King => side.king,
        }
    }

    /// The character shown for the square with the given index: the symbol of
    /// the piece on it, lower case for white and upper case for black, or a dot
    /// for a square without a piece. An index of 64 or more names no square and
    /// gives the dot.
    ///
    /// Where two sets hold the square, which a well-formed board excludes, the
    /// first in the order of [`Board::piece_char`] decides.
    pub fn get_piece_char(&self, square: usize) -> (r: char)
        ensures
            r == self.piece_char(square as int),
    {
        if square >= 64 {
            proof {
                self.lemma_off_board(square as int);
            }
            return '.';
        }
        match Square::new(square as u8) {
            None => '.',
            Some(sq) => {
                if self.white.pawns.contains(sq) {
                    'p'
                } else if self.white.knights.contains(sq) {
                    'n'
                } else if self.white.bishops.contains(sq) {
                    'b'
                } else if self.white.rooks.contains(sq) {
                    'r'
                } else if self.white.queens.contains(sq) {
                    'q'
                } else if self.white.king.contains(sq) {
                    'k'
                } else if self.black.pawns.contains(sq) {
                    'P'
                } else if self.black.knights.contains(sq) {
                    'N'
                } else if self.black.bishops.contains(sq) {
                    'B'
                } else if self.black.rooks.contains(sq) {
                    'R'
                } else if self.black.queens.contains(sq) {
                    'Q'
                } else if self.black.king.contains(sq) {
                    'K'
                } else {
                    '.'
                }
            },
        }
    }

    /// The board as text, for display: between two borders the eight ranks from
    /// rank 8 down to rank 1, each with the digit of its rank and the characters
    /// of its squares from file a to file h, and a last line that labels the
    /// files.
    pub fn pretty(&self) -> (r: String)
        ensures
            r@ == self.pretty_text(),
    {
        let mut s = String::new();
        s.push_str("\n  +------------------------+\n");
        let ghost top = s@;
        let mut rank: u8 = 8;
        assert(s@ =~= top + self.rows_text(8));
        while rank > 0
            invariant
                rank <= 8,
                s@ == top + self.rows_text(rank as int),
            decreases rank,
        {
            rank = rank - 1;
            let ghost above = s@;
            s.push(rank_char(rank));
            s.push_str(" |");
            let ghost start = s@;
            let mut file: u8 = 0;
            assert(s@ =~= start + self.cells_text(rank as int, 0));
            while file < 8
                invariant
                    file <= 8,
                    rank < 8,
                    s@ == start + self.cells_text(rank as int, file as int),
                decreases 8 - file,
            {
                let square: u8 = rank * 8 + file;
                let piece_char = self.get_piece_char(square as usize);
                s.push(' ');
                s.push(piece_char);
                s.push(' ');
                file = file + 1;
                assert(s@ =~= start + self.cells_text(rank as int, file as int));
            }
            s.push_str("|\n");
            assert(s@ =~= top + self.rows_text(rank as int)) by {
                assert(s@ =~= above + self.row_text(rank as int));
            }
        }
        s.push_str("  +------------------------+\n");
        s.push_str("    a  b  c  d  e  f  g  h\n");
        s
    }

    /// Whether no square holds two pieces, of one colour or of both.
    pub fn is_consistent(&self) -> (r: bool)
        ensures
            r == self.wf(),
    {
        let white = self.white.combined();
        let black = self.black.combined();
        proof {
            lemma_bit_set_disjoint(white.0, black.0);
        }
        self.white.is_consistent() && self.black.is_consistent() && white.0 & black.0 == 0
    }

    /// No set holds an index that names no square, so such an index shows the
    /// dot.
    pub proof fn lemma_off_board(&self, i: int)
        requires
            !(0 <= i < 64),
        ensures
            !self.occupied().contains(i),
            self.piece_char(i) == '.',
    {
    }

    /// The set of each colour and piece type is the field of that name.
    pub proof fn lemma_fields(&self)
        ensures
            self.spec_get_piece_bitboard(Color::White, Piece::Pawn) == self.white.pawns,
            self.spec_get_piece_bitboard(Color::White, Piece::Knight) == self.white.knights,
            self.spec_get_piece_bitboard(Color::White, Piece::Bishop) == self.white.bishops,
            self.spec_get_piece_bitboard(Color::White, Piece::Rook) == self.white.rooks,
            self.spec_get_piece_bitboard(Color::White, Piece::Queen) == self.white.queens,
            self.spec_get_piece_bitboard(Color::White, Piece::King) == self.white.king,
            self.spec_get_piece_bitboard(Color::Black, Piece::Pawn) == self.black.pawns,
            self.spec_get_piece_bitboard(Color::Black, Piece::Knight) == self.black.knights,
            self.spec_get_piece_bitboard(Color::Black, Piece::Bishop) == self.black.bishops,
            self.spec_get_piece_bitboard(Color::Black, Piece::Rook) == self.black.rooks,
            self.spec_get_piece_bitboard(Color::Black, Piece::Queen) == self.black.queens,
            self.spec_get_piece_bitboard(Color::Black, Piece::King) == self.black.king,
    {
    }

    /// A board is well formed exactly when the sets of any two different pairs
    /// of colour and piece type share no square.
    pub proof fn lemma_wf_pairwise(&self)
        ensures
            self.wf() <==> self.pairwise_disjoint(),
    {
        self.lemma_fields();
        self.white.lemma_fields();
        self.black.lemma_fields();
        if self.wf() {
            assert forall|c1: Color, p1: Piece, c2: Color, p2: Piece|
                c1 != c2 || p1 != p2 implies (#[trigger] self.spec_get_piece_bitboard(c1, p1)@)
                .disjoint(#[trigger] self.spec_get_piece_bitboard(c2, p2)@) by {
                let a: Set<int> = self.spec_get_piece_bitboard(c1, p1)@;
                let b: Set<int> = self.spec_get_piece_bitboard(c2, p2)@;
                if c1 == c2 {
                    assert(self.side_of(c1).bitboard_of(p1)@.disjoint(
                        self.side_of(c1).bitboard_of(p2)@,
                    ));
                } else {
                    assert(a.subset_of(self.side_of(c1).occupied()));
                    assert(b.subset_of(self.side_of(c2).occupied()));
                }
            }
        }
    }

    /// On a well-formed board the order in which the sets are looked through
    /// does not matter: a square shows the symbol of a colour and piece type
    /// exactly when the set of that colour and type holds it, and the dot
    /// exactly when no set holds it.
    pub proof fn lemma_piece_char_owner(&self, color: Color, piece: Piece, i: int)
        requires
            self.wf(),
        ensures
            self.piece_char(i) == piece_symbol(color, piece) <==> self.spec_get_piece_bitboard(
                color,
                piece,
            )@.contains(i),
            self.piece_char(i) == '.' <==> !self.occupied().contains(i),
    {
        self.lemma_wf_pairwise();
        self.lemma_fields();
    }
}

} // verus!
