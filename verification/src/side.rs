//! The pieces of one player.
use crate::bitboard::BitBoard;
use crate::bits::{lemma_bit_set_disjoint, lemma_bit_set_or};
use crate::piece::Piece;
use vstd::prelude::*;

verus! {

/// The squares of one player's pieces, one set per piece type.
///
/// No square should be in two of the six sets. The type does not enforce this:
/// [`Side::wf`] states it and [`Side::is_consistent`] tests it. Code that
/// changes a field has to keep it.
#[derive(Debug, Clone, Copy, PartialEq, Eq, Structural)]
pub struct Side {
    pub pawns: BitBoard,
    pub knights: BitBoard,
    pub bishops: BitBoard,
    pub rooks: BitBoard,
    pub queens: BitBoard,
    pub king: BitBoard,
}

impl Side {
    /// The set of the given piece type.
    pub open spec fn bitboard_of(&self, piece: Piece) -> BitBoard {
        match piece {
            Piece::Pawn => self.pawns,
            Piece::Knight => self.knights,
            Piece::Bishop => self.bishops,
            Piece::Rook => self.rooks,
            Piece::Queen => self.queens,
            Piece::King => self.king,
        }
    }

    /// The squares that hold a piece of this player, of whatever type: the
    /// union of the six sets.
    pub open spec fn occupied(&self) -> Set<int> {
        self.pawns@ + self.knights@ + self.bishops@ + self.rooks@ + self.queens@ + self.king@
    }

    /// A piece type whose set holds square `i`. On a well-formed side an
    /// occupied square has one such type only; of a free square this says
    /// nothing.
    pub open spec fn piece_at(&self, i: int) -> Piece {
        choose|piece: Piece| self.bitboard_of(piece)@.contains(i)
    }

    /// No square holds two pieces of this player: the sets of any two different
    /// piece types share no square.
    pub open spec fn wf(&self) -> bool {
        forall|p: Piece, q: Piece|
            p != q ==> (#[trigger] self.bitboard_of(p)@).disjoint(#[trigger] self.bitboard_of(q)@)
    }

    /// All squares that hold a piece of this player. Computed from the six sets
    /// at each call.
    pub fn combined(&self) -> (r: BitBoard)
        ensures
            r@ == self.occupied(),
    {
        let pn: u64 = self.pawns.0 | self.knights.0;
        let pnb: u64 = pn | self.bishops.0;
        let pnbr: u64 = pnb | self.rooks.0;
        let pnbrq: u64 = pnbr | self.queens.0;
        proof {
            lemma_bit_set_or(self.pawns.0, self.knights.0);
            lemma_bit_set_or(pn, self.bishops.0);
            lemma_bit_set_or(pnb, self.rooks.0);
            lemma_bit_set_or(pnbr, self.queens.0);
            lemma_bit_set_or(pnbrq, self.king.0);
        }
        BitBoard(pnbrq | self.king.0)
    }

    /// Whether no square holds two pieces of this player.
    pub fn is_consistent(&self) -> (r: bool)
        ensures
            r == self.wf(),
    {
        let pn: u64 = self.pawns.0 | self.knights.0;
        let pnb: u64 = pn | self.bishops.0;
        let pnbr: u64 = pnb | self.rooks.0;
        let pnbrq: u64 = pnbr | self.queens.0;
        proof {
            lemma_bit_set_or(self.pawns.0, self.knights.0);
            lemma_bit_set_or(pn, self.bishops.0);
            lemma_bit_set_or(pnb, self.rooks.0);
            lemma_bit_set_or(pnbr, self.queens.0);
            lemma_bit_set_disjoint(self.pawns.0, self.knights.0);
            lemma_bit_set_disjoint(pn, self.bishops.0);
            lemma_bit_set_disjoint(pnb, self.rooks.0);
            lemma_bit_set_disjoint(pnbr, self.queens.0);
            lemma_bit_set_disjoint(pnbrq, self.king.0);
            self.lemma_fields();
        }
        self.pawns.0 & self.knights.0 == 0 && pn & self.bishops.0 == 0 && pnb & self.rooks.0 == 0
            && pnbr & self.queens.0 == 0 && pnbrq & self.king.0 == 0
    }

    /// The set of each piece type is the field of that name.
    pub proof fn lemma_fields(&self)
        ensures
            self.bitboard_of(Piece::Pawn)@ == self.pawns@,
            self.bitboard_of(Piece::Knight)@ == self.knights@,
            self.bitboard_of(Piece::Bishop)@ == self.bishops@,
            self.bitboard_of(Piece::Rook)@ == self.rooks@,
            self.bitboard_of(Piece::Queen)@ == self.queens@,
            self.bitboard_of(Piece::King)@ == self.king@,
    {
    }

    /// A square is occupied exactly when the set of some piece type holds it.
    pub proof fn lemma_occupied(&self, i: int)
        ensures
            self.occupied().contains(i) <==> exists|piece: Piece|
                self.bitboard_of(piece)@.contains(i),
            self.occupied().contains(i) ==> self.bitboard_of(self.piece_at(i))@.contains(i),
    {
        self.lemma_fields();
    }

    /// On a side that is well formed, every occupied square is in the set of
    /// exactly one piece type.
    pub proof fn lemma_exactly_one_piece(&self, i: int)
        requires
            self.wf(),
            self.occupied().contains(i),
        ensures
            exists|p: Piece|
                self.bitboard_of(p)@.contains(i) && forall|q: Piece|
                    self.bitboard_of(q)@.contains(i) ==> q == p,
    {
        self.lemma_occupied(i);
        let p: Piece = self.piece_at(i);
        assert forall|q: Piece| self.bitboard_of(q)@.contains(i) implies q == p by {
            if q != p {
                assert(self.bitboard_of(p)@.disjoint(self.bitboard_of(q)@));
            }
        }
    }
}

} // verus!
