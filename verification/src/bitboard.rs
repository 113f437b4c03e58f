//! Sets of squares, one bit per square.
use crate::bits::{
    bit_set, lemma_bit_set_and, lemma_bit_set_and_not, lemma_bit_set_finite,
    lemma_bit_set_injective, lemma_bit_set_nonzero, lemma_bit_set_or, lemma_bit_set_single,
    lemma_bit_set_xor, lemma_bit_set_zero, lemma_trailing_zeros_least,
};
use crate::square::{rank_char, rank_digit, Square};
use vstd::prelude::*;
use vstd::std_specs::bits::axiom_u64_trailing_zeros;

verus! {

/// A set of squares held in a 64-bit word: bit `i` is one exactly when square
/// `i` is in the set.
#[derive(Debug, Clone, Copy, PartialEq, Eq, Structural)]
pub struct BitBoard(pub u64);

impl View for BitBoard {
    type V = Set<int>;

    /// The indices of the squares in the set.
    open spec fn view(&self) -> Set<int> {
        bit_set(self.0)
    }
}

/// Whether `m` is in `squares` and no smaller index is.
pub open spec fn is_least(squares: Set<int>, m: int) -> bool {
    squares.contains(m) && forall|i: int| squares.contains(i) ==> m <= i
}

/// Whether the squares rise in index from each one to the next.
pub open spec fn is_rising(squares: Seq<Square>) -> bool {
    forall|j: int, k: int| 0 <= j < k < squares.len() ==> squares[j]@ < squares[k]@
}

/// The text of one square of the grid: a mark on a square of the set, a dot on
/// any other, each between two blanks.
pub open spec fn cell_text(occupied: bool) -> Seq<char> {
    if occupied {
        " X "@
    } else {
        " . "@
    }
}

/// The text of the first `n` squares of a rank, from file a on.
pub open spec fn cells_text(squares: Set<int>, rank: int, n: int) -> Seq<char>
    decreases n,
{
    if n <= 0 {
        Seq::empty()
    } else {
        cells_text(squares, rank, n - 1) + cell_text(squares.contains(rank * 8 + n - 1))
    }
}

/// One line of the grid: the digit of the rank, its eight squares, a line feed.
pub open spec fn row_text(squares: Set<int>, rank: int) -> Seq<char> {
    seq![rank_digit(rank)] + cells_text(squares, rank, 8) + seq!['\n']
}

/// The lines of the grid from rank 8 down to the given rank.
pub open spec fn rows_text(squares: Set<int>, rank: int) -> Seq<char>
    decreases 8 - rank,
{
    if rank >= 8 {
        Seq::empty()
    } else {
        rows_text(squares, rank + 1) + row_text(squares, rank)
    }
}

/// The grid of a set of squares: eight lines, rank 8 first, then a line that
/// labels the files.
pub open spec fn pretty_text(squares: Set<int>) -> Seq<char> {
    rows_text(squares, 0) + "  a  b  c  d  e  f  g  h\n"@
}

impl BitBoard {
    /// The set without squares.
    pub open spec fn spec_empty() -> BitBoard {
        BitBoard(0)
    }

    /// The set that holds `sq` and no other square.
    pub open spec fn spec_from_square(sq: Square) -> BitBoard {
        BitBoard(1u64 << (sq@ as u64))
    }

    /// The number of squares in the set.
    pub open spec fn spec_popcount(&self) -> nat {
        self@.len()
    }

    /// The set without squares.
    #[verifier::when_used_as_spec(spec_empty)]
    pub fn empty() -> (r: BitBoard)
        ensures
            r == BitBoard::spec_empty(),
            r@ == Set::<int>::empty(),
    {
        proof {
            lemma_bit_set_zero();
        }
        BitBoard(0)
    }

    /// The set that holds `sq` and no other square.
    #[verifier::when_used_as_spec(spec_from_square)]
    pub fn from_square(sq: Square) -> (r: BitBoard)
        ensures
            r == BitBoard::spec_from_square(sq),
            r@ == set![sq@],
    {
        let i: u64 = sq.index() as u64;
        proof {
            lemma_bit_set_single(i);
        }
        BitBoard(1u64 << i)
    }

    /// Adds `sq` to the set: the union with the set of `sq` alone. Adding a
    /// square that is already in the set changes nothing.
    pub fn set(&mut self, sq: Square)
        ensures
            final(self)@ == old(self)@.insert(sq@),
            old(self)@.contains(sq@) ==> *final(self) == *old(self),
    {
        let i: u64 = sq.index() as u64;
        let ghost before = *self;
        self.0 = self.0 | (1u64 << i);
        proof {
            lemma_bit_set_single(i);
            lemma_bit_set_or(before.0, 1u64 << i);
            assert(before@.union(set![sq@]) =~= before@.insert(sq@));
            if before@.contains(sq@) {
                assert(before@.insert(sq@) =~= before@);
                Self::lemma_view_injective(*self, before);
            }
        }
    }

    /// Whether `sq` is in the set.
    pub fn contains(&self, sq: Square) -> (r: bool)
        ensures
            r == self@.contains(sq@),
    {
        let i: u64 = sq.index() as u64;
        (self.0 >> i) & 1 == 1
    }

    /// The number of squares in the set.
    pub fn popcount(&self) -> (r: u32)
        ensures
            r == self.spec_popcount(),
            r == self@.len(),
            r <= 64,
    {
        proof {
            self.lemma_view_bounds();
        }
        self.0.count_ones()
    }

    /// The square of the set with the lowest index, or `None` when the set is
    /// empty.
    pub fn lsb(&self) -> (r: Option<Square>)
        ensures
            r is None <==> self@ == Set::<int>::empty(),
            r matches Some(s) ==> is_least(self@, s@),
    {
        if self.0 == 0 {
            proof {
                lemma_bit_set_zero();
            }
            None
        } else {
            let low: u32 = self.0.trailing_zeros();
            proof {
                axiom_u64_trailing_zeros(self.0);
                lemma_bit_set_nonzero(self.0);
                assert(self@.contains(low as int));
                assert forall|i: int| self@.contains(i) implies low <= i by {
                    lemma_trailing_zeros_least(self.0, i);
                }
            }
            Square::new(low as u8)
        }
    }

    /// Takes the square with the lowest index out of the set and returns it;
    /// `None`, and the set unchanged, when the set is empty.
    ///
    /// Calling this until it returns `None` walks the set in rising order of
    /// index.
    pub fn pop_lsb(&mut self) -> (r: Option<Square>)
        ensures
            r is None <==> old(self)@ == Set::<int>::empty(),
            r is None ==> *final(self) == *old(self),
            r matches Some(s) ==> is_least(old(self)@, s@) && final(self)@ == old(self)@.remove(
                s@,
            ),
    {
        match self.lsb() {
            None => None,
            Some(s) => {
                let i: u64 = s.index() as u64;
                proof {
                    lemma_bit_set_single(i);
                    lemma_bit_set_and_not(self.0, 1u64 << i);
                    assert(self@.difference(set![s@]) =~= self@.remove(s@));
                }
                self.0 = self.0 & !(1u64 << i);
                Some(s)
            },
        }
    }

    /// The squares of the set in rising order of index, found by taking the
    /// lowest square out of what is left until nothing is left.
    pub fn squares(&self) -> (r: Vec<Square>)
        ensures
            r@.len() == self@.len(),
            is_rising(r@),
            forall|i: int| self@.contains(i) <==> exists|k: int| 0 <= k < r@.len() && r@[k]@ == i,
    {
        let mut rest = *self;
        let mut out: Vec<Square> = Vec::new();
        proof {
            self.lemma_view_bounds();
        }
        loop
            invariant
                rest@.finite(),
                out@.len() + rest@.len() == self@.len(),
                is_rising(out@),
                forall|k: int, i: int| 0 <= k < out@.len() && rest@.contains(i) ==> out@[k]@ < i,
                forall|i: int|
                    self@.contains(i) <==> rest@.contains(i) || exists|k: int|
                        0 <= k < out@.len() && out@[k]@ == i,
            ensures
                rest@ == Set::<int>::empty(),
            decreases rest@.len(),
        {
            let ghost before = rest@;
            let ghost found = out@;
            match rest.pop_lsb() {
                None => {
                    break ;
                },
                Some(s) => {
                    out.push(s);
                    proof {
                        assert forall|i: int|
                            self@.contains(i) <==> rest@.contains(i) || exists|k: int|
                                0 <= k < out@.len() && out@[k]@ == i by {
                            if before.contains(i) && i == s@ {
                                assert(out@[found.len() as int]@ == i);
                            }
                            if exists|k: int| 0 <= k < found.len() && found[k]@ == i {
                                let k: int = choose|k: int| 0 <= k < found.len() && found[k]@ == i;
                                assert(out@[k]@ == i);
                            }
                            if exists|k: int| 0 <= k < out@.len() && out@[k]@ == i {
                                let k: int = choose|k: int| 0 <= k < out@.len() && out@[k]@ == i;
                                if k < found.len() {
                                    assert(found[k]@ == i);
                                }
                            }
                        }
                    }
                },
            }
        }
        out
    }

    /// The grid of the set as text, for debugging: eight lines from rank 8 down
    /// to rank 1, each with the digit of its rank and then ` X ` for a square of
    /// the set and ` . ` for any other, and a last line that labels the files.
    pub fn pretty(&self) -> (r: String)
        ensures
            r@ == pretty_text(self@),
    {
        let mut s = String::new();
        let mut rank: u8 = 8;
        assert(s@ =~= rows_text(self@, 8));
        while rank > 0
            invariant
                rank <= 8,
                s@ == rows_text(self@, rank as int),
            decreases rank,
        {
            rank = rank - 1;
            let ghost above = s@;
            s.push(rank_char(rank));
            let ghost start = s@;
            let mut file: u8 = 0;
            assert(s@ =~= start + cells_text(self@, rank as int, 0));
            while file < 8
                invariant
                    file <= 8,
                    rank < 8,
                    s@ == start + cells_text(self@, rank as int, file as int),
                decreases 8 - file,
            {
                let i: u64 = (rank * 8 + file) as u64;
                if (self.0 >> i) & 1 == 1 {
                    s.push_str(" X ");
                } else {
                    s.push_str(" . ");
                }
                file = file + 1;
                assert(s@ =~= start + cells_text(self@, rank as int, file as int));
            }
            s.push('\n');
            assert(s@ =~= above + row_text(self@, rank as int));
        }
        s.push_str("  a  b  c  d  e  f  g  h\n");
        s
    }

    /// The empty set has no square: its `popcount` is 0.
    pub proof fn lemma_popcount_empty()
        ensures
            BitBoard::empty().spec_popcount() == 0,
    {
        lemma_bit_set_zero();
    }

    /// The set made from one square has that square alone: its `popcount` is 1.
    pub proof fn lemma_popcount_single(sq: Square)
        requires
            sq.wf(),
        ensures
            BitBoard::from_square(sq)@ == set![sq@],
            BitBoard::from_square(sq).spec_popcount() == 1,
    {
        lemma_bit_set_single(sq@ as u64);
    }

    /// A set of squares is held by one word only: two bitboards with the same
    /// squares are equal.
    pub proof fn lemma_view_injective(a: BitBoard, b: BitBoard)
        requires
            a@ == b@,
        ensures
            a == b,
    {
        lemma_bit_set_injective(a.0, b.0);
    }

    /// A bitboard holds finitely many squares, at most 64, each with an index
    /// from 0 to 63.
    pub proof fn lemma_view_bounds(self)
        ensures
            self@.finite(),
            self@.len() <= 64,
            forall|i: int| self@.contains(i) ==> 0 <= i < 64,
    {
        lemma_bit_set_finite(self.0);
    }

    /// The bitwise or of two words holds the union of their sets, the bitwise
    /// and the intersection, and the bitwise exclusive or the squares that are
    /// in one of the two sets only.
    pub proof fn lemma_bitwise_is_setwise(a: BitBoard, b: BitBoard)
        ensures
            BitBoard(a.0 | b.0)@ == a@.union(b@),
            BitBoard(a.0 & b.0)@ == a@.intersect(b@),
            BitBoard(a.0 ^ b.0)@ == a@.difference(b@).union(b@.difference(a@)),
    {
        lemma_bit_set_or(a.0, b.0);
        lemma_bit_set_and(a.0, b.0);
        lemma_bit_set_xor(a.0, b.0);
    }
}

} // verus!
