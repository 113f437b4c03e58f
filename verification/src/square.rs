//! Squares of the 8x8 board.
use vstd::prelude::*;
use vstd::string::StrSliceExecFns;

verus! {

/// One of the 64 squares, held as its zero-based index: `rank * 8 + file`,
/// with file a and rank 1 counted as 0.
///
/// The index is always below 64: the field is private and every constructor
/// checks the range.
#[derive(Debug, Clone, Copy, PartialEq, Eq, Structural)]
pub struct Square(u8);

impl View for Square {
    type V = int;

    /// The index of the square, from 0 (a1) to 63 (h8).
    closed spec fn view(&self) -> int {
        self.0 as int
    }
}

/// The letter of a file, from `a` for file 0 to `h` for file 7.
pub open spec fn file_letter(file: int) -> char {
    "abcdefgh"@[file]
}

/// The digit of a rank, from `1` for rank 0 to `8` for rank 7.
pub open spec fn rank_digit(rank: int) -> char {
    "12345678"@[rank]
}

/// The letter of the given file.
pub(crate) fn file_char(file: u8) -> (r: char)
    requires
        file < 8,
    ensures
        r == file_letter(file as int),
{
    proof {
        reveal_strlit("abcdefgh");
    }
    "abcdefgh".get_char(file as usize)
}

/// The digit of the given rank.
pub(crate) fn rank_char(rank: u8) -> (r: char)
    requires
        rank < 8,
    ensures
        r == rank_digit(rank as int),
{
    proof {
        reveal_strlit("12345678");
    }
    "12345678".get_char(rank as usize)
}

impl Square {
    #[verifier::type_invariant]
    spec fn in_range(self) -> bool {
        self.0 < 64
    }

    /// The square with the given index, if the index names one.
    pub closed spec fn spec_new(index: u8) -> Option<Square> {
        if index < 64 {
            Some(Square(index))
        } else {
            None
        }
    }

    /// The square on the given file and rank, if both are below 8.
    pub closed spec fn spec_from_coords(file: u8, rank: u8) -> Option<Square> {
        if file < 8 && rank < 8 {
            Some(Square((rank * 8 + file) as u8))
        } else {
            None
        }
    }

    /// Whether the index is below 64. This holds of every square that a
    /// program can hold; a square that stands in a specification alone can be
    /// any value of the type.
    pub open spec fn wf(&self) -> bool {
        0 <= self@ < 64
    }

    /// The file of the square, from 0 (file a) to 7 (file h).
    pub open spec fn spec_file(&self) -> int {
        self@ % 8
    }

    /// The rank of the square, from 0 (rank 1) to 7 (rank 8).
    pub open spec fn spec_rank(&self) -> int {
        self@ / 8
    }

    /// The name of the square in algebraic notation: the letter of its file,
    /// then the digit of its rank.
    pub open spec fn spec_name(&self) -> Seq<char> {
        seq![file_letter(self.spec_file()), rank_digit(self.spec_rank())]
    }

    /// The square with the given index, or `None` when the index is 64 or more.
    #[verifier::when_used_as_spec(spec_new)]
    pub fn new(index: u8) -> (r: Option<Square>)
        ensures
            r == Square::spec_new(index),
            r is Some <==> index < 64,
            r matches Some(s) ==> s@ == index,
    {
        if index < 64 {
            Some(Square(index))
        } else {
            None
        }
    }

    /// The square on the given file and rank, both counted from 0, or `None`
    /// when either is 8 or more.
    #[verifier::when_used_as_spec(spec_from_coords)]
    pub fn from_coords(file: u8, rank: u8) -> (r: Option<Square>)
        ensures
            r == Square::spec_from_coords(file, rank),
            r is Some <==> file < 8 && rank < 8,
            r matches Some(s) ==> s@ == rank * 8 + file,
    {
        if file < 8 && rank < 8 {
            Some(Square(rank * 8 + file))
        } else {
            None
        }
    }

    /// The index of the square.
    pub fn index(&self) -> (r: u8)
        ensures
            r == self@,
            r < 64,
    {
        proof {
            use_type_invariant(self);
        }
        self.0
    }

    /// The file of the square, from 0 (file a) to 7 (file h).
    pub fn file(&self) -> (r: u8)
        ensures
            r == self.spec_file(),
            r < 8,
    {
        self.0 % 8
    }

    /// The rank of the square, from 0 (rank 1) to 7 (rank 8).
    pub fn rank(&self) -> (r: u8)
        ensures
            r == self.spec_rank(),
            r < 8,
    {
        proof {
            use_type_invariant(self);
        }
        self.0 / 8
    }

    /// The name of the square in algebraic notation, such as `e4`.
    pub fn name(&self) -> (r: String)
        ensures
            r@ == self.spec_name(),
    {
        let mut s = String::new();
        s.push(file_char(self.file()));
        s.push(rank_char(self.rank()));
        assert(s@ =~= self.spec_name());
        s
    }

    /// Every index below 64 names a square, and that square has the index.
    pub proof fn lemma_new_index(index: u8)
        requires
            index < 64,
        ensures
            Square::new(index) matches Some(s) && s@ == index && s.wf(),
    {
    }

    /// No index from 64 on names a square.
    pub proof fn lemma_new_out_of_range(index: u8)
        requires
            index >= 64,
        ensures
            Square::new(index) is None,
    {
    }

    /// Every file and rank below 8 name a square: the one with index
    /// `rank * 8 + file`, which lies on that file and rank.
    pub proof fn lemma_from_coords_index(file: u8, rank: u8)
        requires
            file < 8,
            rank < 8,
        ensures
            Square::from_coords(file, rank) matches Some(s) && s@ == rank * 8 + file && s.wf()
                && s.spec_file() == file && s.spec_rank() == rank,
    {
    }

    /// A file or a rank from 8 on names no square.
    pub proof fn lemma_from_coords_out_of_range(file: u8, rank: u8)
        requires
            file >= 8 || rank >= 8,
        ensures
            Square::from_coords(file, rank) is None,
    {
    }

    /// The name of the square on a given file and rank is the letter of the
    /// file followed by the digit of the rank.
    pub proof fn lemma_from_coords_name(file: u8, rank: u8)
        requires
            file < 8,
            rank < 8,
        ensures
            Square::from_coords(file, rank) matches Some(s) && s.spec_name() == seq![
                file_letter(file as int),
                rank_digit(rank as int),
            ],
    {
        Self::lemma_from_coords_index(file, rank);
    }

    /// Building a square from its own file and rank gives the square back.
    pub proof fn lemma_coords_round_trip(self)
        requires
            self.wf(),
        ensures
            Square::from_coords(self.spec_file() as u8, self.spec_rank() as u8) == Some(self),
    {
    }

    /// A square is determined by its index.
    pub proof fn lemma_view_injective(a: Square, b: Square)
        requires
            a@ == b@,
        ensures
            a == b,
    {
    }
}

} // verus!
