//! The bits of a 64-bit word, read as a set of positions.
//!
//! Everything the board types say about sets of squares rests on the facts
//! proved here: each bitwise operation on words is the matching operation on
//! the sets of their one bits.
use vstd::prelude::*;
use vstd::set_lib::{lemma_int_range, lemma_len_subset, set_int_range};
use vstd::std_specs::bits::{axiom_u64_trailing_zeros, u64_trailing_zeros};

verus! {

/// Whether position `i` of `bits` holds a one. No position outside 0..64 does.
pub open spec fn bit_is_set(bits: u64, i: int) -> bool {
    0 <= i < 64 && (bits >> (i as u64)) & 1 == 1
}

/// The positions of `bits` that hold a one.
pub open spec fn bit_set(bits: u64) -> Set<int> {
    Set::new(|i: int| bit_is_set(bits, i))
}

/// `u64::count_ones` of std, which vstd leaves without a contract. std documents
/// it as the number of ones in the binary representation of the word; stated
/// here as the number of positions of the word that hold a one.
pub assume_specification[ u64::count_ones ](bits: u64) -> (r: u32)
    ensures
        r == bit_set(bits).len(),
;

/// The one bits of a word are finitely many, at most 64.
pub proof fn lemma_bit_set_finite(bits: u64)
    ensures
        bit_set(bits).finite(),
        bit_set(bits).len() <= 64,
{
    lemma_int_range(0, 64);
    assert(bit_set(bits).subset_of(set_int_range(0, 64)));
    lemma_len_subset(bit_set(bits), set_int_range(0, 64));
}

/// The zero word has no one bit.
pub proof fn lemma_bit_set_zero()
    ensures
        bit_set(0) == Set::<int>::empty(),
{
    assert forall|i: int| !bit_is_set(0, i) by {
        if 0 <= i < 64 {
            let j: u64 = i as u64;
            assert((0u64 >> j) & 1 == 0) by (bit_vector);
        }
    }
    assert(bit_set(0) =~= Set::<int>::empty());
}

/// A word other than zero has a one bit: the one above its trailing zeros.
pub proof fn lemma_bit_set_nonzero(bits: u64)
    requires
        bits != 0,
    ensures
        bit_is_set(bits, u64_trailing_zeros(bits) as int),
{
    axiom_u64_trailing_zeros(bits);
}

/// No one bit of a word lies below its count of trailing zeros.
pub proof fn lemma_trailing_zeros_least(bits: u64, i: int)
    requires
        bit_is_set(bits, i),
    ensures
        u64_trailing_zeros(bits) <= i,
{
    axiom_u64_trailing_zeros(bits);
    let j: u64 = i as u64;
    if j < u64_trailing_zeros(bits) {
        assert((bits >> j) & 1 == 0);
    }
}

/// `1 << s` has its one bit at position `s` and nowhere else.
pub proof fn lemma_bit_single(s: u64, i: int)
    requires
        s < 64,
    ensures
        bit_is_set(1u64 << s, i) <==> i == s,
{
    if 0 <= i < 64 {
        let j: u64 = i as u64;
        assert(((1u64 << s) >> j) & 1 == 1 <==> j == s) by (bit_vector)
            requires
                s < 64,
                j < 64,
        ;
    }
}

/// A bit of `a | b` is one where it is one in `a` or in `b`.
pub proof fn lemma_bit_or(a: u64, b: u64, i: int)
    ensures
        bit_is_set(a | b, i) <==> bit_is_set(a, i) || bit_is_set(b, i),
{
    if 0 <= i < 64 {
        let j: u64 = i as u64;
        assert(((a | b) >> j) & 1 == 1 <==> (a >> j) & 1 == 1 || (b >> j) & 1 == 1)
            by (bit_vector);
    }
}

/// A bit of `a & b` is one where it is one in `a` and in `b`.
pub proof fn lemma_bit_and(a: u64, b: u64, i: int)
    ensures
        bit_is_set(a & b, i) <==> bit_is_set(a, i) && bit_is_set(b, i),
{
    if 0 <= i < 64 {
        let j: u64 = i as u64;
        assert(((a & b) >> j) & 1 == 1 <==> (a >> j) & 1 == 1 && (b >> j) & 1 == 1)
            by (bit_vector);
    }
}

/// A bit of `a ^ b` is one where it is one in exactly one of `a` and `b`.
pub proof fn lemma_bit_xor(a: u64, b: u64, i: int)
    ensures
        bit_is_set(a ^ b, i) <==> bit_is_set(a, i) != bit_is_set(b, i),
{
    if 0 <= i < 64 {
        let j: u64 = i as u64;
        assert(((a ^ b) >> j) & 1 == 1 <==> ((a >> j) & 1 == 1) != ((b >> j) & 1 == 1))
            by (bit_vector);
    }
}

/// A bit of `a & !b` is one where it is one in `a` and not in `b`.
pub proof fn lemma_bit_and_not(a: u64, b: u64, i: int)
    ensures
        bit_is_set(a & !b, i) <==> bit_is_set(a, i) && !bit_is_set(b, i),
{
    if 0 <= i < 64 {
        let j: u64 = i as u64;
        assert(((a & !b) >> j) & 1 == 1 <==> (a >> j) & 1 == 1 && (b >> j) & 1 != 1)
            by (bit_vector);
    }
}

/// `1 << s` stands for the set that holds `s` alone.
pub proof fn lemma_bit_set_single(s: u64)
    requires
        s < 64,
    ensures
        bit_set(1u64 << s) == set![s as int],
{
    assert forall|i: int| bit_is_set(1u64 << s, i) <==> i == s by {
        lemma_bit_single(s, i);
    }
    assert(bit_set(1u64 << s) =~= set![s as int]);
}

/// Bitwise or is the union of the sets.
pub proof fn lemma_bit_set_or(a: u64, b: u64)
    ensures
        bit_set(a | b) == bit_set(a).union(bit_set(b)),
{
    assert forall|i: int| bit_is_set(a | b, i) <==> bit_is_set(a, i) || bit_is_set(b, i) by {
        lemma_bit_or(a, b, i);
    }
    assert(bit_set(a | b) =~= bit_set(a).union(bit_set(b)));
}

/// Bitwise and is the intersection of the sets.
pub proof fn lemma_bit_set_and(a: u64, b: u64)
    ensures
        bit_set(a & b) == bit_set(a).intersect(bit_set(b)),
{
    assert forall|i: int| bit_is_set(a & b, i) <==> bit_is_set(a, i) && bit_is_set(b, i) by {
        lemma_bit_and(a, b, i);
    }
    assert(bit_set(a & b) =~= bit_set(a).intersect(bit_set(b)));
}

/// Bitwise exclusive or is the symmetric difference of the sets.
pub proof fn lemma_bit_set_xor(a: u64, b: u64)
    ensures
        bit_set(a ^ b) == bit_set(a).difference(bit_set(b)).union(
            bit_set(b).difference(bit_set(a)),
        ),
{
    assert forall|i: int| bit_is_set(a ^ b, i) <==> bit_is_set(a, i) != bit_is_set(b, i) by {
        lemma_bit_xor(a, b, i);
    }
    assert(bit_set(a ^ b) =~= bit_set(a).difference(bit_set(b)).union(
        bit_set(b).difference(bit_set(a)),
    ));
}

/// Clearing the bits of `b` in `a` is the difference of the sets.
pub proof fn lemma_bit_set_and_not(a: u64, b: u64)
    ensures
        bit_set(a & !b) == bit_set(a).difference(bit_set(b)),
{
    assert forall|i: int| bit_is_set(a & !b, i) <==> bit_is_set(a, i) && !bit_is_set(b, i) by {
        lemma_bit_and_not(a, b, i);
    }
    assert(bit_set(a & !b) =~= bit_set(a).difference(bit_set(b)));
}

/// Two words share no one bit exactly when their bitwise and is zero.
pub proof fn lemma_bit_set_disjoint(a: u64, b: u64)
    ensures
        a & b == 0 <==> bit_set(a).disjoint(bit_set(b)),
{
    if a & b == 0 {
        lemma_bit_set_zero();
        assert forall|i: int| bit_set(a).contains(i) implies !bit_set(b).contains(i) by {
            lemma_bit_and(a, b, i);
            assert(!bit_set(0).contains(i));
        }
    } else {
        lemma_bit_set_nonzero(a & b);
        let i: int = u64_trailing_zeros(a & b) as int;
        lemma_bit_and(a, b, i);
        assert(bit_set(a).contains(i) && bit_set(b).contains(i));
    }
}

/// A word is determined by the set of its one bits.
pub proof fn lemma_bit_set_injective(a: u64, b: u64)
    requires
        bit_set(a) == bit_set(b),
    ensures
        a == b,
{
    if a != b {
        assert(a ^ b != 0) by (bit_vector)
            requires
                a != b,
        ;
        lemma_bit_set_nonzero(a ^ b);
        let i: int = u64_trailing_zeros(a ^ b) as int;
        lemma_bit_xor(a, b, i);
        assert(bit_set(a).contains(i) == bit_is_set(a, i));
        assert(bit_set(b).contains(i) == bit_is_set(b, i));
    }
}

} // verus!
