//! Per-element bit vectors, held in `bitvec::BitVec`, and their model as a
//! sequence of booleans.

use bitvec::vec::BitVec;
use vstd::prelude::*;

verus! {

/// A per-element bit vector: one bit per element of a nested array, stored
/// in a `bitvec::BitVec`.
#[verifier::external_body]
pub struct Bits {
    inner: BitVec,
}

/// The bits a `Bits` holds, in order.
pub uninterp spec fn bits_of(b: Bits) -> Seq<bool>;

impl View for Bits {
    type V = Seq<bool>;

    open spec fn view(&self) -> Seq<bool> {
        bits_of(*self)
    }
}

/// Position-wise AND, as `BitVec & &BitVec` computes it: the result has the
/// left operand's length, and the right operand is zero-extended.
pub open spec fn and_bits(a: Seq<bool>, b: Seq<bool>) -> Seq<bool> {
    Seq::new(a.len(), |i: int| a[i] && i < b.len() && b[i])
}

/// Position-wise OR, as `BitVec | &BitVec` computes it: the result has the
/// left operand's length, and the right operand is zero-extended.
pub open spec fn or_bits(a: Seq<bool>, b: Seq<bool>) -> Seq<bool> {
    Seq::new(a.len(), |i: int| a[i] || (i < b.len() && b[i]))
}

/// Position-wise complement.
pub open spec fn not_bits(a: Seq<bool>) -> Seq<bool> {
    Seq::new(a.len(), |i: int| !a[i])
}

/// Number of set positions.
pub open spec fn count_true(a: Seq<bool>) -> nat
    decreases a.len(),
{
    if a.len() == 0 {
        0
    } else {
        count_true(a.drop_last()) + if a.last() { 1nat } else { 0nat }
    }
}

/// No position is set exactly when the count of set positions is zero.
pub proof fn lemma_count_true_zero(a: Seq<bool>)
    ensures
        count_true(a) == 0 <==> forall|i: int| 0 <= i < a.len() ==> !a[i],
    decreases a.len(),
{
    if a.len() > 0 {
        lemma_count_true_zero(a.drop_last());
        if count_true(a) == 0 {
            assert forall|i: int| 0 <= i < a.len() implies !a[i] by {
                if i < a.len() - 1 {
                    assert(a.drop_last()[i] == a[i]);
                }
            }
        } else if forall|i: int| 0 <= i < a.len() ==> !a[i] {
            assert forall|i: int| 0 <= i < a.drop_last().len() implies !a.drop_last()[i] by {
                assert(a.drop_last()[i] == a[i]);
            }
            assert(!a[a.len() - 1]);
        }
    }
}

/// Relies on `BitVec::new`: a bit vector with no bits.
#[verifier::external_body]
fn bits_new() -> (r: Bits)
    ensures
        bits_of(r).len() == 0,
{
    Bits { inner: BitVec::new() }
}

/// Relies on `BitVec::push`: the bit is appended at the end.
#[verifier::external_body]
fn bits_push(b: &mut Bits, bit: bool)
    requires
        bits_of(*old(b)).len() < MAX_BITS,
    ensures
        bits_of(*final(b)) == bits_of(*old(b)).push(bit),
{
    b.inner.push(bit)
}

/// Relies on `BitSlice::len`: the number of bits held.
#[verifier::external_body]
fn bits_len(b: &Bits) -> (r: usize)
    ensures
        r == bits_of(*b).len(),
{
    b.inner.len()
}

/// Relies on `BitSlice::get` (through `Deref`): the bit at an index in range.
#[verifier::external_body]
fn bits_get(b: &Bits, i: usize) -> (r: bool)
    requires
        i < bits_of(*b).len(),
    ensures
        r == bits_of(*b)[i as int],
{
    b.inner[i]
}

/// Relies on `Clone for BitVec`: the copy holds the same bits.
#[verifier::external_body]
fn bits_clone(b: &Bits) -> (r: Bits)
    ensures
        bits_of(r) == bits_of(*b),
{
    Bits { inner: b.inner.clone() }
}

/// Relies on `BitAnd for BitVec` (through `BitAndAssign<&BitSlice>`): a shorter
/// right operand is zero-extended, so excess bits of the left are cleared.
#[verifier::external_body]
fn bits_and(a: Bits, b: &Bits) -> (r: Bits)
    ensures
        bits_of(r) == and_bits(bits_of(a), bits_of(*b)),
{
    Bits { inner: a.inner & &b.inner }
}

/// Relies on `BitOr for BitVec` (through `BitOrAssign<&BitSlice>`): a shorter
/// right operand is zero-extended, so excess bits of the left are kept.
#[verifier::external_body]
fn bits_or(a: Bits, b: &Bits) -> (r: Bits)
    ensures
        bits_of(r) == or_bits(bits_of(a), bits_of(*b)),
{
    Bits { inner: a.inner | &b.inner }
}

/// Relies on `Not for BitVec`: every live bit is inverted, the length kept.
#[verifier::external_body]
fn bits_not(a: Bits) -> (r: Bits)
    ensures
        bits_of(r) == not_bits(bits_of(a)),
{
    Bits { inner: !a.inner }
}

/// Relies on `BitSlice::count_ones`: the number of bits set to one.
#[verifier::external_body]
fn bits_count_ones(a: &Bits) -> (r: usize)
    ensures
        r as nat == count_true(bits_of(*a)),
{
    a.inner.count_ones()
}

/// Position-wise AND of `a` with `b` (see `and_bits`).
pub fn and_with(a: Bits, b: &Bits) -> (r: Bits)
    ensures
        r@ == and_bits(a@, b@),
{
    bits_and(a, b)
}

/// Position-wise OR of `a` with `b` (see `or_bits`).
pub fn or_with(a: Bits, b: &Bits) -> (r: Bits)
    ensures
        r@ == or_bits(a@, b@),
{
    bits_or(a, b)
}

/// Position-wise complement of `a`.
pub fn complement(a: Bits) -> (r: Bits)
    ensures
        r@ == not_bits(a@),
{
    bits_not(a)
}

/// Largest number of bits a `BitVec` can hold (`BitSlice::MAX_BITS`).
pub const MAX_BITS: usize = usize::MAX >> 3;

impl Bits {
    /// An empty bit vector.
    pub fn new() -> (r: Bits)
        ensures
            r@ == Seq::<bool>::empty(),
    {
        bits_new()
    }

    /// A bit vector holding `bits`, in order.
    pub fn from_bools(bits: &Vec<bool>) -> (r: Bits)
        requires
            bits@.len() <= MAX_BITS,
        ensures
            r@ == bits@,
    {
        let mut r = bits_new();
        let mut i: usize = 0;
        while i < bits.len()
            invariant
                i <= bits@.len() <= MAX_BITS,
                r@ == bits@.subrange(0, i as int),
            decreases bits@.len() - i,
        {
            bits_push(&mut r, bits[i]);
            i = i + 1;
            assert(r@ == bits@.subrange(0, i as int));
        }
        assert(bits@.subrange(0, bits@.len() as int) == bits@);
        r
    }

    /// The bits held, in order.
    pub fn to_bools(&self) -> (r: Vec<bool>)
        ensures
            r@ == self@,
    {
        let n = bits_len(self);
        let mut r: Vec<bool> = Vec::new();
        let mut i: usize = 0;
        while i < n
            invariant
                n == self@.len(),
                i <= n,
                r@ == self@.subrange(0, i as int),
            decreases n - i,
        {
            r.push(bits_get(self, i));
            i = i + 1;
            assert(r@ == self@.subrange(0, i as int));
        }
        assert(self@.subrange(0, n as int) == self@);
        r
    }

    /// A copy holding the same bits.
    pub fn duplicate(&self) -> (r: Bits)
        ensures
            r@ == self@,
    {
        bits_clone(self)
    }

    /// Number of bits held.
    pub fn len(&self) -> (r: usize)
        ensures
            r == self@.len(),
    {
        bits_len(self)
    }

    /// Whether no bits are held.
    pub fn is_empty(&self) -> (r: bool)
        ensures
            r == (self@.len() == 0),
    {
        bits_len(self) == 0
    }

    /// The bit at `i`, if `i` is in range.
    pub fn get(&self, i: usize) -> (r: Option<bool>)
        ensures
            r == (if i < self@.len() { Some(self@[i as int]) } else { None::<bool> }),
    {
        if i < bits_len(self) {
            Some(bits_get(self, i))
        } else {
            None
        }
    }

    /// Number of set bits.
    pub fn count_ones(&self) -> (r: usize)
        ensures
            r as nat == count_true(self@),
    {
        bits_count_ones(self)
    }
}

} // verus!
