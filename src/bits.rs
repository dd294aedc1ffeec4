//! Bit sequences: a model of bytes as bits, least significant bit first, and
//! the `bitvec` bit-vector that the encoder builds frames in.

use bitvec::order::Lsb0;
use bitvec::vec::BitVec;
use vstd::prelude::*;

verus! {

/// A growable byte-backed bit-vector, bits numbered least significant first
/// within each byte.
#[verifier::external_body]
pub struct FrameBits {
    bits: BitVec<u8, Lsb0>,
}

/// The live bits of a bit-vector, in index order.
pub uninterp spec fn frame_bits(v: FrameBits) -> Seq<bool>;

/// Bit `i` of byte `b`, counting from the least significant bit.
pub open spec fn bit_of(b: u8, i: int) -> bool {
    (b >> (i as u8)) & 1u8 == 1u8
}

/// The bits of a byte sequence: byte `k` gives bits `8k .. 8k + 8`, least
/// significant first.
pub open spec fn bytes_bits(s: Seq<u8>) -> Seq<bool> {
    Seq::new(8 * s.len(), |i: int| bit_of(s[i / 8], i % 8))
}

proof fn lemma_div_mod_8(k: int, m: int)
    requires
        0 <= k,
        0 <= m < 8,
    ensures
        (8 * k + m) / 8 == k,
        (8 * k + m) % 8 == m,
{
    assert((8 * k + m) / 8 == k && (8 * k + m) % 8 == m) by (nonlinear_arith)
        requires
            0 <= k,
            0 <= m < 8,
    ;
}

/// The bits of two byte sequences put together are the bits of the first
/// followed by the bits of the second.
pub proof fn lemma_bytes_bits_concat(a: Seq<u8>, b: Seq<u8>)
    ensures
        bytes_bits(a + b) == bytes_bits(a) + bytes_bits(b),
{
    let l = bytes_bits(a + b);
    let r = bytes_bits(a) + bytes_bits(b);
    assert forall|i: int| 0 <= i < l.len() implies l[i] == r[i] by {
        let k = i / 8;
        let m = i % 8;
        assert(i == 8 * k + m && 0 <= m < 8 && 0 <= k) by (nonlinear_arith)
            requires
                0 <= i,
                k == i / 8,
                m == i % 8,
        ;
        if k < a.len() {
            assert(i < 8 * a.len()) by (nonlinear_arith)
                requires
                    i == 8 * k + m,
                    m < 8,
                    k < a.len(),
            ;
        } else {
            let j = i - 8 * a.len();
            let kb = k - a.len();
            assert(j == 8 * kb + m);
            assert(i >= 8 * a.len()) by (nonlinear_arith)
                requires
                    i == 8 * k + m,
                    m >= 0,
                    k >= a.len(),
            ;
            lemma_div_mod_8(kb, m);
        }
    }
    assert(l =~= r);
}

/// A byte sequence is determined by its bits.
pub proof fn lemma_bytes_bits_injective(a: Seq<u8>, b: Seq<u8>)
    requires
        bytes_bits(a) == bytes_bits(b),
    ensures
        a == b,
{
    assert(bytes_bits(a).len() == 8 * a.len());
    assert(bytes_bits(b).len() == 8 * b.len());
    assert(a.len() == b.len());
    assert forall|k: int| 0 <= k < a.len() implies a[k] == b[k] by {
        let x = a[k];
        let y = b[k];
        assert forall|m: int| 0 <= m < 8 implies bit_of(x, m) == bit_of(y, m) by {
            lemma_div_mod_8(k, m);
            assert(8 * k + m < 8 * a.len()) by (nonlinear_arith)
                requires
                    0 <= m < 8,
                    k < a.len(),
            ;
            let i = 8 * k + m;
            assert(bytes_bits(a)[i] == bytes_bits(b)[i]);
            assert(bytes_bits(a)[i] == bit_of(a[i / 8], i % 8));
            assert(bytes_bits(b)[i] == bit_of(b[i / 8], i % 8));
        }
        assert(bit_of(x, 0) == bit_of(y, 0));
        assert(bit_of(x, 1) == bit_of(y, 1));
        assert(bit_of(x, 2) == bit_of(y, 2));
        assert(bit_of(x, 3) == bit_of(y, 3));
        assert(bit_of(x, 4) == bit_of(y, 4));
        assert(bit_of(x, 5) == bit_of(y, 5));
        assert(bit_of(x, 6) == bit_of(y, 6));
        assert(bit_of(x, 7) == bit_of(y, 7));
        assert(x == y) by (bit_vector)
            requires
                (x >> 0u8) & 1u8 == 1u8 <==> (y >> 0u8) & 1u8 == 1u8,
                (x >> 1u8) & 1u8 == 1u8 <==> (y >> 1u8) & 1u8 == 1u8,
                (x >> 2u8) & 1u8 == 1u8 <==> (y >> 2u8) & 1u8 == 1u8,
                (x >> 3u8) & 1u8 == 1u8 <==> (y >> 3u8) & 1u8 == 1u8,
                (x >> 4u8) & 1u8 == 1u8 <==> (y >> 4u8) & 1u8 == 1u8,
                (x >> 5u8) & 1u8 == 1u8 <==> (y >> 5u8) & 1u8 == 1u8,
                (x >> 6u8) & 1u8 == 1u8 <==> (y >> 6u8) & 1u8 == 1u8,
                (x >> 7u8) & 1u8 == 1u8 <==> (y >> 7u8) & 1u8 == 1u8,
        ;
    }
    assert(a =~= b);
}

/// Relies on `BitVec::new`: the new bit-vector holds no bits.
#[verifier::external_body]
pub(crate) fn bits_new() -> (r: FrameBits)
    ensures
        frame_bits(r) == Seq::<bool>::empty(),
{
    FrameBits { bits: BitVec::new() }
}

/// Relies on `BitVec::extend_from_raw_slice`: the bits of every byte of the
/// slice, each least significant first, are appended in order. It panics when
/// the bit count would pass `usize::MAX >> 3`, which `requires` rules out.
#[verifier::external_body]
pub(crate) fn bits_extend_from_raw_slice(v: &mut FrameBits, s: &[u8])
    requires
        frame_bits(*old(v)).len() + 8 * s@.len() <= usize::MAX / 8,
    ensures
        frame_bits(*final(v)) == frame_bits(*old(v)) + bytes_bits(s@),
{
    v.bits.extend_from_raw_slice(s)
}

/// Relies on `BitVec::into_vec`: the storage bytes that hold the live bits.
/// Every `FrameBits` starts empty from `BitVec::new` and only grows, so its
/// bits begin at the first bit of the storage; when their count is a whole
/// number of bytes no byte holds a dead bit, and the bytes are exactly those
/// whose bits the bit-vector held.
#[verifier::external_body]
pub(crate) fn bits_into_vec(v: FrameBits) -> (r: Vec<u8>)
    ensures
        frame_bits(v).len() % 8 == 0 ==> bytes_bits(r@) == frame_bits(v),
{
    v.bits.into_vec()
}

} // verus!
