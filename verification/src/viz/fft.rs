//! Index arithmetic of the radix-2 FFT.
use vstd::prelude::*;

verus! {

/// Bit `k` of `x`.
pub open spec fn bit(x: u32, k: u32) -> bool {
    (x >> k) & 1 == 1
}

proof fn lemma_set_bit(y: u32, b: u32, p: u32, j: u32)
    requires
        p < 32,
        j < 32,
        b <= 1,
    ensures
        bit(y | (b << p), j) == (bit(y, j) || (j == p && b == 1)),
{
    assert(((y | (b << p)) >> j) & 1 == 1 <==> (((y >> j) & 1 == 1) || (j == p && b == 1))) by (bit_vector)
        requires
            p < 32,
            j < 32,
            b <= 1,
    ;
}

proof fn lemma_shift_step(x0: u32, i: u32)
    requires
        i < 32,
    ensures
        (x0 >> i) >> 1u32 == x0 >> ((i + 1) as u32),
        ((x0 >> i) & 1 == 1) == bit(x0, i),
        (x0 >> i) & 1 <= 1,
{
    assert((x0 >> i) >> 1u32 == x0 >> ((i + 1) as u32)) by (bit_vector)
        requires
            i < 32,
    ;
    assert((x0 >> i) & 1 <= 1) by (bit_vector);
}

/// `y` holds the lowest `bits` bits of `x` in reverse order and nothing above them.
pub open spec fn reversed(x: u32, bits: u32, y: u32) -> bool {
    &&& forall|k: u32| k < bits ==> bit(y, k) == bit(x, (bits - 1 - k) as u32)
    &&& forall|k: u32| bits <= k < 32 ==> !bit(y, k)
}

/// Two words with the same bits are equal.
proof fn lemma_bits_equal(a: u32, b: u32)
    requires
        forall|k: u32| k < 32 ==> bit(a, k) == bit(b, k),
    ensures
        a == b,
{
    assert(bit(a, 0u32) == bit(b, 0u32));
    assert(bit(a, 1u32) == bit(b, 1u32));
    assert(bit(a, 2u32) == bit(b, 2u32));
    assert(bit(a, 3u32) == bit(b, 3u32));
    assert(bit(a, 4u32) == bit(b, 4u32));
    assert(bit(a, 5u32) == bit(b, 5u32));
    assert(bit(a, 6u32) == bit(b, 6u32));
    assert(bit(a, 7u32) == bit(b, 7u32));
    assert(bit(a, 8u32) == bit(b, 8u32));
    assert(bit(a, 9u32) == bit(b, 9u32));
    assert(bit(a, 10u32) == bit(b, 10u32));
    assert(bit(a, 11u32) == bit(b, 11u32));
    assert(bit(a, 12u32) == bit(b, 12u32));
    assert(bit(a, 13u32) == bit(b, 13u32));
    assert(bit(a, 14u32) == bit(b, 14u32));
    assert(bit(a, 15u32) == bit(b, 15u32));
    assert(bit(a, 16u32) == bit(b, 16u32));
    assert(bit(a, 17u32) == bit(b, 17u32));
    assert(bit(a, 18u32) == bit(b, 18u32));
    assert(bit(a, 19u32) == bit(b, 19u32));
    assert(bit(a, 20u32) == bit(b, 20u32));
    assert(bit(a, 21u32) == bit(b, 21u32));
    assert(bit(a, 22u32) == bit(b, 22u32));
    assert(bit(a, 23u32) == bit(b, 23u32));
    assert(bit(a, 24u32) == bit(b, 24u32));
    assert(bit(a, 25u32) == bit(b, 25u32));
    assert(bit(a, 26u32) == bit(b, 26u32));
    assert(bit(a, 27u32) == bit(b, 27u32));
    assert(bit(a, 28u32) == bit(b, 28u32));
    assert(bit(a, 29u32) == bit(b, 29u32));
    assert(bit(a, 30u32) == bit(b, 30u32));
    assert(bit(a, 31u32) == bit(b, 31u32));
    assert(a == b) by (bit_vector)
        requires
            ((a >> 0u32) & 1 == 1) == ((b >> 0u32) & 1 == 1),
            ((a >> 1u32) & 1 == 1) == ((b >> 1u32) & 1 == 1),
            ((a >> 2u32) & 1 == 1) == ((b >> 2u32) & 1 == 1),
            ((a >> 3u32) & 1 == 1) == ((b >> 3u32) & 1 == 1),
            ((a >> 4u32) & 1 == 1) == ((b >> 4u32) & 1 == 1),
            ((a >> 5u32) & 1 == 1) == ((b >> 5u32) & 1 == 1),
            ((a >> 6u32) & 1 == 1) == ((b >> 6u32) & 1 == 1),
            ((a >> 7u32) & 1 == 1) == ((b >> 7u32) & 1 == 1),
            ((a >> 8u32) & 1 == 1) == ((b >> 8u32) & 1 == 1),
            ((a >> 9u32) & 1 == 1) == ((b >> 9u32) & 1 == 1),
            ((a >> 10u32) & 1 == 1) == ((b >> 10u32) & 1 == 1),
            ((a >> 11u32) & 1 == 1) == ((b >> 11u32) & 1 == 1),
            ((a >> 12u32) & 1 == 1) == ((b >> 12u32) & 1 == 1),
            ((a >> 13u32) & 1 == 1) == ((b >> 13u32) & 1 == 1),
            ((a >> 14u32) & 1 == 1) == ((b >> 14u32) & 1 == 1),
            ((a >> 15u32) & 1 == 1) == ((b >> 15u32) & 1 == 1),
            ((a >> 16u32) & 1 == 1) == ((b >> 16u32) & 1 == 1),
            ((a >> 17u32) & 1 == 1) == ((b >> 17u32) & 1 == 1),
            ((a >> 18u32) & 1 == 1) == ((b >> 18u32) & 1 == 1),
            ((a >> 19u32) & 1 == 1) == ((b >> 19u32) & 1 == 1),
            ((a >> 20u32) & 1 == 1) == ((b >> 20u32) & 1 == 1),
            ((a >> 21u32) & 1 == 1) == ((b >> 21u32) & 1 == 1),
            ((a >> 22u32) & 1 == 1) == ((b >> 22u32) & 1 == 1),
            ((a >> 23u32) & 1 == 1) == ((b >> 23u32) & 1 == 1),
            ((a >> 24u32) & 1 == 1) == ((b >> 24u32) & 1 == 1),
            ((a >> 25u32) & 1 == 1) == ((b >> 25u32) & 1 == 1),
            ((a >> 26u32) & 1 == 1) == ((b >> 26u32) & 1 == 1),
            ((a >> 27u32) & 1 == 1) == ((b >> 27u32) & 1 == 1),
            ((a >> 28u32) & 1 == 1) == ((b >> 28u32) & 1 == 1),
            ((a >> 29u32) & 1 == 1) == ((b >> 29u32) & 1 == 1),
            ((a >> 30u32) & 1 == 1) == ((b >> 30u32) & 1 == 1),
            ((a >> 31u32) & 1 == 1) == ((b >> 31u32) & 1 == 1),
    ;
}

/// The bits of `y` below `bits`, as a mask keeps them.
proof fn lemma_low_mask(y: u32, bits: u32, k: u32)
    requires
        bits < 32,
        k < 32,
    ensures
        bit(y & (((1u32 << bits) - 1) as u32), k) == (bit(y, k) && k < bits),
        y & (((1u32 << bits) - 1) as u32) < (1u32 << bits),
{
    assert((((y & (((1u32 << bits) - 1) as u32)) >> k) & 1 == 1) == (((y >> k) & 1 == 1) && k < bits))
        by (bit_vector)
        requires
            bits < 32,
            k < 32,
    ;
    assert(y & (((1u32 << bits) - 1) as u32) < (1u32 << bits)) by (bit_vector)
        requires
            bits < 32,
    ;
}

/// A number below `2^bits` has no bit set at or above `bits`.
proof fn lemma_below_clear(x: u32, bits: u32, k: u32)
    requires
        bits <= k < 32,
        x < (1u32 << bits),
    ensures
        !bit(x, k),
{
    assert((x >> k) & 1 != 1) by (bit_vector)
        requires
            bits <= k < 32,
            x < (1u32 << bits),
    ;
}

/// Reversing the lowest `bits` bits twice gives back a number below `2^bits`, and the
/// reversed number is below `2^bits` too (for `bits == 32` every word is).
pub proof fn lemma_bit_reverse_twice(x: u32, bits: u32, y: u32, z: u32)
    requires
        bits <= 32,
        bits < 32 ==> x < (1u32 << bits),
        reversed(x, bits, y),
        reversed(y, bits, z),
    ensures
        bits < 32 ==> y < (1u32 << bits),
        z == x,
{
    assert forall|k: u32| k < 32 implies bit(z, k) == bit(x, k) by {
        if k < bits {
            let m = (bits - 1 - k) as u32;
            assert((bits - 1 - m) as u32 == k);
        } else {
            lemma_below_clear(x, bits, k);
        }
    }
    lemma_bits_equal(z, x);
    if bits < 32 {
        let m = y & (((1u32 << bits) - 1) as u32);
        assert forall|k: u32| k < 32 implies bit(m, k) == bit(y, k) by {
            lemma_low_mask(y, bits, k);
        }
        lemma_bits_equal(m, y);
        lemma_low_mask(y, bits, 0);
    }
}

/// The lowest `bits` bits of `x` in reverse order: bit `k` of the result is bit
/// `bits - 1 - k` of `x`, and the bits above are clear.
pub fn bit_reverse(x: u32, bits: u32) -> (y: u32)
    requires
        bits <= 32,
    ensures
        reversed(x, bits, y),
{
    let x0 = x;
    let mut x = x;
    let mut y: u32 = 0;
    let mut i: u32 = 0;
    assert(x0 >> 0u32 == x0) by (bit_vector);
    assert forall|k: u32| k < 32 implies !bit(0u32, k) by {
        assert((0u32 >> k) & 1 == 0) by (bit_vector);
    }
    while i < bits
        invariant
            bits <= 32,
            i <= bits,
            x == x0 >> i,
            forall|k: u32| k < i ==> bit(y, (bits - 1 - k) as u32) == bit(x0, k),
            forall|k: u32| k < 32 && !(bits - i <= k < bits) ==> !bit(y, k),
        decreases bits - i,
    {
        let b = x & 1;
        let p = bits - 1 - i;
        proof {
            lemma_shift_step(x0, i);
        }
        let ghost y0 = y;
        y = y | (b << p);
        x = x >> 1;
        proof {
            assert forall|k: u32| k < i + 1 implies bit(y, (bits - 1 - k) as u32) == bit(x0, k) by {
                let q = (bits - 1 - k) as u32;
                lemma_set_bit(y0, b, p, q);
                if k == i {
                    assert(!bit(y0, p));
                }
            }
            assert forall|k: u32| k < 32 && !(bits - (i + 1) <= k < bits) implies !bit(y, k) by {
                lemma_set_bit(y0, b, p, k);
            }
        }
        i = i + 1;
    }
    proof {
        assert forall|k: u32| k < bits implies bit(y, k) == bit(x0, (bits - 1 - k) as u32) by {
            let m = (bits - 1 - k) as u32;
            assert((bits - 1 - m) as u32 == k);
        }
    }
    y
}

} // verus!
