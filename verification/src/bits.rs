//! 64-bit point maps: bit `i` is point `i`.

use vstd::arithmetic::power2::pow2;
use vstd::bits::lemma_u64_shr_is_div;
use vstd::prelude::*;

verus! {

/// Point `i` of the map; points outside the map are off.
pub open spec fn bit(b: u64, i: int) -> bool {
    0 <= i < 64 && (b >> (i as u64)) & 1 == 1
}

/// The map with point `i` set to `v`; points outside the map do not exist.
pub open spec fn with_bit(b: u64, i: int, v: bool) -> u64 {
    if 0 <= i < 64 {
        if v {
            b | (1u64 << (i as u64))
        } else {
            b & !(1u64 << (i as u64))
        }
    } else {
        b
    }
}

/// The map with the points of `mask` replaced by those of `value`.
pub open spec fn replaced(b: u64, mask: u64, value: u64) -> u64 {
    (b & !mask) | (value & mask)
}

/// Bit `i` of a packed byte string, least significant bit first.
pub open spec fn packed_bit(packed: Seq<u8>, i: int) -> bool {
    bit(packed[i / 8] as u64, i % 8)
}

/// The map after the first `n` packed bits were written to the points from
/// `start` on.
pub open spec fn with_packed(b: u64, start: int, packed: Seq<u8>, n: nat) -> u64
    decreases n,
{
    if n == 0 {
        b
    } else {
        with_bit(
            with_packed(b, start, packed, (n - 1) as nat),
            start + n - 1,
            packed_bit(packed, n - 1),
        )
    }
}

/// Reads point `i`.
pub fn get_bit(b: u64, i: usize) -> (r: bool)
    ensures
        r == bit(b, i as int),
{
    if i >= 64 {
        return false;
    }
    (b >> (i as u64)) & 1 == 1
}

/// Writes point `i`.
pub fn set_bit(b: u64, i: usize, v: bool) -> (r: u64)
    ensures
        r == with_bit(b, i as int, v),
{
    if i >= 64 {
        return b;
    }
    if v {
        b | (1u64 << (i as u64))
    } else {
        b & !(1u64 << (i as u64))
    }
}

/// Replaces the points of `mask` by those of `value`.
pub fn mask_replace(b: u64, mask: u64, value: u64) -> (r: u64)
    ensures
        r == replaced(b, mask, value),
{
    (b & !mask) | (value & mask)
}

/// Reads bit `i` of a packed byte string.
pub fn get_packed_bit(packed: &[u8], i: usize) -> (r: bool)
    requires
        i / 8 < packed@.len(),
    ensures
        r == packed_bit(packed@, i as int),
{
    get_bit(packed[i / 8] as u64, i % 8)
}

/// A written point reads back, and no other point changes.
pub proof fn law_bit_of_with_bit(b: u64, i: int, j: int, v: bool)
    requires
        0 <= i < 64,
        0 <= j < 64,
    ensures
        bit(with_bit(b, i, v), j) == (if i == j {
            v
        } else {
            bit(b, j)
        }),
{
    let (x, y) = (i as u64, j as u64);
    assert(x < 64 && y < 64 ==> (((b | (1u64 << x)) >> y) & 1 == 1) == (x == y || (b >> y) & 1 == 1))
        by (bit_vector);
    assert(x < 64 && y < 64 ==> (((b & !(1u64 << x)) >> y) & 1 == 1) == (x != y && (b >> y) & 1 == 1))
        by (bit_vector);
}

/// A masked replacement takes the points of the mask from the new value and
/// keeps the others.
pub proof fn law_bit_of_replaced(b: u64, mask: u64, value: u64, j: int)
    requires
        0 <= j < 64,
    ensures
        bit(replaced(b, mask, value), j) == (if bit(mask, j) {
            bit(value, j)
        } else {
            bit(b, j)
        }),
{
    let y = j as u64;
    assert(y < 64 ==> (((((b & !mask) | (value & mask)) >> y) & 1 == 1) == (if (mask >> y) & 1 == 1 {
        (value >> y) & 1 == 1
    } else {
        (b >> y) & 1 == 1
    }))) by (bit_vector);
}

/// Writing packed bits changes exactly the points they are written to.
pub proof fn law_bit_of_with_packed(b: u64, start: int, packed: Seq<u8>, n: nat, j: int)
    requires
        0 <= start,
        start + n <= 64,
        0 <= j < 64,
    ensures
        bit(with_packed(b, start, packed, n), j) == (if start <= j < start + n {
            packed_bit(packed, j - start)
        } else {
            bit(b, j)
        }),
    decreases n,
{
    if n > 0 {
        law_bit_of_with_packed(b, start, packed, (n - 1) as nat, j);
        law_bit_of_with_bit(
            with_packed(b, start, packed, (n - 1) as nat),
            start + n - 1,
            j,
            packed_bit(packed, n - 1),
        );
    }
}

/// One more written point, in the form of a mask and a value that has no point
/// at or above `t`.
pub proof fn lemma_mask_step(b: u64, mask: u64, value: u64, t: u64, v: bool)
    requires
        t < 64,
        value >> t == 0,
    ensures
        replaced(
            b,
            mask | (1u64 << t),
            if v {
                value | (1u64 << t)
            } else {
                value
            },
        ) == with_bit(replaced(b, mask, value), t as int, v),
        t < 63 ==> (if v {
            value | (1u64 << t)
        } else {
            value
        }) >> ((t + 1) as u64) == 0,
{
    if v {
        assert((b & !(mask | (1u64 << t))) | ((value | (1u64 << t)) & (mask | (1u64 << t))) == ((b & !mask)
            | (value & mask)) | (1u64 << t)) by (bit_vector)
            requires
                t < 64,
        ;
        assert(t < 63 ==> (value | (1u64 << t)) >> ((t + 1) as u64) == 0) by (bit_vector)
            requires
                t < 64,
                value >> t == 0,
        ;
    } else {
        assert((b & !(mask | (1u64 << t))) | (value & (mask | (1u64 << t))) == ((b & !mask) | (value & mask))
            & !(1u64 << t)) by (bit_vector)
            requires
                t < 64,
                value >> t == 0,
        ;
        assert(t < 63 ==> value >> ((t + 1) as u64) == 0) by (bit_vector)
            requires
                t < 64,
                value >> t == 0,
        ;
    }
}

/// A mask without points replaces nothing.
pub proof fn lemma_replaced_nothing(b: u64)
    ensures
        replaced(b, 0, 0) == b,
        forall|t: u64| t < 64 ==> 0u64 >> t == 0,
{
    assert((b & !0u64) | (0u64 & 0u64) == b) by (bit_vector);
    assert(forall|t: u64| t < 64 ==> 0u64 >> t == 0) by (bit_vector);
}


/// Point `i` of a map is the binary digit of weight two to the `i`.
pub proof fn law_point_is_a_binary_digit(b: u64, i: int)
    requires
        0 <= i < 64,
    ensures
        bit(b, i) <==> (b as int / pow2(i as nat) as int) % 2 == 1,
{
    let y = i as u64;
    lemma_u64_shr_is_div(b, y);
    let d = b >> y;
    assert(d & 1 == d % 2) by (bit_vector);
}

/// Packed points stand eight a byte, the first in the lowest digit.
pub proof fn law_packed_points_are_binary_digits(packed: Seq<u8>, i: int)
    requires
        0 <= i < 8 * packed.len(),
    ensures
        packed_bit(packed, i) <==> (packed[i / 8] as int / pow2((i % 8) as nat) as int) % 2 == 1,
{
    law_point_is_a_binary_digit(packed[i / 8] as u64, i % 8);
}

} // verus!
