//! The policy for unsigned integers: those that fit the host's signed 64-bit
//! integer stay integers, larger ones become doubles.

use vstd::prelude::*;
use crate::host::{HostValue, HostView};

verus! {

/// The IEEE 754 binary64 bit pattern of the double nearest to `n`, ties to even, for
/// `n` from 2^63 up to 2^64 - 1.
///
/// Such a double keeps the top 53 bits of `n`: `n / 2048`, rounded by the 11 bits
/// dropped. Its exponent field is 1086, and the kept bits include the implicit leading
/// one, so the pattern is `1085 * 2^52` plus the kept bits; a carry out of the 53 bits
/// moves the exponent to 1087, which is 2^64.
pub open spec fn large_double_bits(n: nat) -> nat {
    let kept = n / 2048;
    let dropped = n % 2048;
    let rounded = if dropped > 1024 || (dropped == 1024 && kept % 2 == 1) {
        kept + 1
    } else {
        kept
    };
    (1085 * 0x10_0000_0000_0000 + rounded) as nat
}

/// The host value of an unsigned integer, as contracts see it.
pub open spec fn unsigned_view(n: u64) -> HostView {
    if n <= i64::MAX {
        HostView::Int(n as int)
    } else {
        HostView::Float(large_double_bits(n as nat) as u64)
    }
}

/// The double behind [`large_double_bits`] is a nearest one: its 53 significant bits,
/// scaled back by 2048, lie within half a step of `n`, and a tie keeps them even.
pub proof fn lemma_large_double_is_nearest(n: nat)
    requires
        0x8000_0000_0000_0000 <= n <= 0xFFFF_FFFF_FFFF_FFFF,
    ensures
        ({
            let significand = large_double_bits(n) - 1085 * 0x10_0000_0000_0000;
            &&& 0x10_0000_0000_0000 <= significand <= 0x20_0000_0000_0000
            &&& -1024 <= significand * 2048 - n <= 1024
            &&& (significand * 2048 - n == 1024 || n - significand * 2048 == 1024) ==> significand
                % 2 == 0
        }),
        large_double_bits(n) <= u64::MAX,
{
}

/// An unsigned integer within the signed range stays that integer; a larger one
/// becomes a double and never an integer.
pub proof fn lemma_unsigned_policy(n: u64)
    ensures
        n <= i64::MAX ==> unsigned_view(n) == HostView::Int(n as int),
        n > i64::MAX ==> unsigned_view(n) is Float,
{
}

/// The bit pattern of the double nearest to `n`, for `n` above `i64::MAX`.
fn large_to_double_bits(n: u64) -> (bits: u64)
    requires
        n > i64::MAX,
    ensures
        bits == large_double_bits(n as nat),
{
    let kept: u64 = n / 2048;
    let dropped: u64 = n % 2048;
    let base: u64 = 0x43D0_0000_0000_0000;
    assert(base == 1085 * 0x10_0000_0000_0000);
    if dropped > 1024 || (dropped == 1024 && kept % 2 == 1) {
        base + (kept + 1)
    } else {
        base + kept
    }
}

/// The host value of an unsigned integer: an integer where it fits `i64`, else the
/// nearest double.
pub fn unsigned_to_host(n: u64) -> (v: HostValue)
    ensures
        v@ == unsigned_view(n),
{
    if n <= 0x7FFF_FFFF_FFFF_FFFF {
        HostValue::Int(n as i64)
    } else {
        HostValue::Float(large_to_double_bits(n))
    }
}

} // verus!
