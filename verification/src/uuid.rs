//! Deterministic composition of two type UUIDs.

use vstd::prelude::*;

verus! {

/// The byte a composite UUID holds at position `i`: the base byte xored
/// with the right-rotated other byte, with the version nibble forced to 4
/// and the variant bits to the standard variant.
pub open spec fn composite_byte(a: u8, b: u8, i: int) -> u8 {
    let x = a ^ ((b >> 1) | ((b & 1) << 7));
    if i == 6 {
        (x & 0x0f) | 0x40
    } else if i == 8 {
        (x & 0x1f) | 0x80
    } else {
        x
    }
}

/// Generates a new UUID from the UUIDs `a` and `b`: bytewise
/// `a ^ rotate_right(b, 1)`, with the version field set to 4 and the
/// variant field to the standard variant.  Rotating the second operand
/// keeps the composition sensitive to nesting order.
pub fn generate_composite_uuid(a: [u8; 16], b: [u8; 16]) -> (r: [u8; 16])
    ensures
        forall|i: int| 0 <= i < 16 ==> #[trigger] r@[i] == composite_byte(a@[i], b@[i], i),
{
    let mut out: [u8; 16] = [0u8; 16];
    let mut i: usize = 0;
    while i < 16
        invariant
            i <= 16,
            forall|k: int| 0 <= k < i ==> #[trigger] out@[k] == composite_byte(a@[k], b@[k], k),
        decreases 16 - i,
    {
        let rot: u8 = (b[i] >> 1) | ((b[i] & 1) << 7);
        let mut x: u8 = a[i] ^ rot;
        if i == 6 {
            x = (x & 0x0f) | 0x40;
        }
        if i == 8 {
            x = (x & 0x1f) | 0x80;
        }
        out[i] = x;
        i += 1;
    }
    out
}

} // verus!
