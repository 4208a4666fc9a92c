//! Facts about masking that the rest of the crate uses.
use vstd::prelude::*;

verus! {

/// A value masked with a low mask is at most the mask.
pub proof fn lemma_mask_bounds()
    by (bit_vector)
    ensures
        forall|x: u16| #[trigger] (x & 7) < 8,
        forall|x: u16| #[trigger] (x & 0xF) < 16,
        forall|x: u16| #[trigger] (x & 0x1F) < 32,
        forall|x: u16| #[trigger] (x & 0x7F) < 0x80,
        forall|x: u16| #[trigger] (x & 0xFF) < 0x100,
        forall|x: u16| #[trigger] (x & 0x7FF) < 0x800,
        forall|x: u16| #[trigger] ((x & 7) | (((x >> 7u16) & 1) << 3u16)) < 16,
        forall|x: u16| #[trigger] (x >> 8u16) < 0x100,
        forall|x: u32| #[trigger] (x & 7) < 8,
        forall|x: u32| #[trigger] (x & 0xF) < 16,
        forall|x: u32| #[trigger] (x & 0x1F) < 32,
        forall|x: u32| #[trigger] (x & 0xFF) < 256,
        forall|x: u32| #[trigger] (x & 0xFFFF) < 0x1_0000,
        forall|x: u32| #[trigger] (x & 0x3FF_FFFF) < 0x400_0000,
        forall|x: u32| #[trigger] (x & 0xFF_FFFF) < 0x100_0000,
        forall|x: u8, y: u8| #[trigger] (x & y) <= x,
{
}

/// How AND, OR, XOR, AND NOT and NOT of two words relate to their
/// operands, bit by bit; and a shift left by 16 keeps the low half of
/// its operand in the high half. Bit 31 is set in the words from
/// 0x8000_0000 up.
pub proof fn lemma_bitwise(a: u32, b: u32)
    by (bit_vector)
    ensures
        (a & b) & !a == 0,
        (a & b) & !b == 0,
        ((a & b) | !a | !b) == 0xFFFF_FFFF,
        (a | b) & a == a,
        (a | b) & b == b,
        ((a | b) & !a) & !b == 0,
        (a ^ b) ^ b == a,
        (a & !b) & b == 0,
        ((a & !b) | (a & b)) == a,
        !b & b == 0,
        (!b | b) == 0xFFFF_FFFF,
        !b == 0xFFFF_FFFF - b,
        !(a | b) & (a | b) == 0,
        (!(a | b) | a | b) == 0xFFFF_FFFF,
        (b << 16u32) >> 16u32 == b & 0xFFFF,
        (b << 16u32) & 0xFFFF == 0,
        ((a >> 31u32) & 1 == 1) <==> a >= 0x8000_0000,
{
}

/// Rotating right by `n` and then left by `n` gives the word back;
/// shifting left by `n` and back right keeps the low 32 - `n` bits and
/// clears the low `n` bits. Shifting a 6-bit field of 3 two-bit entries
/// up by one entry and back down clears its top entry; down and back up
/// clears its bottom entry.
pub proof fn lemma_shift_round_trips(v: u32, n: u32)
    by (bit_vector)
    ensures
        0 < n < 32 ==> ((((v >> n) | (v << ((32u32 - n) as u32))) << n) | (((v >> n) | (v << ((32u32 - n) as u32)))
            >> ((32u32 - n) as u32))) == v,
        0 < n < 32 ==> (v << n) >> n == v & (0xFFFF_FFFFu32 >> n),
        0 < n < 32 ==> ((v << n) >> n) << n == v << n,
        ((((v & !0x3Fu32) | (((v & 0x3F) << 2u32) & 0x3F)) & !0x3Fu32) | ((((v & !0x3Fu32) | (((v
            & 0x3F) << 2u32) & 0x3F)) & 0x3F) >> 2u32)) == v & !0x30u32,
        ((((v & !0x3Fu32) | ((v & 0x3F) >> 2u32)) & !0x3Fu32) | (((((v & !0x3Fu32) | ((v & 0x3F)
            >> 2u32)) & 0x3F) << 2u32) & 0x3F)) == v & !0x3u32,
{
}

/// An address moved by a signed step, wrapping around.
pub open spec fn wrap_add(a: u32, step: i32) -> u32 {
    let t = a + step;
    (if t < 0 {
        t + 0x1_0000_0000
    } else if t >= 0x1_0000_0000 {
        t - 0x1_0000_0000
    } else {
        t
    }) as u32
}

} // verus!
