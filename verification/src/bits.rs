//! Facts about shifts and masks by constants, stated as division and remainder.

use vstd::prelude::*;

verus! {

/// Shifting a 32-bit word right by a constant divides it by a power of two;
/// masking it with 2^k - 1 takes it modulo 2^k.
pub proof fn lemma_u32_shift_mask()
    by (bit_vector)
    ensures
        forall|x: u32| x < 0x10_0000 ==> #[trigger] (x << 12u32) == x * 0x1000,
        forall|x: u32| #[trigger] (x >> 1u32) == x / 2,
        forall|x: u32| #[trigger] (x >> 2u32) == x / 4,
        forall|x: u32| #[trigger] (x >> 3u32) == x / 8,
        forall|x: u32| #[trigger] (x >> 5u32) == x / 32,
        forall|x: u32| #[trigger] (x >> 7u32) == x / 0x80,
        forall|x: u32| #[trigger] (x >> 8u32) == x / 0x100,
        forall|x: u32| #[trigger] (x >> 10u32) == x / 0x400,
        forall|x: u32| #[trigger] (x >> 11u32) == x / 0x800,
        forall|x: u32| #[trigger] (x >> 12u32) == x / 0x1000,
        forall|x: u32| #[trigger] (x >> 15u32) == x / 0x8000,
        forall|x: u32| #[trigger] (x >> 16u32) == x / 0x1_0000,
        forall|x: u32| #[trigger] (x >> 20u32) == x / 0x10_0000,
        forall|x: u32| #[trigger] (x >> 22u32) == x / 0x40_0000,
        forall|x: u32| #[trigger] (x >> 24u32) == x / 0x100_0000,
        forall|x: u32| #[trigger] (x >> 25u32) == x / 0x200_0000,
        forall|x: u32| #[trigger] (x >> 27u32) == x / 0x800_0000,
        forall|x: u32| #[trigger] (x >> 31u32) == x / 0x8000_0000,
        forall|x: u32| #[trigger] (x & 1) == x % 2,
        forall|x: u32| #[trigger] (x & 3) == x % 4,
        forall|x: u32| #[trigger] (x & 7) == x % 8,
        forall|x: u32| #[trigger] (x & 0xf) == x % 0x10,
        forall|x: u32| #[trigger] (x & 0x1f) == x % 0x20,
        forall|x: u32| #[trigger] (x & 0x3f) == x % 0x40,
        forall|x: u32| #[trigger] (x & 0x7f) == x % 0x80,
        forall|x: u32| #[trigger] (x & 0xff) == x % 0x100,
        forall|x: u32| #[trigger] (x & 0x3ff) == x % 0x400,
        forall|x: u32| #[trigger] (x & 0xfff) == x % 0x1000,
        forall|x: u32| #[trigger] (x & 0xffff) == x % 0x1_0000,
        forall|x: u32| #[trigger] (x & 0x3f_ffff) == x % 0x40_0000,
        forall|x: u32| #[trigger] (x & 0xfff_ffff) == x % 0x1000_0000,
        forall|x: u32| #[trigger] (x & 0x7fff_ffff) == x % 0x8000_0000,
        forall|x: u32| #[trigger] (x & 0xffff_f000) == x - x % 0x1000,
        forall|x: u32| #[trigger] (x & 0xffff_fffe) == x - x % 2,
{
}

/// The same facts for 64-bit words.
pub proof fn lemma_u64_shift_mask()
    by (bit_vector)
    ensures
        forall|x: u64| #[trigger] (x >> 8u64) == x / 0x100,
        forall|x: u64| #[trigger] (x >> 12u64) == x / 0x1000,
        forall|x: u64| #[trigger] (x >> 16u64) == x / 0x1_0000,
        forall|x: u64| #[trigger] (x >> 24u64) == x / 0x100_0000,
        forall|x: u64| #[trigger] (x >> 32u64) == x / 0x1_0000_0000,
        forall|x: u64| #[trigger] (x >> 48u64) == x / 0x1_0000_0000_0000,
        forall|x: u64| #[trigger] (x >> 56u64) == x / 0x100_0000_0000_0000,
        forall|x: u64| #[trigger] (x >> 63u64) == x / 0x8000_0000_0000_0000,
        forall|x: u64| #[trigger] (x & 0xff) == x % 0x100,
        forall|x: u64| #[trigger] (x & 0xfff) == x % 0x1000,
        forall|x: u64| #[trigger] (x & 0xffff_ffff) == x % 0x1_0000_0000,
{
}

/// Setting or clearing bit `b` of a word affects that bit alone.
pub proof fn lemma_u32_single_bit()
    by (bit_vector)
    ensures
        forall|w: u32, b: u32| b < 32 ==> #[trigger] ((w | (1u32 << b)) & (1u32 << b)) != 0,
        forall|w: u32, b: u32| b < 32 ==> #[trigger] ((w & !(1u32 << b)) & (1u32 << b)) == 0,
        forall|w: u32, b: u32, c: u32| b < 32 && c < 32 && b != c
            ==> #[trigger] ((w | (1u32 << b)) & (1u32 << c)) == w & (1u32 << c),
        forall|w: u32, b: u32, c: u32| b < 32 && c < 32 && b != c
            ==> #[trigger] ((w & !(1u32 << b)) & (1u32 << c)) == w & (1u32 << c),
{
}

/// Flag bits 0x02 and 0x04 of a byte are set and cleared independently.
pub proof fn lemma_u8_flags()
    by (bit_vector)
    ensures
        forall|f: u8| #[trigger] ((f | 4) & 4) != 0 && ((f | 4) & 2) == f & 2,
        forall|f: u8| #[trigger] ((f & !4u8) & 4) == 0 && ((f & !4u8) & 2) == f & 2,
        forall|f: u8| #[trigger] ((f | 2) & 2) != 0 && ((f | 2) & 4) == f & 4,
        forall|f: u8| #[trigger] ((f & !2u8) & 2) == 0 && ((f & !2u8) & 4) == f & 4,
        forall|f: u8| #[trigger] (f & 1) == f % 2,
        forall|f: u8| #[trigger] (f & 2) == (f / 2) % 2 * 2,
        forall|f: u8| #[trigger] (f & 0x80) == (f / 0x80) * 0x80,
        forall|f: u8| #[trigger] (f & 0x0F) == f % 0x10,
{
}

} // verus!
