//! Facts about bit operations on bytes and words, shared by the drivers.
use vstd::prelude::*;

verus! {

/// A big-endian byte pair is its high byte times 256 plus its low byte.
pub proof fn lemma_be16()
    by (bit_vector)
    ensures
        forall|h: u8, l: u8| #[trigger] (((h as u16) << 8u16) | (l as u16)) == h * 256 + l,
{
}

/// Masking low bits of a byte is taking it modulo a power of two, and
/// shifting it right is dividing.
pub proof fn lemma_u8_low_bits()
    by (bit_vector)
    ensures
        forall|x: u8| #[trigger] (x & 1) == x % 2,
        forall|x: u8| #[trigger] (x & 3) == x % 4,
        forall|x: u8| #[trigger] (x & 7) == x % 8,
        forall|x: u8| #[trigger] (x & 0x0F) == x % 16,
        forall|x: u8| #[trigger] (x >> 4u8) == x / 16,
        forall|x: u8| #[trigger] (x >> 0u8) == x,
        forall|x: u8| #[trigger] (x | 0u8) == x,
        forall|x: u8| #[trigger] (x & !0u8) == x,
        forall|x: u8| #[trigger] (x ^ 0u8) == x,
        forall|x: u8| #[trigger] (x ^ x) == 0u8,
{
}

/// The high and low bytes of a word.
pub proof fn lemma_u16_bytes()
    by (bit_vector)
    ensures
        forall|v: u16| #[trigger] (v >> 8u16) == v / 256,
        forall|v: u16| #[trigger] (v & 0xFF) == v % 256,
        forall|v: u16| #[trigger] (v as u8) == v % 256,
{
}

/// Setting and clearing single bits of a byte.
pub proof fn lemma_u8_masks()
    by (bit_vector)
    ensures
        forall|v: u8, m: u8| #[trigger] ((v & !0u8) | m) == (v | m),
        forall|v: u8, m: u8| #[trigger] ((v & !m) | 0u8) == (v & !m),
        forall|v: u8| (#[trigger] (v & 0u8)) == 0u8,
        forall|m: u8| (#[trigger] (0u8 & m)) == 0u8,
{
}

} // verus!
