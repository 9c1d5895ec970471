use vstd::arithmetic::div_mod::lemma_fundamental_div_mod_converse;
use vstd::prelude::*;

verus! {

/// The two octets of a 16-bit value in big-endian order.
pub open spec fn u16_be_bytes(v: u16) -> Seq<u8> {
    seq![((v as int) / 0x100) as u8, ((v as int) % 0x100) as u8]
}

/// The four octets of a 32-bit value in big-endian order.
pub open spec fn u32_be_bytes(v: u32) -> Seq<u8> {
    seq![
        ((v as int) / 0x1000000) as u8,
        (((v as int) / 0x10000) % 0x100) as u8,
        (((v as int) / 0x100) % 0x100) as u8,
        ((v as int) % 0x100) as u8,
    ]
}

/// The 16-bit value read big-endian from two octets.
pub open spec fn be16_val(b0: u8, b1: u8) -> int {
    b0 * 0x100 + b1
}

/// The 32-bit value read big-endian from four octets.
pub open spec fn be32_val(b0: u8, b1: u8, b2: u8, b3: u8) -> int {
    b0 * 0x1000000 + b1 * 0x10000 + b2 * 0x100 + b3
}

/// Packing two octets big-endian into a 16-bit value is inverted by
/// division and remainder by 256.
pub proof fn lemma_be16_digits(b0: u8, b1: u8)
    ensures
        0 <= be16_val(b0, b1) < 0x10000,
        be16_val(b0, b1) / 0x100 == b0,
        be16_val(b0, b1) % 0x100 == b1,
{
    lemma_fundamental_div_mod_converse(be16_val(b0, b1), 0x100, b0 as int, b1 as int);
}

/// Packing four octets big-endian into a 32-bit value is inverted by
/// division and remainder by powers of 256.
pub proof fn lemma_be32_digits(b0: u8, b1: u8, b2: u8, b3: u8)
    ensures
        0 <= be32_val(b0, b1, b2, b3) < 0x100000000,
        be32_val(b0, b1, b2, b3) / 0x1000000 == b0,
        (be32_val(b0, b1, b2, b3) / 0x10000) % 0x100 == b1,
        (be32_val(b0, b1, b2, b3) / 0x100) % 0x100 == b2,
        be32_val(b0, b1, b2, b3) % 0x100 == b3,
{
    let v = be32_val(b0, b1, b2, b3);
    lemma_fundamental_div_mod_converse(v, 0x100, b0 * 0x10000 + b1 * 0x100 + b2, b3 as int);
    lemma_fundamental_div_mod_converse(v / 0x100, 0x100, b0 * 0x100 + b1, b2 as int);
    lemma_fundamental_div_mod_converse((v / 0x100) / 0x100, 0x100, b0 as int, b1 as int);
    assert((v / 0x100) / 0x100 == v / 0x10000) by {
        vstd::arithmetic::div_mod::lemma_div_denominator(v, 0x100, 0x100);
    };
    assert(((v / 0x100) / 0x100) / 0x100 == v / 0x1000000) by {
        vstd::arithmetic::div_mod::lemma_div_denominator(v, 0x10000, 0x100);
    };
}

} // verus!
