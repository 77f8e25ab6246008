use vstd::prelude::*;

verus! {

/// The big-endian 16-bit value formed by two bytes.
pub open spec fn be16(hi: u8, lo: u8) -> u16 {
    ((hi as int) * 256 + (lo as int)) as u16
}

/// The two-byte big-endian encoding of a 16-bit value.
pub open spec fn u16_be(v: u16) -> Seq<u8> {
    seq![(v / 256) as u8, (v % 256) as u8]
}

/// Reading back the two bytes of `u16_be(v)` gives `v` again.
pub proof fn lemma_u16_be_round(v: u16)
    ensures
        u16_be(v).len() == 2,
        be16(u16_be(v)[0], u16_be(v)[1]) == v,
{
    assert((v / 256) * 256 + v % 256 == v) by (nonlinear_arith);
}

} // verus!
