//! Two byte integers in network byte order (big endian).
use vstd::prelude::*;

verus! {

/// The two bytes of `v`, most significant first.
pub open spec fn spec_u16_be(v: u16) -> Seq<u8> {
    seq![(v / 256) as u8, (v % 256) as u8]
}

/// The integer whose most significant byte is `hi` and least significant byte is `lo`.
pub open spec fn spec_be16(hi: u8, lo: u8) -> u16 {
    (hi as int * 256 + lo as int) as u16
}

/// Reading back the two bytes of `v` gives `v`.
pub proof fn lemma_u16_be_roundtrip(v: u16, rest: Seq<u8>)
    ensures
        (spec_u16_be(v) + rest).len() == 2 + rest.len(),
        spec_be16((spec_u16_be(v) + rest)[0], (spec_u16_be(v) + rest)[1]) == v,
        (spec_u16_be(v) + rest).skip(2) == rest,
{
    let s = spec_u16_be(v) + rest;
    assert(s.skip(2) =~= rest);
}

/// Appends `v` in network byte order.
pub fn push_u16_be(out: &mut Vec<u8>, v: u16)
    ensures
        final(out)@ == old(out)@ + spec_u16_be(v),
{
    out.push((v / 256) as u8);
    out.push((v % 256) as u8);
    proof {
        assert(final(out)@ =~= old(out)@ + spec_u16_be(v));
    }
}

/// The integer from two bytes in network byte order.
pub fn be16(hi: u8, lo: u8) -> (r: u16)
    ensures
        r == spec_be16(hi, lo),
        r as int == hi as int * 256 + lo as int,
{
    (hi as u16) * 256 + (lo as u16)
}

} // verus!
