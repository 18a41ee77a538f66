//! UTF-8 encoded strings and length prefixed byte buffers.
use vstd::prelude::*;
use vstd::string::StringSliceAdditionalSpecFns;
use vstd::utf8::*;

use super::number::{be16, push_u16_be, spec_be16, spec_u16_be, lemma_u16_be_roundtrip};

verus! {

/// Largest number of bytes of a length prefixed buffer or string.
pub const MAX_PREFIXED_BYTES: usize = 65_535;

/// One of the last two code points of the 16 supplementary planes.
pub open spec fn spec_last_two_supplementary(c: char) -> bool {
    let v = c as u32 as int;
    &&& (v % 65536 == 0xFFFE || v % 65536 == 0xFFFF)
    &&& 1 <= v / 65536 <= 16
}

/// The character may appear in an MQTT string: it's not NULL, a control character or a
/// non-character.
pub open spec fn spec_valid_char(c: char) -> bool {
    let v = c as u32 as int;
    &&& !(v <= 0x1F)
    &&& !(0xFDD0 <= v <= 0xFDEF)
    &&& !(0xFFFE <= v <= 0xFFFF)
    &&& !spec_last_two_supplementary(c)
}

/// Every character of the string may appear in an MQTT string.
pub open spec fn all_valid_chars(s: Seq<char>) -> bool {
    forall|i: int| 0 <= i < s.len() ==> spec_valid_char(#[trigger] s[i])
}

/// The buffer prefixed with its length as two bytes.
pub open spec fn spec_len_prefixed(data: Seq<u8>) -> Seq<u8> {
    spec_u16_be(data.len() as u16) + data
}

/// The bytes of an MQTT UTF-8 string.
pub open spec fn spec_str_bytes(s: Seq<char>) -> Seq<u8> {
    spec_len_prefixed(encode_utf8(s))
}

/// Splits a length prefixed buffer off the front: the data and the number of bytes read, or
/// `None` when there are not enough bytes.
pub open spec fn spec_read_len_prefixed(buf: Seq<u8>) -> Option<(Seq<u8>, nat)> {
    if buf.len() < 2 {
        None
    } else {
        let n = spec_be16(buf[0], buf[1]) as int;
        if buf.len() < 2 + n {
            None
        } else {
            Some((buf.subrange(2, 2 + n), (2 + n) as nat))
        }
    }
}

/// Reading a length prefixed buffer gives back the data that was written, whatever follows.
pub proof fn lemma_len_prefixed_roundtrip(data: Seq<u8>, rest: Seq<u8>)
    requires
        data.len() <= MAX_PREFIXED_BYTES,
    ensures
        spec_read_len_prefixed(spec_len_prefixed(data) + rest) == Some((data, (2 + data.len() as int) as nat)),
        (spec_len_prefixed(data) + rest).skip(2 + data.len() as int) == rest,
{
    let s = spec_len_prefixed(data) + rest;
    lemma_u16_be_roundtrip(data.len() as u16, data + rest);
    assert(s =~= spec_u16_be(data.len() as u16) + (data + rest));
    assert(s.subrange(2, 2 + data.len() as int) =~= data);
    assert(s.skip(2 + data.len() as int) =~= rest);
}

/// Strings of valid characters round trip through their UTF-8 bytes.
pub proof fn lemma_utf8_roundtrip(s: Seq<char>)
    ensures
        valid_utf8(encode_utf8(s)),
        decode_utf8(encode_utf8(s)) == s,
{
    encode_utf8_valid_utf8(s);
    encode_utf8_decode_utf8(s);
}

/// Checks the last two code points of each of the supplementary planes.
pub fn is_last_two_supplementary(c: char) -> (r: bool)
    ensures
        r == spec_last_two_supplementary(c),
{
    let val = c as u32;
    let last_bits = val & 0xFFFF;
    let plane = val >> 16;
    proof {
        assert(val & 0xFFFF == val % 65536) by (bit_vector);
        assert(val >> 16 == val / 65536) by (bit_vector);
    }
    (last_bits == 0xFFFE || last_bits == 0xFFFF) && (0x01 <= plane && plane <= 0x10)
}

/// Check if the UTF-8 character is valid for the MQTT string.
///
/// This will check for NULL, control and non characters.
pub fn is_valid_char(c: char) -> (r: bool)
    ensures
        r == spec_valid_char(c),
{
    let v = c as u32;
    if v <= 0x1F || (0xFDD0 <= v && v <= 0xFDEF) || (0xFFFE <= v && v <= 0xFFFF) {
        false
    } else {
        !is_last_two_supplementary(c)
    }
}

/// Checks every character of the string with [`is_valid_char`].
pub fn all_chars_valid(s: &str) -> (r: bool)
    ensures
        r == all_valid_chars(s@),
{
    let mut ok = true;
    for c in it: s.chars()
        invariant
            it.seq() == s@,
            ok == (forall|i: int| 0 <= i < it.index() ==> spec_valid_char(#[trigger] s@[i])),
    {
        if !is_valid_char(c) {
            ok = false;
        }
    }
    ok
}

/// Reads the bytes as UTF-8 with [`core::str::from_utf8`].
///
/// The contract claims what the standard library documents: the call succeeds exactly when the
/// bytes are valid UTF-8, and then the string holds exactly those bytes.
#[verifier::external_body]
pub fn str_from_utf8(bytes: &[u8]) -> (r: Option<&str>)
    ensures
        r is Some <==> valid_utf8(bytes@),
        r matches Some(s) ==> s.spec_bytes() == bytes@,
{
    core::str::from_utf8(bytes).ok()
}

/// Splits a length prefixed buffer off the front of `buf`.
pub fn read_len_prefixed<'a>(buf: &'a [u8]) -> (r: Option<(&'a [u8], &'a [u8])>)
    ensures
        match spec_read_len_prefixed(buf@) {
            Some((data, n)) => r matches Some((d, rest)) && d@ == data && rest@ == buf@.skip(n as int),
            None => r is None,
        },
{
    if buf.len() < 2 {
        return None;
    }
    let n = be16(buf[0], buf[1]) as usize;
    if buf.len() - 2 < n {
        return None;
    }
    let (_, tail) = buf.split_at(2);
    let (data, rest) = tail.split_at(n);
    proof {
        assert(data@ =~= buf@.subrange(2, 2 + n));
        assert(rest@ =~= buf@.skip(2 + n));
    }
    Some((data, rest))
}

/// Appends the bytes.
pub fn push_bytes(out: &mut Vec<u8>, data: &[u8])
    ensures
        final(out)@ == old(out)@ + data@,
{
    let ghost start = out@;
    let mut i: usize = 0;
    while i < data.len()
        invariant
            0 <= i <= data@.len(),
            out@ == start + data@.take(i as int),
        decreases data@.len() - i,
    {
        out.push(data[i]);
        i = i + 1;
        proof {
            assert(out@ =~= start + data@.take(i as int));
        }
    }
    proof {
        assert(data@.take(i as int) =~= data@);
    }
}

/// Appends the buffer prefixed by its length.
pub fn push_len_prefixed(out: &mut Vec<u8>, data: &[u8])
    requires
        data@.len() <= MAX_PREFIXED_BYTES,
    ensures
        final(out)@ == old(out)@ + spec_len_prefixed(data@),
{
    push_u16_be(out, data.len() as u16);
    push_bytes(out, data);
    proof {
        assert(final(out)@ =~= old(out)@ + spec_len_prefixed(data@));
    }
}

} // verus!
