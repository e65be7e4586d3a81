//! Byte-level encoding shared by the persisted record and the instruction
//! decoder: little-endian integers and 32-byte addresses.

use vstd::prelude::*;
use vstd::bytes::{
    spec_u16_to_le_bytes, spec_u16_from_le_bytes,
    spec_u32_to_le_bytes, spec_u32_from_le_bytes,
    spec_u64_to_le_bytes, spec_u64_from_le_bytes, lemma_auto_spec_u64_to_from_le_bytes,
    u16_from_le_bytes, u32_from_le_bytes, u64_from_le_bytes, u16_to_le_bytes, u32_to_le_bytes,
    u64_to_le_bytes,
};
use vstd::slice::slice_subrange;
use crate::addr::Address;

verus! {

/// An address on the wire: its four words, little-endian, 32 bytes in all.
pub open spec fn spec_address_to_bytes(a: Address) -> Seq<u8> {
    spec_u64_to_le_bytes(a.w0) + spec_u64_to_le_bytes(a.w1) + spec_u64_to_le_bytes(a.w2)
        + spec_u64_to_le_bytes(a.w3)
}

/// The address held in a 32-byte sequence.
pub open spec fn spec_address_from_bytes(s: Seq<u8>) -> Address
    recommends
        s.len() == 32,
{
    Address {
        w0: spec_u64_from_le_bytes(s.subrange(0, 8)),
        w1: spec_u64_from_le_bytes(s.subrange(8, 16)),
        w2: spec_u64_from_le_bytes(s.subrange(16, 24)),
        w3: spec_u64_from_le_bytes(s.subrange(24, 32)),
    }
}

/// Encoding an address and reading it back yields the address; the encoding
/// is 32 bytes long.
pub proof fn lemma_address_roundtrip(a: Address)
    ensures
        spec_address_to_bytes(a).len() == 32,
        spec_address_from_bytes(spec_address_to_bytes(a)) == a,
{
    lemma_auto_spec_u64_to_from_le_bytes();
    let s = spec_address_to_bytes(a);
    assert(s.subrange(0, 8) =~= spec_u64_to_le_bytes(a.w0));
    assert(s.subrange(8, 16) =~= spec_u64_to_le_bytes(a.w1));
    assert(s.subrange(16, 24) =~= spec_u64_to_le_bytes(a.w2));
    assert(s.subrange(24, 32) =~= spec_u64_to_le_bytes(a.w3));
}

/// Reads the u64 encoded little-endian at `pos`.
pub fn read_u64_at(data: &[u8], pos: usize) -> (x: u64)
    requires
        pos + 8 <= data@.len(),
    ensures
        x == spec_u64_from_le_bytes(data@.subrange(pos as int, pos as int + 8)),
{
    let _n: usize = data.len();
    u64_from_le_bytes(slice_subrange(data, pos, pos + 8))
}

/// Reads the u32 encoded little-endian at `pos`.
pub fn read_u32_at(data: &[u8], pos: usize) -> (x: u32)
    requires
        pos + 4 <= data@.len(),
    ensures
        x == spec_u32_from_le_bytes(data@.subrange(pos as int, pos as int + 4)),
{
    let _n: usize = data.len();
    u32_from_le_bytes(slice_subrange(data, pos, pos + 4))
}

/// Reads the u16 encoded little-endian at `pos`.
pub fn read_u16_at(data: &[u8], pos: usize) -> (x: u16)
    requires
        pos + 2 <= data@.len(),
    ensures
        x == spec_u16_from_le_bytes(data@.subrange(pos as int, pos as int + 2)),
{
    let _n: usize = data.len();
    u16_from_le_bytes(slice_subrange(data, pos, pos + 2))
}

/// Reads the 32-byte address at `pos`.
pub fn read_address_at(data: &[u8], pos: usize) -> (a: Address)
    requires
        pos + 32 <= data@.len(),
    ensures
        a == spec_address_from_bytes(data@.subrange(pos as int, pos as int + 32)),
{
    let _n: usize = data.len();
    let w0 = read_u64_at(data, pos);
    let w1 = read_u64_at(data, pos + 8);
    let w2 = read_u64_at(data, pos + 16);
    let w3 = read_u64_at(data, pos + 24);
    proof {
        let p = pos as int;
        let s = data@.subrange(p, p + 32);
        assert(s.subrange(0, 8) =~= data@.subrange(p, p + 8));
        assert(s.subrange(8, 16) =~= data@.subrange(p + 8, p + 16));
        assert(s.subrange(16, 24) =~= data@.subrange(p + 16, p + 24));
        assert(s.subrange(24, 32) =~= data@.subrange(p + 24, p + 32));
    }
    Address { w0, w1, w2, w3 }
}

/// Appends a u64, little-endian.
pub fn push_u64(out: &mut Vec<u8>, x: u64)
    ensures
        final(out)@ == old(out)@ + spec_u64_to_le_bytes(x),
{
    let mut bytes = u64_to_le_bytes(x);
    out.append(&mut bytes);
}

/// Appends a u32, little-endian.
pub fn push_u32(out: &mut Vec<u8>, x: u32)
    ensures
        final(out)@ == old(out)@ + spec_u32_to_le_bytes(x),
{
    let mut bytes = u32_to_le_bytes(x);
    out.append(&mut bytes);
}

/// Appends a u16, little-endian.
pub fn push_u16(out: &mut Vec<u8>, x: u16)
    ensures
        final(out)@ == old(out)@ + spec_u16_to_le_bytes(x),
{
    let mut bytes = u16_to_le_bytes(x);
    out.append(&mut bytes);
}

/// Appends an address's 32 bytes.
pub fn push_address(out: &mut Vec<u8>, a: Address)
    ensures
        final(out)@ == old(out)@ + spec_address_to_bytes(a),
{
    push_u64(out, a.w0);
    push_u64(out, a.w1);
    push_u64(out, a.w2);
    push_u64(out, a.w3);
    proof {
        assert(out@ =~= old(out)@ + spec_address_to_bytes(a));
    }
}

} // verus!
