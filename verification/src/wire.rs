//! Little-endian numbers and runs of bytes, as the packet formats lay them out.

use vstd::prelude::*;

verus! {

/// The two bytes of a number, low byte first.
pub open spec fn le16(number: u16) -> Seq<u8> {
    seq![(number % 256) as u8, (number / 256) as u8]
}

/// The number whose low byte stands at `at` and whose high byte follows it.
pub open spec fn le16_at(bytes: Seq<u8>, at: int) -> u16 {
    (bytes[at] + 256 * bytes[at + 1]) as u16
}

/// `count` zero bytes.
pub open spec fn zeros(count: nat) -> Seq<u8> {
    Seq::new(count, |i: int| 0u8)
}

/// `bytes` cut or filled with zeros to `size`.
pub open spec fn resized(bytes: Seq<u8>, size: nat) -> Seq<u8> {
    if bytes.len() >= size {
        bytes.take(size as int)
    } else {
        bytes + zeros((size - bytes.len()) as nat)
    }
}

/// The same bytes with each neighbouring pair exchanged: 1 0 3 2 5 4.
pub open spec fn pairs_swapped(bytes: Seq<u8>) -> Seq<u8> {
    seq![bytes[1], bytes[0], bytes[3], bytes[2], bytes[5], bytes[4]]
}

/// `byteorder::LittleEndian::read_u16`: the number that the first two bytes hold, low byte first.
/// It panics on fewer than two bytes.
#[verifier::external_body]
pub(crate) fn read_u16(bytes: &[u8]) -> (number: u16)
    requires
        bytes@.len() >= 2,
    ensures
        number == le16_at(bytes@, 0),
{
    <byteorder::LittleEndian as byteorder::ByteOrder>::read_u16(bytes)
}

/// `bytes::Buf::get_u8` on a byte slice: its first byte. It panics on an empty slice.
#[verifier::external_body]
pub(crate) fn get_u8(mut bytes: &[u8]) -> (byte: u8)
    requires
        bytes@.len() >= 1,
    ensures
        byte == bytes@[0],
{
    bytes::Buf::get_u8(&mut bytes)
}

/// `bytes::Buf::copy_to_bytes` on a byte slice: a copy of its first `count` bytes. It panics where
/// the slice holds fewer.
#[verifier::external_body]
pub(crate) fn copy_to_bytes(mut bytes: &[u8], count: usize) -> (copied: Vec<u8>)
    requires
        count <= bytes@.len(),
    ensures
        copied@ == bytes@.take(count as int),
{
    bytes::Buf::copy_to_bytes(&mut bytes, count).to_vec()
}

/// The number at a position of a packet.
pub fn read_u16_at(bytes: &[u8], at: usize) -> (number: u16)
    requires
        at + 2 <= bytes@.len(),
    ensures
        number == le16_at(bytes@, at as int),
{
    let end: usize = bytes.len();
    read_u16(&bytes[at..end])
}

/// Appends a number, low byte first.
pub fn push_u16(buffer: &mut Vec<u8>, number: u16)
    ensures
        final(buffer)@ == old(buffer)@ + le16(number),
{
    buffer.push((number % 256) as u8);
    buffer.push((number / 256) as u8);
}

/// A copy of part of a packet.
pub fn copy_range(bytes: &[u8], from: usize, to: usize) -> (copied: Vec<u8>)
    requires
        from <= to <= bytes@.len(),
    ensures
        copied@ == bytes@.subrange(from as int, to as int),
{
    let mut copied: Vec<u8> = Vec::new();
    copied.extend_from_slice(&bytes[from..to]);
    proof {
        assert(copied@ =~= bytes@.subrange(from as int, to as int));
    }
    copied
}

/// Writing a number and reading it back gives the number.
pub proof fn law_le16_round_trip(number: u16)
    ensures
        le16_at(le16(number), 0) == number,
{
}

/// Exchanging the pairs of an address twice gives the address.
pub proof fn law_pairs_swapped_twice(octets: Seq<u8>)
    requires
        octets.len() == 6,
    ensures
        pairs_swapped(pairs_swapped(octets)) == octets,
{
    assert(pairs_swapped(pairs_swapped(octets)) =~= octets);
}

} // verus!
