//! Bounds-checked extraction of link and network header fields from a raw
//! frame. Every field access is an independent O(1) read at a fixed offset
//! that fails with [`BoundsError`] when the buffer is too short; multi-byte
//! fields are read in network byte order and returned in host order.

use vstd::prelude::*;

use crate::types::PacketType;
use crate::types::spec_protocol_from_code;

verus! {

/// The requested field lies (partly) beyond the end of the frame buffer.
#[derive(Clone, Copy, Debug, PartialEq, Eq, Structural)]
pub struct BoundsError;

/// Length of an Ethernet header: two 6-byte MAC addresses and the 2-byte
/// EtherType field.
pub const ETH_HDR_LEN: usize = 14;

/// Offset of the EtherType field within the Ethernet header.
pub const ETH_PROTO_OFFSET: usize = 12;

/// EtherType value that marks an IPv4 payload.
pub const ETH_P_IP: u16 = 0x0800;

/// Offset of the protocol number within an IPv4 header.
pub const IP_PROTO_OFFSET: usize = 9;

/// Offset of the source address within an IPv4 header.
pub const IP_SADDR_OFFSET: usize = 12;

/// Offset of the destination address within an IPv4 header.
pub const IP_DADDR_OFFSET: usize = 16;

/// Smallest frame from which every field the classifier needs can be read:
/// the destination address, the last such field, ends 34 bytes in.
pub const MIN_IPV4_FRAME_LEN: usize = 34;

/// The 16-bit big-endian integer standing at offset `i` of `b`.
pub open spec fn be16_at(b: Seq<u8>, i: int) -> u16
    recommends
        0 <= i,
        i + 2 <= b.len(),
{
    (b[i] * 0x100 + b[i + 1]) as u16
}

/// The 32-bit big-endian integer standing at offset `i` of `b`.
pub open spec fn be32_at(b: Seq<u8>, i: int) -> u32
    recommends
        0 <= i,
        i + 4 <= b.len(),
{
    (b[i] * 0x1000000 + b[i + 1] * 0x10000 + b[i + 2] * 0x100 + b[i + 3]) as u32
}

/// Whether the frame is long enough to carry an EtherType and that EtherType
/// marks an IPv4 payload.
pub open spec fn spec_is_ipv4(frame: Seq<u8>) -> bool {
    frame.len() >= ETH_HDR_LEN && be16_at(frame, ETH_PROTO_OFFSET as int) == ETH_P_IP
}

/// Source address of an IPv4 frame, as a host-order integer.
pub open spec fn spec_source(frame: Seq<u8>) -> u32
    recommends
        frame.len() >= MIN_IPV4_FRAME_LEN,
{
    be32_at(frame, ETH_HDR_LEN + IP_SADDR_OFFSET)
}

/// Destination address of an IPv4 frame, as a host-order integer.
pub open spec fn spec_destination(frame: Seq<u8>) -> u32
    recommends
        frame.len() >= MIN_IPV4_FRAME_LEN,
{
    be32_at(frame, ETH_HDR_LEN + IP_DADDR_OFFSET)
}

/// Protocol of an IPv4 frame, derived from the header's protocol number.
pub open spec fn spec_protocol(frame: Seq<u8>) -> PacketType
    recommends
        frame.len() >= MIN_IPV4_FRAME_LEN,
{
    spec_protocol_from_code(frame[ETH_HDR_LEN + IP_PROTO_OFFSET])
}

/// Network-layer fields extracted from one IPv4 frame.
pub struct IPV4 {
    pub source: u32,
    pub destination: u32,
    pub protocol: PacketType,
}

/// Reads the byte at `offset`, or fails when `offset + 1` exceeds the
/// buffer's end.
pub fn read_u8(buf: &[u8], offset: usize) -> (r: Result<u8, BoundsError>)
    ensures
        r is Ok <==> offset + 1 <= buf@.len(),
        r is Ok ==> r->Ok_0 == buf@[offset as int],
{
    if offset < buf.len() {
        Ok(buf[offset])
    } else {
        Err(BoundsError)
    }
}

/// Reads the big-endian 16-bit field at `offset`, converted to host order,
/// or fails when `offset + 2` exceeds the buffer's end.
pub fn read_u16_be(buf: &[u8], offset: usize) -> (r: Result<u16, BoundsError>)
    ensures
        r is Ok <==> offset + 2 <= buf@.len(),
        r is Ok ==> r->Ok_0 == be16_at(buf@, offset as int),
{
    if buf.len() >= 2 && offset <= buf.len() - 2 {
        Ok((buf[offset] as u16) * 0x100 + (buf[offset + 1] as u16))
    } else {
        Err(BoundsError)
    }
}

/// Reads the big-endian 32-bit field at `offset`, converted to host order,
/// or fails when `offset + 4` exceeds the buffer's end.
pub fn read_u32_be(buf: &[u8], offset: usize) -> (r: Result<u32, BoundsError>)
    ensures
        r is Ok <==> offset + 4 <= buf@.len(),
        r is Ok ==> r->Ok_0 == be32_at(buf@, offset as int),
{
    if buf.len() >= 4 && offset <= buf.len() - 4 {
        Ok(
            (buf[offset] as u32) * 0x1000000 + (buf[offset + 1] as u32) * 0x10000 + (buf[offset
                + 2] as u32) * 0x100 + (buf[offset + 3] as u32),
        )
    } else {
        Err(BoundsError)
    }
}

/// Reads the EtherType and reports whether the frame carries IPv4; fails only
/// when the frame is too short to hold an Ethernet header.
pub fn is_ipv4(frame: &[u8]) -> (r: Result<bool, BoundsError>)
    ensures
        r is Ok <==> frame@.len() >= ETH_HDR_LEN,
        r is Ok ==> (r->Ok_0 <==> spec_is_ipv4(frame@)),
{
    let h_proto = match read_u16_be(frame, ETH_PROTO_OFFSET) {
        Ok(p) => p,
        Err(e) => {
            return Err(e);
        },
    };
    Ok(h_proto == ETH_P_IP)
}

/// Extracts source, destination and protocol from an IPv4 frame with three
/// independent bounds-checked reads; fails as soon as one field lies beyond
/// the buffer's end.
pub fn parse_ipv4(frame: &[u8]) -> (r: Result<IPV4, BoundsError>)
    ensures
        r is Ok <==> frame@.len() >= MIN_IPV4_FRAME_LEN,
        r is Ok ==> r->Ok_0.source == spec_source(frame@),
        r is Ok ==> r->Ok_0.destination == spec_destination(frame@),
        r is Ok ==> r->Ok_0.protocol == spec_protocol(frame@),
{
    let source = read_u32_be(frame, ETH_HDR_LEN + IP_SADDR_OFFSET)?;
    let destination = read_u32_be(frame, ETH_HDR_LEN + IP_DADDR_OFFSET)?;
    let protocol_code = read_u8(frame, ETH_HDR_LEN + IP_PROTO_OFFSET)?;
    let protocol = crate::types::protocol_from_code(protocol_code);
    Ok(IPV4 { source, destination, protocol })
}

} // verus!
