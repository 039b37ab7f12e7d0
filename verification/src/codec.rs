//! The wire layout of a decision record, defined once and shared by the
//! producer and the consumer: a 32-bit source address, a 32-bit destination
//! address, a 32-bit action code and an 8-bit protocol code, big-endian,
//! with no padding. [`encode_record`] writes it, [`parse_buf`] reads it back,
//! and [`lemma_record_round_trip`] proves the two agree field for field.

use vstd::prelude::*;
use vstd::arithmetic::div_mod::lemma_div_is_ordered;
use vstd::arithmetic::div_mod::lemma_div_pos_is_pos;
use vstd::arithmetic::div_mod::lemma_div_denominator;
use vstd::arithmetic::div_mod::lemma_fundamental_div_mod;
use vstd::arithmetic::div_mod::lemma_fundamental_div_mod_converse_div;
use vstd::arithmetic::div_mod::lemma_mod_division_less_than_divisor;

use crate::header::be32_at;
use crate::header::read_u32_be;
use crate::header::read_u8;
use crate::types::PacketLog;
use crate::types::PacketType;
use crate::types::XdpAction;
use crate::types::action_code;
use crate::types::action_from_code;
use crate::types::protocol_code;
use crate::types::protocol_from_code;
use crate::types::spec_action_code;
use crate::types::spec_action_from_code;
use crate::types::spec_protocol_code;
use crate::types::spec_protocol_from_code;

verus! {

/// Size of one decision record on the wire: 4 + 4 + 4 + 1 bytes.
pub const RECORD_SIZE: usize = 13;

/// The record bytes were undersized or named no action.
#[derive(Clone, Copy, Debug, PartialEq, Eq, Structural)]
pub struct DecodeError;

/// A decision record as the consumer sees it after decoding.
#[derive(Clone, Copy, Debug, PartialEq, Eq, Structural)]
pub struct Packet {
    pub source: u32,
    pub destination: u32,
    pub action: XdpAction,
    pub packet_type: PacketType,
}

/// Most significant byte of a 32-bit big-endian field.
pub open spec fn be_byte0(x: u32) -> u8 {
    ((x as int) / 0x1000000) as u8
}

/// Second byte of a 32-bit big-endian field.
pub open spec fn be_byte1(x: u32) -> u8 {
    (((x as int) / 0x10000) % 0x100) as u8
}

/// Third byte of a 32-bit big-endian field.
pub open spec fn be_byte2(x: u32) -> u8 {
    (((x as int) / 0x100) % 0x100) as u8
}

/// Least significant byte of a 32-bit big-endian field.
pub open spec fn be_byte3(x: u32) -> u8 {
    ((x as int) % 0x100) as u8
}

/// The thirteen wire bytes of a decision record.
pub open spec fn spec_encode(log: PacketLog) -> Seq<u8> {
    seq![
        be_byte0(log.ipv4_address),
        be_byte1(log.ipv4_address),
        be_byte2(log.ipv4_address),
        be_byte3(log.ipv4_address),
        be_byte0(log.ipv4_destination),
        be_byte1(log.ipv4_destination),
        be_byte2(log.ipv4_destination),
        be_byte3(log.ipv4_destination),
        be_byte0(spec_action_code(log.action)),
        be_byte1(spec_action_code(log.action)),
        be_byte2(spec_action_code(log.action)),
        be_byte3(spec_action_code(log.action)),
        spec_protocol_code(log.packet_type),
    ]
}

/// The record that a byte buffer holds, if it is long enough and its action
/// code names an action; bytes beyond the record are ignored.
pub open spec fn spec_decode(b: Seq<u8>) -> Option<Packet> {
    if b.len() >= RECORD_SIZE {
        match spec_action_from_code(be32_at(b, 8)) {
            Some(action) => Some(
                Packet {
                    source: be32_at(b, 0),
                    destination: be32_at(b, 4),
                    action,
                    packet_type: spec_protocol_from_code(b[12]),
                },
            ),
            None => None,
        }
    } else {
        None
    }
}

proof fn lemma_be32_decompose(x: u32)
    ensures
        be_byte0(x) * 0x1000000 + be_byte1(x) * 0x10000 + be_byte2(x) * 0x100 + be_byte3(x) == x,
        be_byte0(x) == (x as int) / 0x1000000,
        be_byte1(x) == ((x as int) / 0x10000) % 0x100,
        be_byte2(x) == ((x as int) / 0x100) % 0x100,
        be_byte3(x) == (x as int) % 0x100,
{
    let xi = x as int;
    lemma_div_pos_is_pos(xi, 0x100);
    lemma_div_pos_is_pos(xi, 0x10000);
    lemma_div_pos_is_pos(xi, 0x1000000);
    lemma_mod_division_less_than_divisor(xi, 0x100);
    lemma_mod_division_less_than_divisor(xi / 0x100, 0x100);
    lemma_mod_division_less_than_divisor(xi / 0x10000, 0x100);
    lemma_div_is_ordered(xi, 0xFFFFFFFF, 0x1000000);
    lemma_fundamental_div_mod_converse_div(0xFFFFFFFF, 0x1000000, 0xFF, 0xFFFFFF);
    lemma_fundamental_div_mod(xi, 0x100);
    lemma_fundamental_div_mod(xi / 0x100, 0x100);
    lemma_fundamental_div_mod(xi / 0x10000, 0x100);
    lemma_div_denominator(xi, 0x100, 0x100);
    lemma_div_denominator(xi, 0x10000, 0x100);
}

fn push_be32(out: &mut Vec<u8>, x: u32)
    ensures
        final(out)@ == old(out)@ + seq![be_byte0(x), be_byte1(x), be_byte2(x), be_byte3(x)],
{
    proof {
        lemma_be32_decompose(x);
    }
    out.push((x / 0x1000000) as u8);
    out.push(((x / 0x10000) % 0x100) as u8);
    out.push(((x / 0x100) % 0x100) as u8);
    out.push((x % 0x100) as u8);
    proof {
        assert(final(out)@ =~= old(out)@ + seq![
            be_byte0(x),
            be_byte1(x),
            be_byte2(x),
            be_byte3(x),
        ]);
    }
}

/// Turns one decision record into its thirteen wire bytes.
pub fn encode_record(log: &PacketLog) -> (out: Vec<u8>)
    ensures
        out@ == spec_encode(*log),
        out@.len() == RECORD_SIZE,
{
    let mut out: Vec<u8> = Vec::new();
    push_be32(&mut out, log.ipv4_address);
    push_be32(&mut out, log.ipv4_destination);
    push_be32(&mut out, action_code(log.action));
    out.push(protocol_code(log.packet_type));
    proof {
        assert(out@ =~= spec_encode(*log));
    }
    out
}

/// Decodes the decision record standing at the start of `buf`. Fails on a
/// buffer shorter than [`RECORD_SIZE`] and on an action code that names no
/// action; bytes beyond the record are ignored.
pub fn parse_buf(buf: &[u8]) -> (r: Result<Packet, DecodeError>)
    ensures
        r is Ok <==> spec_decode(buf@) is Some,
        r is Ok ==> Some(r->Ok_0) == spec_decode(buf@),
{
    if buf.len() < RECORD_SIZE {
        return Err(DecodeError);
    }
    let source = match read_u32_be(buf, 0) {
        Ok(v) => v,
        Err(_) => {
            return Err(DecodeError);
        },
    };
    let destination = match read_u32_be(buf, 4) {
        Ok(v) => v,
        Err(_) => {
            return Err(DecodeError);
        },
    };
    let code = match read_u32_be(buf, 8) {
        Ok(v) => v,
        Err(_) => {
            return Err(DecodeError);
        },
    };
    let action = match action_from_code(code) {
        Some(a) => a,
        None => {
            return Err(DecodeError);
        },
    };
    let protocol_byte = match read_u8(buf, 12) {
        Ok(v) => v,
        Err(_) => {
            return Err(DecodeError);
        },
    };
    let packet_type = protocol_from_code(protocol_byte);
    Ok(Packet { source, destination, action, packet_type })
}

/// Human-readable names for the enumerations a decoded record carries.
pub trait ParserToString {
    /// The characters of the name that `to_str` returns.
    spec fn str_view(&self) -> Seq<char>;

    /// The name itself.
    fn to_str(&self) -> (s: &'static str)
        ensures
            s@ == self.str_view(),
    ;
}

impl ParserToString for PacketType {
    open spec fn str_view(&self) -> Seq<char> {
        match self {
            PacketType::TCP => "TCP"@,
            PacketType::UDP => "UDP"@,
            PacketType::ICMP => "ICMP"@,
            PacketType::UNKNOW => "UNKNOW"@,
        }
    }

    fn to_str(&self) -> (s: &'static str) {
        match self {
            PacketType::TCP => "TCP",
            PacketType::UDP => "UDP",
            PacketType::ICMP => "ICMP",
            PacketType::UNKNOW => "UNKNOW",
        }
    }
}

impl ParserToString for XdpAction {
    open spec fn str_view(&self) -> Seq<char> {
        match self {
            XdpAction::ABORTED => "ABORTED"@,
            XdpAction::DROP => "DROP"@,
            XdpAction::PASS => "PASS"@,
            XdpAction::TX => "TX"@,
            XdpAction::REDIRECT => "REDIRECT"@,
        }
    }

    fn to_str(&self) -> (s: &'static str) {
        match self {
            XdpAction::ABORTED => "ABORTED",
            XdpAction::DROP => "DROP",
            XdpAction::PASS => "PASS",
            XdpAction::TX => "TX",
            XdpAction::REDIRECT => "REDIRECT",
        }
    }
}

/// Law: decoding the wire encoding of a decision record yields the record
/// back, field for field.
pub proof fn lemma_record_round_trip(log: PacketLog)
    ensures
        spec_decode(spec_encode(log)) == Some(
            Packet {
                source: log.ipv4_address,
                destination: log.ipv4_destination,
                action: log.action,
                packet_type: log.packet_type,
            },
        ),
{
    let b = spec_encode(log);
    lemma_be32_decompose(log.ipv4_address);
    lemma_be32_decompose(log.ipv4_destination);
    lemma_be32_decompose(spec_action_code(log.action));
    assert(be32_at(b, 0) == log.ipv4_address);
    assert(be32_at(b, 4) == log.ipv4_destination);
    assert(be32_at(b, 8) == spec_action_code(log.action));
    assert(spec_action_from_code(spec_action_code(log.action)) == Some(log.action));
    assert(spec_protocol_from_code(spec_protocol_code(log.packet_type)) == log.packet_type);
}

} // verus!
