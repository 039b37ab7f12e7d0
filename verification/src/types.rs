//! Shared record and action types: the fixed-layout decision record emitted
//! once per classified IPv4 frame, the protocol and action enumerations, and
//! the numeric codes they carry on the wire.

use vstd::prelude::*;

verus! {

/// Protocol carried by an IPv4 packet, derived from the IP header's protocol
/// number (6 = TCP, 17 = UDP, 1 = ICMP, anything else is unknown).
#[derive(Clone, Copy, Debug, PartialEq, Eq, Structural)]
pub enum PacketType {
    TCP,
    UDP,
    ICMP,
    UNKNOW,
}

/// Disposition applied to a frame. The numeric codes (0..4, see
/// [`spec_action_code`]) are part of the wire layout of a decision record.
#[derive(Clone, Copy, Debug, PartialEq, Eq, Structural)]
pub enum XdpAction {
    ABORTED,
    DROP,
    PASS,
    TX,
    REDIRECT,
}

/// Fixed-size decision record: one is produced per classified IPv4 frame and
/// handed to the transport; it is never mutated after creation.
#[derive(Clone, Copy, Debug, PartialEq, Eq, Structural)]
pub struct PacketLog {
    pub ipv4_address: u32,
    pub ipv4_destination: u32,
    pub action: XdpAction,
    pub packet_type: PacketType,
}

/// Numeric wire code of an action: ABORTED = 0, DROP = 1, PASS = 2, TX = 3,
/// REDIRECT = 4.
pub open spec fn spec_action_code(action: XdpAction) -> u32 {
    match action {
        XdpAction::ABORTED => 0,
        XdpAction::DROP => 1,
        XdpAction::PASS => 2,
        XdpAction::TX => 3,
        XdpAction::REDIRECT => 4,
    }
}

/// The action a numeric wire code stands for; codes above 4 name no action.
pub open spec fn spec_action_from_code(code: u32) -> Option<XdpAction> {
    if code == 0 {
        Some(XdpAction::ABORTED)
    } else if code == 1 {
        Some(XdpAction::DROP)
    } else if code == 2 {
        Some(XdpAction::PASS)
    } else if code == 3 {
        Some(XdpAction::TX)
    } else if code == 4 {
        Some(XdpAction::REDIRECT)
    } else {
        None
    }
}

/// Numeric wire code of a protocol: the IP protocol numbers 6, 17 and 1 for
/// TCP, UDP and ICMP; 0 is the canonical code for an unknown protocol.
pub open spec fn spec_protocol_code(protocol: PacketType) -> u8 {
    match protocol {
        PacketType::TCP => 6,
        PacketType::UDP => 17,
        PacketType::ICMP => 1,
        PacketType::UNKNOW => 0,
    }
}

/// The protocol an IP protocol number stands for; every number is accepted,
/// unlisted ones as UNKNOW.
pub open spec fn spec_protocol_from_code(code: u8) -> PacketType {
    if code == 6 {
        PacketType::TCP
    } else if code == 17 {
        PacketType::UDP
    } else if code == 1 {
        PacketType::ICMP
    } else {
        PacketType::UNKNOW
    }
}

/// Executable twin of [`spec_action_code`].
pub fn action_code(action: XdpAction) -> (code: u32)
    ensures
        code == spec_action_code(action),
{
    match action {
        XdpAction::ABORTED => 0,
        XdpAction::DROP => 1,
        XdpAction::PASS => 2,
        XdpAction::TX => 3,
        XdpAction::REDIRECT => 4,
    }
}

/// Executable twin of [`spec_action_from_code`].
pub fn action_from_code(code: u32) -> (action: Option<XdpAction>)
    ensures
        action == spec_action_from_code(code),
{
    match code {
        0 => Some(XdpAction::ABORTED),
        1 => Some(XdpAction::DROP),
        2 => Some(XdpAction::PASS),
        3 => Some(XdpAction::TX),
        4 => Some(XdpAction::REDIRECT),
        _ => None,
    }
}

/// Executable twin of [`spec_protocol_code`].
pub fn protocol_code(protocol: PacketType) -> (code: u8)
    ensures
        code == spec_protocol_code(protocol),
{
    match protocol {
        PacketType::TCP => 6,
        PacketType::UDP => 17,
        PacketType::ICMP => 1,
        PacketType::UNKNOW => 0,
    }
}

/// Executable twin of [`spec_protocol_from_code`].
pub fn protocol_from_code(code: u8) -> (protocol: PacketType)
    ensures
        protocol == spec_protocol_from_code(code),
{
    match code {
        6 => PacketType::TCP,
        17 => PacketType::UDP,
        1 => PacketType::ICMP,
        _ => PacketType::UNKNOW,
    }
}

} // verus!
