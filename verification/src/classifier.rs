//! The inline classifier: maps a raw frame and the current policy table to a
//! disposition and, for every classified IPv4 frame, exactly one decision
//! record. The classification path is synchronous, loop-free and never
//! panics; every internal failure surfaces as the ABORTED action.

use vstd::prelude::*;

use crate::header::is_ipv4;
use crate::header::parse_ipv4;
use crate::header::spec_is_ipv4;
use crate::header::spec_source;
use crate::header::spec_destination;
use crate::header::spec_protocol;
use crate::header::ETH_HDR_LEN;
use crate::header::MIN_IPV4_FRAME_LEN;
use crate::header::IPV4;
use crate::policy::PolicyStore;
use crate::types::PacketLog;
use crate::types::XdpAction;

verus! {

/// The action a policy table answers for a source address: the stored action
/// where one is stored and differs from PASS; PASS where the stored action is
/// PASS or no entry exists.
pub open spec fn spec_decision(policy: Map<u32, XdpAction>, source: u32) -> XdpAction {
    if policy.contains_key(source) && policy[source] != XdpAction::PASS {
        policy[source]
    } else {
        XdpAction::PASS
    }
}

/// Law: an explicit PASS entry decides exactly like an absent one, so
/// allowing an address that was never blocked leaves every decision for it
/// unchanged.
pub proof fn lemma_explicit_allow_is_noop(policy: Map<u32, XdpAction>, source: u32)
    ensures
        spec_decision(policy.insert(source, XdpAction::PASS), source) == spec_decision(
            policy.remove(source),
            source,
        ),
        spec_decision(policy.insert(source, XdpAction::PASS), source) == XdpAction::PASS,
{
}

/// Builds the decision record for one classified frame.
pub fn generate_log(parsed_ipv4: IPV4, action: XdpAction) -> (log: PacketLog)
    ensures
        log.ipv4_address == parsed_ipv4.source,
        log.ipv4_destination == parsed_ipv4.destination,
        log.action == action,
        log.packet_type == parsed_ipv4.protocol,
{
    PacketLog {
        ipv4_address: parsed_ipv4.source,
        action,
        ipv4_destination: parsed_ipv4.destination,
        packet_type: parsed_ipv4.protocol,
    }
}

/// Classifies one raw frame against the policy table.
///
/// A frame too short for an Ethernet header aborts; a non-IPv4 frame passes
/// without a record; an IPv4 frame too short for the needed header fields
/// aborts; every other IPv4 frame yields the policy's decision for its source
/// address together with exactly one decision record carrying that action.
pub fn classify(frame: &[u8], store: &PolicyStore) -> (r: (XdpAction, Option<PacketLog>))
    requires
        store.wf(),
    ensures
        frame@.len() < ETH_HDR_LEN ==> r == (XdpAction::ABORTED, None::<PacketLog>),
        frame@.len() >= ETH_HDR_LEN && !spec_is_ipv4(frame@) ==> r == (
            XdpAction::PASS,
            None::<PacketLog>,
        ),
        spec_is_ipv4(frame@) && frame@.len() < MIN_IPV4_FRAME_LEN ==> r == (
            XdpAction::ABORTED,
            None::<PacketLog>,
        ),
        spec_is_ipv4(frame@) && frame@.len() >= MIN_IPV4_FRAME_LEN ==> {
            let action = spec_decision(store@, spec_source(frame@));
            &&& r.0 == action
            &&& r.1 == Some(
                PacketLog {
                    ipv4_address: spec_source(frame@),
                    ipv4_destination: spec_destination(frame@),
                    action,
                    packet_type: spec_protocol(frame@),
                },
            )
        },
{
    let ipv4 = match is_ipv4(frame) {
        Ok(b) => b,
        Err(_) => {
            return (XdpAction::ABORTED, None);
        },
    };
    if !ipv4 {
        return (XdpAction::PASS, None);
    }
    let parsed_ipv4 = match parse_ipv4(frame) {
        Ok(p) => p,
        Err(_) => {
            return (XdpAction::ABORTED, None);
        },
    };
    if let Some(action) = store.lookup(parsed_ipv4.source) {
        match action {
            XdpAction::PASS => {},
            _ => {
                let log = generate_log(parsed_ipv4, action);
                return (action, Some(log));
            },
        }
    }
    let log = generate_log(parsed_ipv4, XdpAction::PASS);
    (XdpAction::PASS, Some(log))
}

} // verus!
