//! The control loop's logic: the observer rule that turns one decoded
//! decision record into a policy command, and the updater step that applies
//! commands to the policy table in arrival order. Each observer runs
//! concurrently, but every command funnels through one updater task, the
//! table's sole writer.

use vstd::prelude::*;

use crate::codec::DecodeError;
use crate::codec::Packet;
use crate::codec::parse_buf;
use crate::codec::spec_decode;
use crate::policy::CapacityExceeded;
use crate::policy::POLICY_CAPACITY;
use crate::policy::PolicyStore;
use crate::types::PacketType;
use crate::types::XdpAction;

verus! {

/// A policy-change request: block or allow one source address. Created by an
/// observer, consumed exactly once by the updater.
#[derive(Clone, Copy, Debug, PartialEq, Eq, Structural)]
pub enum Command {
    Block { ip: u32 },
    Allow { ip: u32 },
}

/// The address a command targets.
pub open spec fn command_addr(cmd: Command) -> u32 {
    match cmd {
        Command::Block { ip } => ip,
        Command::Allow { ip } => ip,
    }
}

/// The action a command stores: a block becomes DROP, an allow becomes PASS.
pub open spec fn command_action(cmd: Command) -> XdpAction {
    match cmd {
        Command::Block { ip: _ } => XdpAction::DROP,
        Command::Allow { ip: _ } => XdpAction::PASS,
    }
}

/// The observer rule: an ICMP record asks to block its source, every other
/// record asks to allow it.
pub open spec fn spec_command_for(packet: Packet) -> Command {
    if packet.packet_type == PacketType::ICMP {
        Command::Block { ip: packet.source }
    } else {
        Command::Allow { ip: packet.source }
    }
}

/// What one upsert leaves in the table: the new binding where the address is
/// already known or there is room, the table unchanged otherwise.
pub open spec fn spec_upsert(policy: Map<u32, XdpAction>, addr: u32, action: XdpAction) -> Map<
    u32,
    XdpAction,
> {
    if policy.contains_key(addr) || policy.dom().len() < POLICY_CAPACITY {
        policy.insert(addr, action)
    } else {
        policy
    }
}

/// The table left after applying a queue of commands in arrival order.
pub open spec fn apply_all(policy: Map<u32, XdpAction>, cmds: Seq<Command>) -> Map<u32, XdpAction>
    decreases cmds.len(),
{
    if cmds.len() == 0 {
        policy
    } else {
        apply_all(
            spec_upsert(policy, command_addr(cmds.first()), command_action(cmds.first())),
            cmds.drop_first(),
        )
    }
}

/// Applies the observer rule to one decoded record.
pub fn derive_command(packet: &Packet) -> (cmd: Command)
    ensures
        cmd == spec_command_for(*packet),
{
    match packet.packet_type {
        PacketType::ICMP => Command::Block { ip: packet.source },
        _ => Command::Allow { ip: packet.source },
    }
}

/// One observer step: decodes the record standing at the start of `buf` and
/// derives the command it calls for; a malformed record is rejected and the
/// observer moves on.
pub fn observe_record(buf: &[u8]) -> (r: Result<Command, DecodeError>)
    ensures
        r is Ok <==> spec_decode(buf@) is Some,
        r is Ok ==> (spec_decode(buf@) matches Some(packet) && r->Ok_0 == spec_command_for(
            packet,
        )),
{
    let packet = match parse_buf(buf) {
        Ok(p) => p,
        Err(e) => {
            return Err(e);
        },
    };
    Ok(derive_command(&packet))
}

/// One updater step: applies a single command to the policy table. A refused
/// upsert (table full) is reported, not fatal; the table is then unchanged.
pub fn apply_command(store: &mut PolicyStore, cmd: Command) -> (r: Result<(), CapacityExceeded>)
    requires
        old(store).wf(),
    ensures
        final(store).wf(),
        final(store)@ == spec_upsert(old(store)@, command_addr(cmd), command_action(cmd)),
        r is Ok <==> (old(store)@.contains_key(command_addr(cmd)) || old(store)@.dom().len()
            < POLICY_CAPACITY),
{
    match cmd {
        Command::Block { ip } => store.upsert(ip, XdpAction::DROP),
        Command::Allow { ip } => store.upsert(ip, XdpAction::PASS),
    }
}

/// Drains a batch of commands in arrival order, applying each in turn; a
/// refused upsert drops that command and the draining goes on.
pub fn apply_commands(store: &mut PolicyStore, cmds: &Vec<Command>)
    requires
        old(store).wf(),
    ensures
        final(store).wf(),
        final(store)@ == apply_all(old(store)@, cmds@),
{
    let n = cmds.len();
    proof {
        assert(cmds@.subrange(0, n as int) =~= cmds@);
    }
    let mut i: usize = 0;
    while i < n
        invariant
            store.wf(),
            n == cmds@.len(),
            0 <= i <= n,
            apply_all(store@, cmds@.subrange(i as int, n as int)) == apply_all(
                old(store)@,
                cmds@,
            ),
        decreases n - i,
    {
        let ghost before = store@;
        let ghost rest = cmds@.subrange(i as int, n as int);
        let _ = apply_command(store, cmds[i]);
        proof {
            assert(rest.first() == cmds@[i as int]);
            assert(rest.drop_first() =~= cmds@.subrange(i as int + 1, n as int));
            assert(apply_all(before, rest) == apply_all(
                spec_upsert(before, command_addr(rest.first()), command_action(rest.first())),
                rest.drop_first(),
            ));
        }
        i = i + 1;
    }
    proof {
        assert(cmds@.subrange(n as int, n as int) =~= Seq::<Command>::empty());
    }
}

/// Law: when several observers target one address, the table ends up holding
/// exactly the action of the last command applied, whatever order the earlier
/// ones arrived in. The address must be known to the table or the table must
/// have room, else every one of the upserts is refused.
pub proof fn lemma_last_writer_wins(policy: Map<u32, XdpAction>, cmds: Seq<Command>, addr: u32)
    requires
        policy.dom().finite(),
        cmds.len() > 0,
        forall|i: int| 0 <= i < cmds.len() ==> command_addr(#[trigger] cmds[i]) == addr,
        policy.contains_key(addr) || policy.dom().len() < POLICY_CAPACITY,
    ensures
        apply_all(policy, cmds).contains_key(addr),
        apply_all(policy, cmds)[addr] == command_action(cmds.last()),
    decreases cmds.len(),
{
    assert(command_addr(cmds.first()) == addr);
    let next = spec_upsert(policy, addr, command_action(cmds.first()));
    assert(next == policy.insert(addr, command_action(cmds.first())));
    if cmds.len() == 1 {
        assert(cmds.drop_first().len() == 0);
    } else {
        assert(forall|i: int|
            0 <= i < cmds.drop_first().len() ==> command_addr(#[trigger] cmds.drop_first()[i])
                == addr);
        lemma_last_writer_wins(next, cmds.drop_first(), addr);
        assert(cmds.drop_first().last() == cmds.last());
    }
}

} // verus!
