use ebpfapp::classifier::classify;
use ebpfapp::classifier::generate_log;
use ebpfapp::control::apply_command;
use ebpfapp::control::apply_commands;
use ebpfapp::control::derive_command;
use ebpfapp::control::Command;
use ebpfapp::header::is_ipv4;
use ebpfapp::header::parse_ipv4;
use ebpfapp::header::read_u16_be;
use ebpfapp::header::read_u32_be;
use ebpfapp::header::read_u8;
use ebpfapp::header::IPV4;
use ebpfapp::policy::PolicyStore;
use ebpfapp::types::PacketLog;
use ebpfapp::types::PacketType;
use ebpfapp::types::XdpAction;

/// A 34-byte frame: Ethernet header with the given EtherType, then an IPv4
/// header carrying the given protocol number and addresses.
fn frame(ethertype: u16, protocol: u8, src: u32, dst: u32) -> Vec<u8> {
    let mut f = vec![0u8; 34];
    f[12] = (ethertype >> 8) as u8;
    f[13] = (ethertype & 0xff) as u8;
    f[23] = protocol;
    f[26..30].copy_from_slice(&src.to_be_bytes());
    f[30..34].copy_from_slice(&dst.to_be_bytes());
    f
}

const ADDR: u32 = 0x01020304; // 1.2.3.4
const DST: u32 = 0x0a000001; // 10.0.0.1

#[test]
fn non_ipv4_frame_passes_without_record() {
    let store = PolicyStore::new();
    let f = frame(0x86DD, 6, ADDR, DST); // IPv6 EtherType
    assert_eq!(classify(&f, &store), (XdpAction::PASS, None));
}

#[test]
fn arp_frame_passes_without_record() {
    let store = PolicyStore::new();
    let f = frame(0x0806, 0, ADDR, DST);
    assert_eq!(classify(&f, &store), (XdpAction::PASS, None));
}

#[test]
fn empty_frame_aborts() {
    let store = PolicyStore::new();
    let f: Vec<u8> = Vec::new();
    assert_eq!(classify(&f, &store), (XdpAction::ABORTED, None));
}

#[test]
fn frame_too_short_for_ethertype_aborts() {
    let store = PolicyStore::new();
    let f = vec![0u8; 13];
    assert_eq!(classify(&f, &store), (XdpAction::ABORTED, None));
}

#[test]
fn truncated_ipv4_frame_aborts() {
    let store = PolicyStore::new();
    let full = frame(0x0800, 6, ADDR, DST);
    for len in 14..34 {
        let f = full[..len].to_vec();
        assert_eq!(classify(&f, &store), (XdpAction::ABORTED, None));
    }
}

#[test]
fn unknown_source_passes_with_record() {
    let store = PolicyStore::new();
    let f = frame(0x0800, 6, ADDR, DST);
    let (action, record) = classify(&f, &store);
    assert_eq!(action, XdpAction::PASS);
    let record = record.expect("an IPv4 frame must produce a record");
    assert_eq!(record.ipv4_address, ADDR);
    assert_eq!(record.ipv4_destination, DST);
    assert_eq!(record.action, XdpAction::PASS);
    assert_eq!(record.packet_type, PacketType::TCP);
}

#[test]
fn stored_drop_action_is_returned_and_logged() {
    let mut store = PolicyStore::new();
    store.upsert(ADDR, XdpAction::DROP).unwrap();
    let f = frame(0x0800, 17, ADDR, DST);
    let (action, record) = classify(&f, &store);
    assert_eq!(action, XdpAction::DROP);
    let record = record.unwrap();
    assert_eq!(record.action, XdpAction::DROP);
    assert_eq!(record.packet_type, PacketType::UDP);
    assert_eq!(record.ipv4_address, ADDR);
}

#[test]
fn stored_pass_action_falls_through_like_absent() {
    let mut store = PolicyStore::new();
    store.upsert(ADDR, XdpAction::PASS).unwrap();
    let f = frame(0x0800, 6, ADDR, DST);
    let (action, record) = classify(&f, &store);
    assert_eq!(action, XdpAction::PASS);
    assert_eq!(record.unwrap().action, XdpAction::PASS);
}

#[test]
fn stored_tx_and_redirect_actions_are_returned() {
    let mut store = PolicyStore::new();
    store.upsert(ADDR, XdpAction::TX).unwrap();
    let f = frame(0x0800, 1, ADDR, DST);
    assert_eq!(classify(&f, &store).0, XdpAction::TX);
    store.upsert(ADDR, XdpAction::REDIRECT).unwrap();
    assert_eq!(classify(&f, &store).0, XdpAction::REDIRECT);
}

#[test]
fn lookup_absent_is_none() {
    let store = PolicyStore::new();
    assert_eq!(store.lookup(ADDR), None);
}

#[test]
fn upsert_overwrites_existing_entry() {
    let mut store = PolicyStore::new();
    store.upsert(ADDR, XdpAction::DROP).unwrap();
    store.upsert(ADDR, XdpAction::PASS).unwrap();
    assert_eq!(store.lookup(ADDR), Some(XdpAction::PASS));
}

#[test]
fn capacity_is_1024_and_the_next_distinct_key_is_refused() {
    let mut store = PolicyStore::new();
    for k in 0..1024u32 {
        assert!(store.upsert(k, XdpAction::DROP).is_ok());
    }
    // overwriting a known address still succeeds at capacity
    assert!(store.upsert(7, XdpAction::PASS).is_ok());
    // the 1025th distinct address is refused and the table is unchanged
    assert!(store.upsert(5000, XdpAction::DROP).is_err());
    assert_eq!(store.lookup(5000), None);
    assert_eq!(store.lookup(7), Some(XdpAction::PASS));
    assert_eq!(store.lookup(1023), Some(XdpAction::DROP));
}

#[test]
fn last_command_wins_for_one_address() {
    let mut store = PolicyStore::new();
    // commands from several observers for the same address, in arrival order
    let cmds = vec![
        Command::Block { ip: ADDR },
        Command::Allow { ip: ADDR },
        Command::Allow { ip: ADDR },
        Command::Block { ip: ADDR },
    ];
    apply_commands(&mut store, &cmds);
    assert_eq!(store.lookup(ADDR), Some(XdpAction::DROP));
    let cmds = vec![Command::Block { ip: ADDR }, Command::Allow { ip: ADDR }];
    apply_commands(&mut store, &cmds);
    assert_eq!(store.lookup(ADDR), Some(XdpAction::PASS));
}

#[test]
fn tcp_frame_without_entry_passes_and_allow_is_a_noop() {
    // address 1.2.3.4 sends a TCP frame with no prior policy entry
    let mut store = PolicyStore::new();
    let f = frame(0x0800, 6, ADDR, DST);
    let (action, record) = classify(&f, &store);
    assert_eq!(action, XdpAction::PASS);
    let record = record.unwrap();
    // the observer asks to allow the source
    let packet = ebpfapp::codec::parse_buf(&ebpfapp::codec::encode_record(&record)).unwrap();
    let cmd = derive_command(&packet);
    assert_eq!(cmd, Command::Allow { ip: ADDR });
    // applying it stores an explicit PASS, which never alters the decision
    apply_command(&mut store, cmd).unwrap();
    assert_eq!(store.lookup(ADDR), Some(XdpAction::PASS));
    assert_eq!(classify(&f, &store).0, XdpAction::PASS);
}

#[test]
fn icmp_frame_triggers_a_block_and_later_frames_drop() {
    // address 1.2.3.4 sends an ICMP frame: it still passes and is logged
    let mut store = PolicyStore::new();
    let icmp = frame(0x0800, 1, ADDR, DST);
    let (action, record) = classify(&icmp, &store);
    assert_eq!(action, XdpAction::PASS);
    let record = record.unwrap();
    assert_eq!(record.packet_type, PacketType::ICMP);
    // the observer asks to block the source, the updater stores DROP
    let packet = ebpfapp::codec::parse_buf(&ebpfapp::codec::encode_record(&record)).unwrap();
    let cmd = derive_command(&packet);
    assert_eq!(cmd, Command::Block { ip: ADDR });
    apply_command(&mut store, cmd).unwrap();
    assert_eq!(store.lookup(ADDR), Some(XdpAction::DROP));
    // a subsequent frame of any protocol from that address is dropped
    for protocol in [1u8, 6, 17, 200] {
        let f = frame(0x0800, protocol, ADDR, DST);
        let (action, record) = classify(&f, &store);
        assert_eq!(action, XdpAction::DROP);
        assert_eq!(record.unwrap().action, XdpAction::DROP);
    }
}

#[test]
fn generate_log_copies_every_field() {
    let parsed = IPV4 { source: ADDR, destination: DST, protocol: PacketType::UDP };
    let log = generate_log(parsed, XdpAction::TX);
    assert_eq!(
        log,
        PacketLog {
            ipv4_address: ADDR,
            ipv4_destination: DST,
            action: XdpAction::TX,
            packet_type: PacketType::UDP,
        }
    );
}

#[test]
fn is_ipv4_reads_the_ethertype() {
    assert_eq!(is_ipv4(&frame(0x0800, 6, ADDR, DST)), Ok(true));
    assert_eq!(is_ipv4(&frame(0x86DD, 6, ADDR, DST)), Ok(false));
    assert!(is_ipv4(&[0u8; 13]).is_err());
}

#[test]
fn parse_ipv4_extracts_the_header_fields() {
    let f = frame(0x0800, 17, ADDR, DST);
    let parsed = parse_ipv4(&f).unwrap();
    assert_eq!(parsed.source, ADDR);
    assert_eq!(parsed.destination, DST);
    assert_eq!(parsed.protocol, PacketType::UDP);
    assert!(parse_ipv4(&f[..33]).is_err());
}

#[test]
fn bounds_checked_reads_return_network_order_fields() {
    let buf = [0x12u8, 0x34, 0x56, 0x78, 0x9A];
    assert_eq!(read_u8(&buf, 4), Ok(0x9A));
    assert!(read_u8(&buf, 5).is_err());
    assert_eq!(read_u16_be(&buf, 0), Ok(0x1234));
    assert_eq!(read_u16_be(&buf, 3), Ok(0x789A));
    assert!(read_u16_be(&buf, 4).is_err());
    assert_eq!(read_u32_be(&buf, 1), Ok(0x3456789A));
    assert!(read_u32_be(&buf, 2).is_err());
    assert!(read_u32_be(&[], 0).is_err());
}
