use ntcp::engine::{handle_datagram, DatagramOutcome};
use ntcp::table::{ConnectionId, ConnectionTable, ProcessOutcome};
use ntcp::tcb::{PacketOutcome, State, INITIAL_SEND_SEQ, RECV_WINDOW};

const LOCAL_IP: [u8; 4] = [10, 0, 0, 1];
const REMOTE_IP: [u8; 4] = [10, 0, 0, 2];
const LOCAL_PORT: u16 = 80;
const REMOTE_PORT: u16 = 5000;

fn build_datagram(
    src_ip: [u8; 4],
    dst_ip: [u8; 4],
    src_port: u16,
    dst_port: u16,
    seq: u32,
    ack_num: u32,
    syn: bool,
    ack_flag: bool,
    payload: &[u8],
) -> Vec<u8> {
    let mut tcp = etherparse::TcpHeader::new(src_port, dst_port, seq, 4096);
    tcp.acknowledgment_number = ack_num;
    tcp.syn = syn;
    tcp.ack = ack_flag;
    let ip = etherparse::Ipv4Header::new(
        (tcp.header_len() + payload.len()) as u16,
        64,
        etherparse::IpNumber::TCP,
        src_ip,
        dst_ip,
    )
    .unwrap();
    let mut buf: Vec<u8> = Vec::new();
    ip.write(&mut buf).unwrap();
    tcp.write(&mut buf).unwrap();
    buf.extend_from_slice(payload);
    buf
}

fn inbound_syn(remote_port: u16, seq: u32) -> Vec<u8> {
    build_datagram(
        REMOTE_IP, LOCAL_IP, remote_port, LOCAL_PORT, seq, 0, true, false, &[],
    )
}

fn connection_id(remote_port: u16) -> ConnectionId {
    ConnectionId {
        local_addr: u32::from_be_bytes(LOCAL_IP),
        local_port: LOCAL_PORT,
        remote_addr: u32::from_be_bytes(REMOTE_IP),
        remote_port,
    }
}

fn parse_reply(reply: &[u8]) -> (etherparse::Ipv4Header, etherparse::TcpHeader) {
    let ip = etherparse::Ipv4HeaderSlice::from_slice(reply).unwrap();
    let tcp = etherparse::TcpHeaderSlice::from_slice(&reply[ip.slice().len()..]).unwrap();
    (ip.to_header(), tcp.to_header())
}

#[test]
fn passive_open_sends_syn_ack() {
    let mut table = ConnectionTable::new();
    let seq: u32 = 9000;
    let (outcome, reply) = handle_datagram(&mut table, &inbound_syn(REMOTE_PORT, seq));
    assert_eq!(outcome, DatagramOutcome::Handled(ProcessOutcome::Accepted));

    let reply = reply.expect("a SYN must be answered with exactly one segment");
    let (ip, tcp) = parse_reply(&reply);
    assert!(tcp.syn);
    assert!(tcp.ack);
    assert!(!tcp.rst);
    assert_eq!(tcp.acknowledgment_number, seq + 1);
    assert_eq!(tcp.sequence_number, INITIAL_SEND_SEQ);
    assert_eq!(tcp.window_size, RECV_WINDOW);
    assert_eq!(tcp.source_port, LOCAL_PORT);
    assert_eq!(tcp.destination_port, REMOTE_PORT);
    assert_eq!(ip.source, LOCAL_IP);
    assert_eq!(ip.destination, REMOTE_IP);

    assert_eq!(table.len(), 1);
    let tcb = table.get(connection_id(REMOTE_PORT)).unwrap();
    assert_eq!(tcb.state, State::SynRecv);
    assert_eq!(tcb.send.una, INITIAL_SEND_SEQ);
    assert_eq!(tcb.send.next, INITIAL_SEND_SEQ.wrapping_add(1));
    assert_eq!(tcb.recv.irs, seq);
    assert_eq!(tcb.recv.next, seq + 1);
    assert_eq!(tcb.recv.window, RECV_WINDOW);
}

#[test]
fn handshake_completes_on_the_right_ack() {
    let mut table = ConnectionTable::new();
    let seq: u32 = 9000;
    handle_datagram(&mut table, &inbound_syn(REMOTE_PORT, seq));
    let tcb = table.get(connection_id(REMOTE_PORT)).unwrap();

    let ack = build_datagram(
        REMOTE_IP,
        LOCAL_IP,
        REMOTE_PORT,
        LOCAL_PORT,
        seq + 1,
        tcb.send.next,
        false,
        true,
        &[],
    );
    let (outcome, reply) = handle_datagram(&mut table, &ack);
    assert_eq!(
        outcome,
        DatagramOutcome::Handled(ProcessOutcome::Existing(PacketOutcome::HandshakeComplete))
    );
    assert!(reply.is_none());
    let tcb = table.get(connection_id(REMOTE_PORT)).unwrap();
    assert_eq!(tcb.state, State::Estab);
}

#[test]
fn stale_ack_triggers_reset_and_leaves_state() {
    let mut table = ConnectionTable::new();
    let seq: u32 = 9000;
    handle_datagram(&mut table, &inbound_syn(REMOTE_PORT, seq));
    let before = table.get(connection_id(REMOTE_PORT)).unwrap();

    // Acknowledges send.una: nothing new, unacceptable during the handshake.
    let stale = build_datagram(
        REMOTE_IP,
        LOCAL_IP,
        REMOTE_PORT,
        LOCAL_PORT,
        seq + 1,
        before.send.una,
        false,
        true,
        &[],
    );
    let (outcome, reply) = handle_datagram(&mut table, &stale);
    assert_eq!(
        outcome,
        DatagramOutcome::Handled(ProcessOutcome::Existing(PacketOutcome::ResetSent))
    );
    let reply = reply.expect("an unacceptable ack before synchronization is answered with RST");
    let (_, tcp) = parse_reply(&reply);
    assert!(tcp.rst);
    assert_eq!(tcp.sequence_number, 0);
    assert_eq!(tcp.acknowledgment_number, 0);
    assert!(!tcp.syn);

    let after = table.get(connection_id(REMOTE_PORT)).unwrap();
    assert_eq!(after, before);
    assert_eq!(after.state, State::SynRecv);
}

#[test]
fn two_remote_ports_make_two_independent_connections() {
    let mut table = ConnectionTable::new();
    handle_datagram(&mut table, &inbound_syn(5000, 1111));
    handle_datagram(&mut table, &inbound_syn(5001, 2222));
    assert_eq!(table.len(), 2);

    let first = table.get(connection_id(5000)).unwrap();
    let second = table.get(connection_id(5001)).unwrap();
    assert_eq!(first.recv.irs, 1111);
    assert_eq!(second.recv.irs, 2222);
    assert_eq!(first.recv.next, 1112);
    assert_eq!(second.recv.next, 2223);

    // Completing one handshake does not move the other.
    let ack = build_datagram(
        REMOTE_IP, LOCAL_IP, 5000, LOCAL_PORT, 1112, first.send.next, false, true, &[],
    );
    handle_datagram(&mut table, &ack);
    assert_eq!(table.get(connection_id(5000)).unwrap().state, State::Estab);
    assert_eq!(table.get(connection_id(5001)).unwrap().state, State::SynRecv);
}

#[test]
fn non_syn_without_connection_is_ignored() {
    let mut table = ConnectionTable::new();
    let stray = build_datagram(
        REMOTE_IP, LOCAL_IP, REMOTE_PORT, LOCAL_PORT, 42, 7, false, true, &[],
    );
    let (outcome, reply) = handle_datagram(&mut table, &stray);
    assert_eq!(outcome, DatagramOutcome::Handled(ProcessOutcome::Ignored));
    assert!(reply.is_none());
    assert_eq!(table.len(), 0);
}

#[test]
fn malformed_ipv4_is_reported_and_changes_nothing() {
    let mut table = ConnectionTable::new();
    handle_datagram(&mut table, &inbound_syn(REMOTE_PORT, 9000));
    let before = table.get(connection_id(REMOTE_PORT)).unwrap();

    let (outcome, reply) = handle_datagram(&mut table, &[0u8, 1, 2]);
    assert_eq!(outcome, DatagramOutcome::InvalidIpv4);
    assert!(reply.is_none());
    assert_eq!(table.len(), 1);
    assert_eq!(table.get(connection_id(REMOTE_PORT)).unwrap(), before);
}

#[test]
fn non_tcp_protocol_is_reported() {
    let mut table = ConnectionTable::new();
    let ip = etherparse::Ipv4Header::new(0, 64, etherparse::IpNumber::UDP, REMOTE_IP, LOCAL_IP)
        .unwrap();
    let mut buf: Vec<u8> = Vec::new();
    ip.write(&mut buf).unwrap();
    let (outcome, reply) = handle_datagram(&mut table, &buf);
    assert_eq!(outcome, DatagramOutcome::NotTcp);
    assert!(reply.is_none());
    assert_eq!(table.len(), 0);
}

#[test]
fn truncated_tcp_header_is_reported() {
    let mut table = ConnectionTable::new();
    let ip = etherparse::Ipv4Header::new(5, 64, etherparse::IpNumber::TCP, REMOTE_IP, LOCAL_IP)
        .unwrap();
    let mut buf: Vec<u8> = Vec::new();
    ip.write(&mut buf).unwrap();
    buf.extend_from_slice(&[1, 2, 3, 4, 5]);
    let (outcome, reply) = handle_datagram(&mut table, &buf);
    assert_eq!(outcome, DatagramOutcome::InvalidTcp);
    assert!(reply.is_none());
    assert_eq!(table.len(), 0);
}

#[test]
fn out_of_window_segment_is_dropped_without_effect() {
    let mut table = ConnectionTable::new();
    let seq: u32 = 9000;
    handle_datagram(&mut table, &inbound_syn(REMOTE_PORT, seq));
    let before = table.get(connection_id(REMOTE_PORT)).unwrap();

    // Acceptable ack, but a sequence number far outside the window.
    let outside = build_datagram(
        REMOTE_IP,
        LOCAL_IP,
        REMOTE_PORT,
        LOCAL_PORT,
        seq + 200_000,
        before.send.next,
        false,
        true,
        &[],
    );
    let (outcome, reply) = handle_datagram(&mut table, &outside);
    assert_eq!(
        outcome,
        DatagramOutcome::Handled(ProcessOutcome::Existing(PacketOutcome::Dropped))
    );
    assert!(reply.is_none());
    assert_eq!(table.get(connection_id(REMOTE_PORT)).unwrap(), before);
}

#[test]
fn established_data_is_reported_unsupported_and_safe() {
    let mut table = ConnectionTable::new();
    let seq: u32 = 9000;
    handle_datagram(&mut table, &inbound_syn(REMOTE_PORT, seq));
    let syn_recv = table.get(connection_id(REMOTE_PORT)).unwrap();
    let ack = build_datagram(
        REMOTE_IP,
        LOCAL_IP,
        REMOTE_PORT,
        LOCAL_PORT,
        seq + 1,
        syn_recv.send.next,
        false,
        true,
        &[],
    );
    handle_datagram(&mut table, &ack);
    let before = table.get(connection_id(REMOTE_PORT)).unwrap();
    assert_eq!(before.state, State::Estab);

    let data = build_datagram(
        REMOTE_IP,
        LOCAL_IP,
        REMOTE_PORT,
        LOCAL_PORT,
        seq + 1,
        before.send.next,
        false,
        true,
        b"hello",
    );
    let (outcome, reply) = handle_datagram(&mut table, &data);
    assert_eq!(
        outcome,
        DatagramOutcome::Handled(ProcessOutcome::Existing(PacketOutcome::Unsupported))
    );
    assert!(reply.is_none());
    assert_eq!(table.get(connection_id(REMOTE_PORT)).unwrap(), before);
}

#[test]
fn removal_hands_the_connection_back() {
    let mut table = ConnectionTable::new();
    handle_datagram(&mut table, &inbound_syn(REMOTE_PORT, 9000));
    assert!(table.contains(connection_id(REMOTE_PORT)));

    let removed = table.remove_conn(connection_id(REMOTE_PORT));
    let removed = removed.expect("the connection was present");
    assert_eq!(removed.state, State::SynRecv);
    assert_eq!(table.len(), 0);
    assert!(!table.contains(connection_id(REMOTE_PORT)));
    assert!(table.remove_conn(connection_id(REMOTE_PORT)).is_none());
}
