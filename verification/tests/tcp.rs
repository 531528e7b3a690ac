use streamos::net::calculate_ipv4_checksum;
use streamos::net::tcp::{
    generate_tcp_flags, generate_tcp_frame, write_request_to_outgoing_packet, TcpFlags,
    TcpFlagsParams, TcpFrame, TcpFrameParams, TcpKey, TcpState,
};
use streamos::rng::Rng;

fn flags(syn: bool, ack: bool, psh: bool) -> TcpFlags {
    generate_tcp_flags(&TcpFlagsParams {
        cwr: false,
        ece: false,
        urg: false,
        ack,
        psh,
        rst: false,
        syn,
        fin: false,
    })
}

fn segment(
    src: [u8; 4],
    dst: [u8; 4],
    ports: (u16, u16),
    seq_num: u32,
    ack_num: u32,
    flags: TcpFlags,
    payload: &[u8],
) -> Vec<u8> {
    generate_tcp_frame(&TcpFrameParams {
        source_address: src,
        dest_address: dst,
        source_port: ports.0,
        dest_port: ports.1,
        seq_num,
        ack_num,
        flags,
        window_size: 5000,
        urgent_ptr: 0,
        payload: payload.to_vec(),
    })
}

#[test]
fn test_tcp_frame_parsing() {
    const TCP_SYN: &[u8] = &[
        0x80, 0xd8, 0x17, 0x70, 0x5a, 0x5b, 0x14, 0x47, 0x00, 0x00, 0x00, 0x00, 0xa0, 0x02, 0xfa,
        0xf0, 0x7e, 0xa4, 0x00, 0x00, 0x02, 0x04, 0x05, 0xb4, 0x04, 0x02, 0x08, 0x0a, 0x41, 0xcf,
        0x00, 0x5d, 0x00, 0x00, 0x00, 0x00, 0x01, 0x03, 0x03, 0x07,
    ];

    let frame = TcpFrame::new(TCP_SYN);
    assert_eq!(frame.source_port(), 32984);
    assert_eq!(frame.dest_port(), 6000);
    assert_eq!(frame.seq_num(), 1515918407);
    assert_eq!(frame.ack_num(), 0);
    assert_eq!(frame.data_offset_bytes(), 40);
    assert_eq!(frame.flags().0, 2);
    assert_eq!(frame.window_size(), 64240);
    assert_eq!(frame.checksum(), 0x7ea4);
    assert_eq!(frame.urgent_ptr(), 0);
    assert_eq!(frame.payload().len(), 0);
}

#[test]
fn test_tcp_flags_back_and_forth() {
    let flags = generate_tcp_flags(&TcpFlagsParams {
        cwr: true,
        ece: false,
        urg: false,
        ack: true,
        psh: false,
        rst: true,
        syn: true,
        fin: true,
    });

    assert_eq!(flags.cwr(), true);
    assert_eq!(flags.ece(), false);
    assert_eq!(flags.urg(), false);
    assert_eq!(flags.ack(), true);
    assert_eq!(flags.psh(), false);
    assert_eq!(flags.rst(), true);
    assert_eq!(flags.syn(), true);
    assert_eq!(flags.fin(), true);
    assert_eq!(flags.0, 0b1001_0111);
}

#[test]
fn generated_frame_reads_back() {
    let bytes = segment([10, 0, 0, 1], [10, 0, 0, 2], (1234, 80), 7, 9, flags(false, true, true), b"hi");
    let frame = TcpFrame::new(&bytes);
    assert_eq!(frame.source_port(), 1234);
    assert_eq!(frame.dest_port(), 80);
    assert_eq!(frame.seq_num(), 7);
    assert_eq!(frame.ack_num(), 9);
    assert_eq!(frame.data_offset_bytes(), 20);
    assert!(frame.flags().ack() && frame.flags().psh() && !frame.flags().syn());
    assert_eq!(frame.window_size(), 5000);
    assert_eq!(frame.payload(), b"hi");
}

#[test]
fn generated_frame_checksum_verifies() {
    let src = [192, 168, 2, 1];
    let dst = [192, 168, 2, 2];
    let bytes = segment(src, dst, (1, 2), 3, 4, flags(true, false, false), b"abc");
    let mut pseudo = Vec::new();
    pseudo.extend_from_slice(&src);
    pseudo.extend_from_slice(&dst);
    pseudo.push(0);
    pseudo.push(6);
    pseudo.extend_from_slice(&(bytes.len() as u16).to_be_bytes());
    pseudo.extend_from_slice(&bytes);
    assert_eq!(calculate_ipv4_checksum(&pseudo), 0);
}

#[test]
fn ipv4_header_checksum() {
    let header = [
        0x45, 0x00, 0x00, 0x73, 0x00, 0x00, 0x40, 0x00, 0x40, 0x11, 0x00, 0x00, 0xc0, 0xa8, 0x00,
        0x01, 0xc0, 0xa8, 0x00, 0xc7,
    ];
    assert_eq!(calculate_ipv4_checksum(&header), 0xb861);
    assert_eq!(calculate_ipv4_checksum(&[0x01]), 0xfeff);
    assert_eq!(calculate_ipv4_checksum(&[]), 0xffff);
}

#[test]
fn test_dropped_syn_ack_ack() {
    const TCP_SYN: &[u8] = b"\x89\x06\x27\x0f\xcc\x6b\x38\x32\x00\x00\x00\x00\xa0\x02\xfa\xf0\x22\xb5\x00\x00\x02\x04\x05\xb4\x04\x02\x08\x0a\xc3\x8b\x2c\xc7\x00\x00\x00\x00\x01\x03\x03\x07";
    const TCP_ACK: &[u8] =
        b"\x89\x06\x27\x0f\xcc\x6b\x38\x33\x00\x39\x84\x21\x50\x10\xfa\xf0\xf6\x80\x00\x00";
    const SOURCE_IP: [u8; 4] = [192, 168, 2, 1];
    const DEST_IP: [u8; 4] = [192, 168, 2, 2];

    let mut rng = Rng::new(0);
    let mut state = TcpState::Uninit;
    let key = TcpKey { remote_ip: SOURCE_IP, local_ip: DEST_IP, remote_port: 0x8906, local_port: 0x270f };

    let outcome = state.handle_frame(&TcpFrame::new(TCP_SYN), SOURCE_IP, DEST_IP, &mut rng, 20, true);
    let syn_ack = outcome.response.expect("a syn-ack answers the syn");
    assert_eq!(outcome.wakeup_at, Some(20));
    assert!(!outcome.new_connection);

    // Before the timeout nothing is sent again.
    assert!(state.poll_outgoing(&key, 10, 20).is_none());

    // After it the syn-ack goes out once more.
    let resent = state.poll_outgoing(&key, 21, 20).expect("syn-ack retransmit missing");
    assert_eq!(resent.payload, syn_ack);
    assert_eq!(resent.local_ip, DEST_IP);
    assert_eq!(resent.remote_ip, SOURCE_IP);
    let frame = TcpFrame::new(&resent.payload);
    assert!(frame.flags().syn());
    assert!(frame.flags().ack());
    assert_eq!(frame.ack_num(), 0xcc6b3833);

    let outcome = state.handle_frame(&TcpFrame::new(TCP_ACK), SOURCE_IP, DEST_IP, &mut rng, 40, true);
    assert!(outcome.new_connection);
    assert!(outcome.response.is_none());
    assert!(matches!(state, TcpState::Connected(_)));
}

#[test]
fn test_dup_ack_retransmission() {
    const CLIENT_IP: [u8; 4] = [192, 168, 2, 1];
    const SERVER_IP: [u8; 4] = [192, 168, 2, 2];
    const CLIENT_PORT: u16 = 1234;
    const SERVER_PORT: u16 = 5678;
    let ports = (CLIENT_PORT, SERVER_PORT);
    let key = TcpKey { remote_ip: CLIENT_IP, local_ip: SERVER_IP, remote_port: CLIENT_PORT, local_port: SERVER_PORT };

    let mut rng = Rng::new(0);
    let mut state = TcpState::Uninit;

    let syn = segment(CLIENT_IP, SERVER_IP, ports, 150, 0, flags(true, false, false), b"");
    let outcome = state.handle_frame(&TcpFrame::new(&syn), CLIENT_IP, SERVER_IP, &mut rng, 100, true);
    let syn_ack = outcome.response.unwrap();
    let server_seq = TcpFrame::new(&syn_ack).seq_num();

    let ack = segment(CLIENT_IP, SERVER_IP, ports, 151, server_seq.wrapping_add(1), flags(false, true, false), b"");
    let outcome = state.handle_frame(&TcpFrame::new(&ack), CLIENT_IP, SERVER_IP, &mut rng, 100, true);
    assert!(outcome.new_connection);
    assert!(outcome.response.is_none());

    match &mut state {
        TcpState::Connected(c) => {
            c.to_send.push_back(b"hello world".to_vec());
            c.to_send.push_back(b"hello world 2".to_vec());
        }
        _ => panic!("connection not established"),
    }

    let first = state.poll_outgoing(&key, 1, 100).expect("first segment");
    let first_frame = TcpFrame::new(&first.payload);
    assert_eq!(first_frame.payload(), b"hello world");
    let data1_ack = segment(
        CLIENT_IP,
        SERVER_IP,
        ports,
        151,
        first_frame.seq_num().wrapping_add(11),
        flags(false, true, false),
        b"",
    );

    let outcome = state.handle_frame(&TcpFrame::new(&data1_ack), CLIENT_IP, SERVER_IP, &mut rng, 100, true);
    assert!(outcome.response.is_none());

    let second = state.poll_outgoing(&key, 2, 100).expect("second segment");
    assert_eq!(TcpFrame::new(&second.payload).payload(), b"hello world 2");

    // After both segments went out there is nothing to send.
    assert!(state.poll_outgoing(&key, 3, 100).is_none());

    for _ in 0..2 {
        let outcome = state.handle_frame(&TcpFrame::new(&data1_ack), CLIENT_IP, SERVER_IP, &mut rng, 100, true);
        assert!(outcome.response.is_none());
    }

    // Three acks of the same byte: the unacknowledged segment goes out again.
    let again = state.poll_outgoing(&key, 4, 100).expect("retransmission");
    assert_eq!(TcpFrame::new(&again.payload).payload(), b"hello world 2");
}

#[test]
fn pushed_data_is_acknowledged_and_handed_over() {
    let client = [10, 0, 0, 1];
    let server = [10, 0, 0, 2];
    let ports = (4000, 80);
    let mut rng = Rng::new(7);
    let mut state = TcpState::Uninit;
    let syn = segment(client, server, ports, 1000, 0, flags(true, false, false), b"");
    let synack = state.handle_frame(&TcpFrame::new(&syn), client, server, &mut rng, 5, true).response.unwrap();
    let server_seq = TcpFrame::new(&synack).seq_num();
    let ack = segment(client, server, ports, 1001, server_seq.wrapping_add(1), flags(false, true, false), b"");
    assert!(state.handle_frame(&TcpFrame::new(&ack), client, server, &mut rng, 5, true).new_connection);

    let data = segment(client, server, ports, 1001, server_seq.wrapping_add(1), flags(false, true, true), b"GET");
    let outcome = state.handle_frame(&TcpFrame::new(&data), client, server, &mut rng, 5, true);
    assert_eq!(outcome.received, Some(b"GET".to_vec()));
    let reply = outcome.response.unwrap();
    let reply = TcpFrame::new(&reply);
    assert_eq!(reply.ack_num(), 1004);
    assert!(reply.flags().ack());

    // A segment that is not the next one expected is ignored.
    let stale = segment(client, server, ports, 999, 0, flags(false, true, true), b"x");
    let outcome = state.handle_frame(&TcpFrame::new(&stale), client, server, &mut rng, 5, true);
    assert!(outcome.response.is_none() && outcome.received.is_none());
}

#[test]
fn no_listener_no_connection() {
    let client = [10, 0, 0, 1];
    let server = [10, 0, 0, 2];
    let ports = (4000, 81);
    let mut rng = Rng::new(1);
    let mut state = TcpState::Uninit;
    let syn = segment(client, server, ports, 1, 0, flags(true, false, false), b"");
    state.handle_frame(&TcpFrame::new(&syn), client, server, &mut rng, 5, false);
    let ack = segment(client, server, ports, 2, 0, flags(false, true, false), b"");
    let outcome = state.handle_frame(&TcpFrame::new(&ack), client, server, &mut rng, 5, false);
    assert!(!outcome.new_connection);
    assert!(matches!(state, TcpState::SynAckSent { .. }));
}

#[test]
fn write_request_advances_the_sequence_number() {
    let key = TcpKey { remote_ip: [1, 2, 3, 4], local_ip: [5, 6, 7, 8], remote_port: 10, local_port: 20 };
    let mut rng = Rng::new(3);
    let mut state = TcpState::Uninit;
    let syn = segment([1, 2, 3, 4], [5, 6, 7, 8], (10, 20), 0, 0, flags(true, false, false), b"");
    let synack = state.handle_frame(&TcpFrame::new(&syn), [1, 2, 3, 4], [5, 6, 7, 8], &mut rng, 5, true).response.unwrap();
    let server_seq = TcpFrame::new(&synack).seq_num();
    let ack = segment([1, 2, 3, 4], [5, 6, 7, 8], (10, 20), 1, server_seq.wrapping_add(1), flags(false, true, false), b"");
    state.handle_frame(&TcpFrame::new(&ack), [1, 2, 3, 4], [5, 6, 7, 8], &mut rng, 5, true);
    if let TcpState::Connected(c) = &mut state {
        let before = c.seq_num;
        let packet = write_request_to_outgoing_packet(&key, c, 0, b"abcd".to_vec());
        assert_eq!(c.seq_num, before.wrapping_add(4));
        let frame = TcpFrame::new(&packet.payload);
        assert_eq!(frame.seq_num(), before);
        assert_eq!(frame.payload(), b"abcd");
        assert_eq!(packet.remote_ip, [1, 2, 3, 4]);
    } else {
        panic!("not connected");
    }
}

#[test]
fn zero_data_offset_is_malformed() {
    let mut bytes = vec![0u8; 16];
    bytes[13] = 0x18; // ack, psh
    let frame = TcpFrame::new(&bytes);
    assert!(!frame.is_well_formed());
    assert_eq!(frame.len(), 16);
    bytes[12] = 0x40;
    let frame = TcpFrame::new(&bytes);
    assert!(frame.is_well_formed());
    assert_eq!(frame.data_offset_bytes(), 16);
    assert_eq!(frame.payload(), b"");
}

#[test]
fn short_segment_handled_when_connected() {
    const CLIENT_IP: [u8; 4] = [192, 168, 2, 1];
    const SERVER_IP: [u8; 4] = [192, 168, 2, 2];
    let ports = (1234, 5678);
    let mut rng = Rng::new(0);
    let mut state = TcpState::Uninit;
    let syn = segment(CLIENT_IP, SERVER_IP, ports, 0xffff_ffff, 0, flags(true, false, false), b"");
    let syn_ack = state.handle_frame(&TcpFrame::new(&syn), CLIENT_IP, SERVER_IP, &mut rng, 100, true).response.unwrap();
    let server_seq = TcpFrame::new(&syn_ack).seq_num();
    // The ACK of the SYN-ACK is a 16 byte segment whose header is all of it, with
    // sequence number 0 (one past the SYN's).
    let mut ack = vec![0u8; 16];
    ack[0..2].copy_from_slice(&1234u16.to_be_bytes());
    ack[2..4].copy_from_slice(&5678u16.to_be_bytes());
    ack[8..12].copy_from_slice(&server_seq.wrapping_add(1).to_be_bytes());
    ack[12] = 0x40;
    ack[13] = 0x10;
    assert!(state.frame_readable(&TcpFrame::new(&ack), true));
    let outcome = state.handle_frame(&TcpFrame::new(&ack), CLIENT_IP, SERVER_IP, &mut rng, 100, true);
    assert!(outcome.new_connection);
    // Connected: a pushed segment with a 16 byte header carries the 4 bytes after it.
    let mut data = ack.clone();
    data[13] = 0x18;
    data.extend_from_slice(b"abcd");
    let outcome = state.handle_frame(&TcpFrame::new(&data), CLIENT_IP, SERVER_IP, &mut rng, 100, true);
    assert_eq!(outcome.received.unwrap(), b"abcd");
    assert!(outcome.response.is_some());
    // A zero data offset is not readable on an established connection.
    let mut zero = data.clone();
    zero[4..8].copy_from_slice(&4u32.to_be_bytes());
    zero[12] = 0;
    assert!(!state.frame_readable(&TcpFrame::new(&zero), true));
}

#[test]
fn only_an_answered_syn_draws_a_number() {
    const CLIENT_IP: [u8; 4] = [192, 168, 2, 1];
    const SERVER_IP: [u8; 4] = [192, 168, 2, 2];
    let ports = (1234, 5678);
    let mut rng = Rng::new(u64::MAX - 1);
    let mut state = TcpState::Uninit;
    let plain_ack = segment(CLIENT_IP, SERVER_IP, ports, 7, 0, flags(false, true, false), b"");
    let outcome = state.handle_frame(&TcpFrame::new(&plain_ack), CLIENT_IP, SERVER_IP, &mut rng, 100, true);
    assert!(outcome.response.is_none());
    assert!(rng.can_draw());
    let syn = segment(CLIENT_IP, SERVER_IP, ports, 7, 0, flags(true, false, false), b"");
    let outcome = state.handle_frame(&TcpFrame::new(&syn), CLIENT_IP, SERVER_IP, &mut rng, 100, true);
    assert!(outcome.response.is_some());
    assert!(!rng.can_draw());
}
