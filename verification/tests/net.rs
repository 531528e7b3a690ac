use streamos::http::handle_http_request;
use streamos::http::HttpResponse;
use streamos::net::arp::{
    handle_arp_frame, static_ip_exec, ArpAction, ArpFrameParams, ArpOperation, UnknownArpOperation,
};
use streamos::net::{calculate_ipv4_checksum, push_be16, push_be32, to_be_bytes16};

const OUR_MAC: [u8; 6] = [0x52, 0x54, 0x00, 0x12, 0x34, 0x56];
const PEER_MAC: [u8; 6] = [0xaa, 0xbb, 0xcc, 0xdd, 0xee, 0xff];
const PEER_IP: [u8; 4] = [192, 168, 2, 1];

fn request(target_mac: [u8; 6], target_ip: [u8; 4]) -> ArpFrameParams {
    ArpFrameParams {
        operation: ArpOperation::Request,
        sender_hardware_address: PEER_MAC,
        sender_protocol_address: PEER_IP,
        target_hardware_address: target_mac,
        target_protocol_address: target_ip,
    }
}

#[test]
fn arp_request_for_our_ip_is_answered() {
    let frame = request([0; 6], [192, 168, 2, 2]);
    match handle_arp_frame(Ok(ArpOperation::Request), &frame, &OUR_MAC) {
        ArpAction::Reply { dest_mac, reply } => {
            assert_eq!(dest_mac, PEER_MAC);
            assert!(reply.operation == ArpOperation::Reply);
            assert_eq!(reply.sender_hardware_address, OUR_MAC);
            assert_eq!(reply.sender_protocol_address, static_ip_exec());
            assert_eq!(reply.target_hardware_address, PEER_MAC);
            assert_eq!(reply.target_protocol_address, PEER_IP);
        }
        _ => panic!("expected a reply"),
    }
}

#[test]
fn arp_request_for_our_mac_is_answered() {
    let frame = request(OUR_MAC, [10, 0, 0, 9]);
    assert!(matches!(
        handle_arp_frame(Ok(ArpOperation::Request), &frame, &OUR_MAC),
        ArpAction::Reply { .. }
    ));
}

#[test]
fn arp_request_for_someone_else_is_ignored() {
    let frame = request([0; 6], [192, 168, 2, 3]);
    assert!(matches!(
        handle_arp_frame(Ok(ArpOperation::Request), &frame, &OUR_MAC),
        ArpAction::Ignore
    ));
}

#[test]
fn arp_reply_is_recorded_and_unknown_ignored() {
    let mut frame = request(OUR_MAC, [192, 168, 2, 2]);
    frame.operation = ArpOperation::Reply;
    match handle_arp_frame(Ok(ArpOperation::Reply), &frame, &OUR_MAC) {
        ArpAction::Record { ip, mac } => {
            assert_eq!(ip, PEER_IP);
            assert_eq!(mac, PEER_MAC);
        }
        _ => panic!("expected a record"),
    }
    assert!(matches!(
        handle_arp_frame(Err(UnknownArpOperation(7)), &frame, &OUR_MAC),
        ArpAction::Ignore
    ));
}

#[test]
fn internet_checksum_examples() {
    let mut header = vec![
        0x45, 0x00, 0x00, 0x73, 0x00, 0x00, 0x40, 0x00, 0x40, 0x11, 0x00, 0x00, 0xc0, 0xa8, 0x00,
        0x01, 0xc0, 0xa8, 0x00, 0xc7,
    ];
    assert_eq!(calculate_ipv4_checksum(&header), 0xb861);
    header[10] = 0xb8;
    header[11] = 0x61;
    assert_eq!(calculate_ipv4_checksum(&header), 0);
    assert_eq!(calculate_ipv4_checksum(&[]), 0xffff);
    assert_eq!(calculate_ipv4_checksum(&[0x01]), 0xfeff);
}

#[test]
fn big_endian_helpers() {
    assert_eq!(to_be_bytes16(0x1234), [0x12, 0x34]);
    let mut v = vec![9];
    push_be16(&mut v, 0xabcd);
    push_be32(&mut v, 0x0102_0304);
    assert_eq!(v, vec![9, 0xab, 0xcd, 1, 2, 3, 4]);
}

fn response_text(r: &HttpResponse) -> String {
    String::from_utf8(r.to_bytes()).unwrap()
}

#[test]
fn http_index_page() {
    let r = handle_http_request(b"GET / HTTP/1.1\r\nHost: x\r\n\r\n", b"<p>hi</p>")
        .ok()
        .unwrap();
    assert_eq!(
        response_text(&r),
        "HTTP/1.1 200 OK\r\nContent-Length: 9\r\nContent-Type: text/html\r\nConnection: close\r\n\r\n<p>hi</p>"
    );
}

#[test]
fn http_form_echoes_params() {
    let r = handle_http_request(b"GET /form?name=abc&x=1 HTTP/1.1\r\n", b"")
        .ok()
        .unwrap();
    assert!(response_text(&r).ends_with("\r\n\r\nGot form request with params: name=abc&x=1"));
    assert!(response_text(&r).contains("Content-Length: 42\r\n"));
}

#[test]
fn http_unknown_path() {
    let r = handle_http_request(b"GET /nothing HTTP/1.1\r\n", b"index").ok().unwrap();
    assert!(response_text(&r).ends_with("\r\n\r\nUh oh"));
}

#[test]
fn http_incomplete_requests() {
    assert!(handle_http_request(b"GET / HTTP/1.1", b"").is_err());
    assert!(handle_http_request(b"GET\r\n", b"").is_err());
}

#[test]
fn http_response_new() {
    let r = HttpResponse::new(b"abc".to_vec(), b"text/plain".to_vec());
    assert_eq!(
        response_text(&r),
        "HTTP/1.1 200 OK\r\nContent-Length: 3\r\nContent-Type: text/plain\r\nConnection: close\r\n\r\nabc"
    );
}

use streamos::net::frames::{
    generate_arp_frame, generate_arp_request, generate_ethernet_frame, generate_ipv4_frame,
    generate_udp_frame, parse_ipv4, parse_packet, EtherType, EthernetFrameParams, Ipv4ParseError,
    Ipv4Protocol, PacketParseError, ParsedIpv4Frame, ParsedPacket,
};

#[test]
fn ethernet_frames_are_padded_and_read_back() {
    let frame = generate_ethernet_frame(&EthernetFrameParams {
        dest_mac: PEER_MAC,
        source_mac: OUR_MAC,
        ether_type: EtherType::Ipv4,
        payload: b"abc",
    });
    assert_eq!(frame.len(), 60);
    assert_eq!(&frame[0..6], &PEER_MAC);
    assert_eq!(&frame[6..12], &OUR_MAC);
    assert_eq!(&frame[12..17], &[0x08, 0x00, b'a', b'b', b'c']);
    assert!(frame[17..].iter().all(|b| *b == 0));
    let packet = parse_packet(&frame).ok().unwrap();
    assert_eq!(packet.ethernet.dest_mac(), PEER_MAC);
    assert_eq!(packet.ethernet.source_mac(), OUR_MAC);
    assert_eq!(packet.ethernet.ether_type(), 0x0800);
    assert!(matches!(packet.inner, ParsedPacket::Ipv4(_)));

    let long = vec![7u8; 100];
    let frame = generate_ethernet_frame(&EthernetFrameParams {
        dest_mac: PEER_MAC,
        source_mac: OUR_MAC,
        ether_type: EtherType::Arp,
        payload: &long,
    });
    assert_eq!(frame.len(), 114);
}

#[test]
fn short_frames_are_refused() {
    assert!(matches!(parse_packet(&[0u8; 13]), Err(PacketParseError::FrameTooShort(13))));
    let mut arp = vec![0u8; 14 + 20];
    arp[12] = 0x08;
    arp[13] = 0x06;
    assert!(matches!(parse_packet(&arp), Err(PacketParseError::ArpTooShort(20))));
    let mut other = vec![0u8; 20];
    other[12] = 0x86;
    other[13] = 0xdd;
    assert!(matches!(parse_packet(&other).ok().unwrap().inner, ParsedPacket::Unknown(0x86dd)));
}

#[test]
fn arp_request_round_trip() {
    let request = generate_arp_request(&PEER_IP, &[192, 168, 2, 2], &OUR_MAC);
    assert_eq!(
        request,
        vec![
            0, 1, 8, 0, 6, 4, 0, 1, 0x52, 0x54, 0x00, 0x12, 0x34, 0x56, 192, 168, 2, 2, 0, 0, 0,
            0, 0, 0, 192, 168, 2, 1
        ]
    );
    let frame = generate_ethernet_frame(&EthernetFrameParams {
        dest_mac: [0xff; 6],
        source_mac: OUR_MAC,
        ether_type: EtherType::Arp,
        payload: &request,
    });
    let packet = parse_packet(&frame).ok().unwrap();
    let arp = match packet.inner {
        ParsedPacket::Arp(a) => a,
        _ => panic!("expected ARP"),
    };
    assert!(matches!(arp.operation(), Ok(ArpOperation::Request)));
    let params = arp.params().ok().unwrap();
    assert_eq!(params.sender_hardware_address, OUR_MAC);
    assert_eq!(params.sender_protocol_address, [192, 168, 2, 2]);
    assert_eq!(params.target_protocol_address, PEER_IP);
    // answering it gives the reply frame
    let mut reply = params;
    reply.operation = ArpOperation::Reply;
    let bytes = generate_arp_frame(&reply);
    assert_eq!(&bytes[6..8], &[0, 2]);
}

#[test]
fn ipv4_packets_round_trip() {
    let udp = generate_udp_frame(6000, b"hello");
    assert_eq!(udp, vec![0x17, 0x70, 0x17, 0x70, 0, 13, 0, 0, b'h', b'e', b'l', b'l', b'o']);
    let packet = generate_ipv4_frame(&udp, Ipv4Protocol::Udp, &[192, 168, 2, 2], &PEER_IP);
    assert_eq!(packet.len(), 33);
    assert_eq!(&packet[0..4], &[0x45, 0, 0, 33]);
    assert_eq!(packet[9], 17);
    assert_eq!(calculate_ipv4_checksum(&packet[0..20]), 0);
    let frame = generate_ethernet_frame(&EthernetFrameParams {
        dest_mac: PEER_MAC,
        source_mac: OUR_MAC,
        ether_type: EtherType::Ipv4,
        payload: &packet,
    });
    let parsed = parse_packet(&frame).ok().unwrap();
    let ip = match parsed.inner {
        ParsedPacket::Ipv4(f) => f,
        _ => panic!("expected IPv4"),
    };
    assert_eq!(ip.source_ip(), [192, 168, 2, 2]);
    assert_eq!(ip.dest_ip(), PEER_IP);
    // the padding after the total length is not part of the datagram
    match parse_ipv4(&ip).ok().unwrap() {
        ParsedIpv4Frame::Udp(u) => {
            assert_eq!(u.source_port(), 6000);
            assert_eq!(u.dest_port(), 6000);
            assert_eq!(u.data(), b"hello");
        }
        _ => panic!("expected UDP"),
    }
}

#[test]
fn ipv4_errors() {
    let good = generate_ipv4_frame(b"x", Ipv4Protocol::Tcp, &PEER_IP, &PEER_IP);
    let frame_of = |b: &[u8]| {
        let mut f = vec![0u8; 12];
        f.extend_from_slice(&[0x08, 0x00]);
        f.extend_from_slice(b);
        f
    };
    let check = |b: Vec<u8>| -> Ipv4ParseError {
        let f = frame_of(&b);
        let p = parse_packet(&f).ok().unwrap();
        match p.inner {
            ParsedPacket::Ipv4(ip) => match parse_ipv4(&ip) {
                Err(e) => e,
                Ok(_) => panic!("expected an error"),
            },
            _ => panic!("expected IPv4"),
        }
    };
    assert!(matches!(check(good[..19].to_vec()), Ipv4ParseError::TooShort(19)));
    let mut v6 = good.clone();
    v6[0] = 0x65;
    assert!(matches!(check(v6), Ipv4ParseError::NotVersion4(6)));
    let mut short_header = good.clone();
    short_header[0] = 0x44;
    assert!(matches!(check(short_header), Ipv4ParseError::BadHeaderLength(4)));
    let mut long_total = good.clone();
    long_total[3] = 200;
    assert!(matches!(check(long_total), Ipv4ParseError::BadTotalLength(200)));
    let udp_short = generate_ipv4_frame(b"abc", Ipv4Protocol::Udp, &PEER_IP, &PEER_IP);
    assert!(matches!(check(udp_short), Ipv4ParseError::UdpTooShort(3)));
}
