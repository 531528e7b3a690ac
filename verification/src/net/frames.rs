//! Ethernet, ARP, IPv4 and UDP frames: reading received ones in place and building
//! the ones the kernel sends.
use vstd::prelude::*;

use crate::net::arp::{ArpFrameParams, ArpOperation, MacAddr, UnknownArpOperation};
use crate::net::tcp::TcpFrame;
use crate::net::{
    be16, be16_bytes, calculate_ipv4_checksum, internet_checksum, law_checksum_field_verifies,
    push_be16, push_bytes, IpAddr,
};

verus! {

/// What an Ethernet frame carries.
#[derive(Clone, Copy, PartialEq, Eq, Structural)]
pub enum EtherType {
    Arp,
    Ipv4,
}

/// The EtherType code of `t`.
pub open spec fn ether_type_code(t: EtherType) -> u16 {
    match t {
        EtherType::Arp => 0x0806,
        EtherType::Ipv4 => 0x0800,
    }
}

impl EtherType {
    /// The EtherType code sent on the wire.
    pub fn code(&self) -> (r: u16)
        ensures
            r == ether_type_code(*self),
    {
        match self {
            EtherType::Arp => 0x0806,
            EtherType::Ipv4 => 0x0800,
        }
    }
}

/// Bytes of the Ethernet header: destination, source, type.
pub const ETHERNET_HEADER_LEN: usize = 14;

/// The fewest bytes an Ethernet frame has, without its checksum; shorter frames are
/// padded with zeros.
pub const MIN_ETHERNET_FRAME_LEN: usize = 60;

/// What goes into an Ethernet frame.
pub struct EthernetFrameParams<'a> {
    pub dest_mac: MacAddr,
    pub source_mac: MacAddr,
    pub ether_type: EtherType,
    pub payload: &'a [u8],
}

/// `s`, with zeros added up to `n` bytes when it is shorter.
pub open spec fn padded(s: Seq<u8>, n: nat) -> Seq<u8> {
    if s.len() >= n {
        s
    } else {
        s + Seq::new((n - s.len()) as nat, |i: int| 0u8)
    }
}

/// The Ethernet frame from `src` to `dest` carrying `payload` of type `t`.
pub open spec fn ethernet_frame_bytes(dest: MacAddr, src: MacAddr, t: EtherType, payload: Seq<u8>) -> Seq<u8> {
    padded(dest@ + src@ + be16_bytes(ether_type_code(t)) + payload, MIN_ETHERNET_FRAME_LEN as nat)
}

/// Builds the Ethernet frame `params` describes, padded to the minimum frame size.
pub fn generate_ethernet_frame(params: &EthernetFrameParams) -> (r: Vec<u8>)
    ensures
        r@ == ethernet_frame_bytes(
            params.dest_mac,
            params.source_mac,
            params.ether_type,
            params.payload@,
        ),
{
    let mut ret: Vec<u8> = Vec::new();
    push_bytes(&mut ret, &params.dest_mac);
    push_bytes(&mut ret, &params.source_mac);
    push_be16(&mut ret, params.ether_type.code());
    push_bytes(&mut ret, params.payload);
    let ghost unpadded = ret@;
    while ret.len() < MIN_ETHERNET_FRAME_LEN
        invariant
            unpadded.len() <= ret@.len() <= MIN_ETHERNET_FRAME_LEN || ret@ == unpadded,
            ret@ == unpadded + Seq::new((ret@.len() - unpadded.len()) as nat, |i: int| 0u8),
        decreases MIN_ETHERNET_FRAME_LEN - ret@.len(),
    {
        ret.push(0);
        assert(ret@ =~= unpadded + Seq::new((ret@.len() - unpadded.len()) as nat, |i: int| 0u8));
    }
    proof {
        if unpadded.len() >= MIN_ETHERNET_FRAME_LEN {
            assert(ret@ =~= unpadded);
        }
    }
    ret
}

/// A received Ethernet frame, read in place; it holds at least a header.
pub struct EthernetFrame<'a> {
    data: &'a [u8],
}

impl<'a> View for EthernetFrame<'a> {
    type V = Seq<u8>;

    closed spec fn view(&self) -> Seq<u8> {
        self.data@
    }
}

/// The six bytes at `i` of `b`, as an address.
pub open spec fn mac_at(b: Seq<u8>, i: int) -> Seq<u8> {
    b.subrange(i, i + 6)
}

/// The four bytes at `i` of `b`, as an address.
pub open spec fn ip_at(b: Seq<u8>, i: int) -> Seq<u8> {
    b.subrange(i, i + 4)
}

fn read_mac(b: &[u8], i: usize) -> (r: MacAddr)
    requires
        i + 6 <= b@.len(),
    ensures
        r@ == mac_at(b@, i as int),
{
    let r = [b[i], b[i + 1], b[i + 2], b[i + 3], b[i + 4], b[i + 5]];
    assert(r@ =~= mac_at(b@, i as int));
    r
}

fn read_ip(b: &[u8], i: usize) -> (r: IpAddr)
    requires
        i + 4 <= b@.len(),
    ensures
        r@ == ip_at(b@, i as int),
{
    let r = [b[i], b[i + 1], b[i + 2], b[i + 3]];
    assert(r@ =~= ip_at(b@, i as int));
    r
}

fn read_be16(b: &[u8], i: usize) -> (r: u16)
    requires
        i + 2 <= b@.len(),
    ensures
        r == be16(b@[i as int], b@[i + 1]),
{
    (b[i] as u16) * 256 + b[i + 1] as u16
}

fn tail(b: &[u8], from: usize) -> (r: &[u8])
    requires
        from <= b@.len(),
    ensures
        r@ == b@.subrange(from as int, b@.len() as int),
{
    let (_, rest) = b.split_at(from);
    rest
}

fn middle(b: &[u8], from: usize, to: usize) -> (r: &[u8])
    requires
        from <= to <= b@.len(),
    ensures
        r@ == b@.subrange(from as int, to as int),
{
    let (head, _) = b.split_at(to);
    let (_, mid) = head.split_at(from);
    assert(mid@ =~= b@.subrange(from as int, to as int));
    mid
}

impl<'a> EthernetFrame<'a> {
    /// Address of the receiver.
    pub fn dest_mac(&self) -> (r: MacAddr)
        requires
            self@.len() >= ETHERNET_HEADER_LEN,
        ensures
            r@ == mac_at(self@, 0),
    {
        read_mac(self.data, 0)
    }

    /// Address of the sender.
    pub fn source_mac(&self) -> (r: MacAddr)
        requires
            self@.len() >= ETHERNET_HEADER_LEN,
        ensures
            r@ == mac_at(self@, 6),
    {
        read_mac(self.data, 6)
    }

    /// The EtherType code.
    pub fn ether_type(&self) -> (r: u16)
        requires
            self@.len() >= ETHERNET_HEADER_LEN,
        ensures
            r == be16(self@[12], self@[13]),
    {
        read_be16(self.data, 12)
    }

    /// What follows the header.
    pub fn payload(&self) -> (r: &'a [u8])
        requires
            self@.len() >= ETHERNET_HEADER_LEN,
        ensures
            r@ == self@.subrange(ETHERNET_HEADER_LEN as int, self@.len() as int),
    {
        tail(self.data, ETHERNET_HEADER_LEN)
    }
}

/// Bytes of an ARP frame for IPv4 over Ethernet.
pub const ARP_FRAME_LEN: usize = 28;

/// A received ARP frame, read in place.
pub struct ArpFrame<'a> {
    data: &'a [u8],
}

impl<'a> View for ArpFrame<'a> {
    type V = Seq<u8>;

    closed spec fn view(&self) -> Seq<u8> {
        self.data@
    }
}

/// The operation that code `op` names.
pub open spec fn arp_operation_of(op: u16) -> Result<ArpOperation, UnknownArpOperation> {
    if op == 1 {
        Ok(ArpOperation::Request)
    } else if op == 2 {
        Ok(ArpOperation::Reply)
    } else {
        Err(UnknownArpOperation(op))
    }
}

/// The operation code of `op`.
pub open spec fn arp_operation_code(op: ArpOperation) -> u16 {
    match op {
        ArpOperation::Request => 1,
        ArpOperation::Reply => 2,
    }
}

impl<'a> ArpFrame<'a> {
    /// What the frame asks, from its operation code.
    pub fn operation(&self) -> (r: Result<ArpOperation, UnknownArpOperation>)
        requires
            self@.len() >= ARP_FRAME_LEN,
        ensures
            r == arp_operation_of(be16(self@[6], self@[7]) as u16),
    {
        let op = read_be16(self.data, 6);
        if op == 1 {
            Ok(ArpOperation::Request)
        } else if op == 2 {
            Ok(ArpOperation::Reply)
        } else {
            Err(UnknownArpOperation(op))
        }
    }

    /// Hardware address of the sender.
    pub fn sender_hardware_address(&self) -> (r: MacAddr)
        requires
            self@.len() >= ARP_FRAME_LEN,
        ensures
            r@ == mac_at(self@, 8),
    {
        read_mac(self.data, 8)
    }

    /// Protocol address of the sender.
    pub fn sender_protocol_address(&self) -> (r: IpAddr)
        requires
            self@.len() >= ARP_FRAME_LEN,
        ensures
            r@ == ip_at(self@, 14),
    {
        read_ip(self.data, 14)
    }

    /// Hardware address of the target.
    pub fn target_hardware_address(&self) -> (r: MacAddr)
        requires
            self@.len() >= ARP_FRAME_LEN,
        ensures
            r@ == mac_at(self@, 18),
    {
        read_mac(self.data, 18)
    }

    /// Protocol address of the target.
    pub fn target_protocol_address(&self) -> (r: IpAddr)
        requires
            self@.len() >= ARP_FRAME_LEN,
        ensures
            r@ == ip_at(self@, 24),
    {
        read_ip(self.data, 24)
    }

    /// The fields of the frame, or the unknown operation code it carries.
    pub fn params(&self) -> (r: Result<ArpFrameParams, UnknownArpOperation>)
        requires
            self@.len() >= ARP_FRAME_LEN,
        ensures
            match arp_operation_of(be16(self@[6], self@[7]) as u16) {
                Ok(op) => r matches Ok(p) && p.operation == op && p.sender_hardware_address@
                    == mac_at(self@, 8) && p.sender_protocol_address@ == ip_at(self@, 14)
                    && p.target_hardware_address@ == mac_at(self@, 18)
                    && p.target_protocol_address@ == ip_at(self@, 24),
                Err(e) => r == Err::<ArpFrameParams, UnknownArpOperation>(e),
            },
    {
        let operation = match self.operation() {
            Ok(op) => op,
            Err(e) => {
                return Err(e);
            },
        };
        Ok(
            ArpFrameParams {
                operation,
                sender_hardware_address: self.sender_hardware_address(),
                sender_protocol_address: self.sender_protocol_address(),
                target_hardware_address: self.target_hardware_address(),
                target_protocol_address: self.target_protocol_address(),
            },
        )
    }
}

/// The ARP frame for IPv4 over Ethernet that `p` describes: hardware type 1,
/// protocol type IPv4, address sizes 6 and 4, the operation and the four addresses.
pub open spec fn arp_frame_bytes(p: ArpFrameParams) -> Seq<u8> {
    seq![0u8, 1, 8, 0, 6, 4] + be16_bytes(arp_operation_code(p.operation))
        + p.sender_hardware_address@ + p.sender_protocol_address@
        + p.target_hardware_address@ + p.target_protocol_address@
}

/// Builds the ARP frame `params` describes.
pub fn generate_arp_frame(params: &ArpFrameParams) -> (r: Vec<u8>)
    ensures
        r@ == arp_frame_bytes(*params),
{
    let mut ret: Vec<u8> = Vec::new();
    push_bytes(&mut ret, &[0u8, 1, 8, 0, 6, 4]);
    let op: u16 = match params.operation {
        ArpOperation::Request => 1,
        ArpOperation::Reply => 2,
    };
    push_be16(&mut ret, op);
    push_bytes(&mut ret, &params.sender_hardware_address);
    push_bytes(&mut ret, &params.sender_protocol_address);
    push_bytes(&mut ret, &params.target_hardware_address);
    push_bytes(&mut ret, &params.target_protocol_address);
    proof {
        assert([0u8, 1, 8, 0, 6, 4]@ =~= seq![0u8, 1, 8, 0, 6, 4]);
    }
    ret
}

/// The request asking who has `target_ip`, from `source_mac` at `source_ip`.
pub open spec fn arp_request_params(target_ip: IpAddr, source_ip: IpAddr, source_mac: MacAddr) -> ArpFrameParams {
    ArpFrameParams {
        operation: ArpOperation::Request,
        sender_hardware_address: source_mac,
        sender_protocol_address: source_ip,
        target_hardware_address: [0u8, 0, 0, 0, 0, 0],
        target_protocol_address: target_ip,
    }
}

/// Builds the request asking who has `target_ip`, sent by `source_mac` at
/// `source_ip`; the target hardware address is left zero.
pub fn generate_arp_request(target_ip: &IpAddr, source_ip: &IpAddr, source_mac: &MacAddr) -> (r: Vec<
    u8,
>)
    ensures
        r@ == arp_frame_bytes(arp_request_params(*target_ip, *source_ip, *source_mac)),
{
    let params = ArpFrameParams {
        operation: ArpOperation::Request,
        sender_hardware_address: *source_mac,
        sender_protocol_address: *source_ip,
        target_hardware_address: [0u8, 0, 0, 0, 0, 0],
        target_protocol_address: *target_ip,
    };
    assert(params == arp_request_params(*target_ip, *source_ip, *source_mac));
    generate_arp_frame(&params)
}

/// A received IPv4 packet, read in place.
pub struct Ipv4Frame<'a> {
    data: &'a [u8],
}

impl<'a> View for Ipv4Frame<'a> {
    type V = Seq<u8>;

    closed spec fn view(&self) -> Seq<u8> {
        self.data@
    }
}

/// Bytes of an IPv4 header without options.
pub const IPV4_HEADER_LEN: usize = 20;

/// Header length of the IPv4 packet `b`, from its IHL field, in bytes.
pub open spec fn ipv4_header_len(b: Seq<u8>) -> nat {
    ((b[0] % 16) * 4) as nat
}

/// Total length field of the IPv4 packet `b`.
pub open spec fn ipv4_total_len(b: Seq<u8>) -> nat {
    be16(b[2], b[3])
}

/// Whether `b` is an IPv4 packet the kernel reads: version 4, a header of at least
/// 20 bytes, and a total length that covers the header and lies within `b`.
pub open spec fn ipv4_valid(b: Seq<u8>) -> bool {
    &&& b.len() >= IPV4_HEADER_LEN
    &&& b[0] / 16 == 4
    &&& IPV4_HEADER_LEN <= ipv4_header_len(b) <= ipv4_total_len(b) <= b.len()
}

/// What an IPv4 packet carries: from the end of its header to its total length.
pub open spec fn ipv4_payload(b: Seq<u8>) -> Seq<u8> {
    b.subrange(ipv4_header_len(b) as int, ipv4_total_len(b) as int)
}

impl<'a> Ipv4Frame<'a> {
    /// Address of the sender.
    pub fn source_ip(&self) -> (r: IpAddr)
        requires
            self@.len() >= IPV4_HEADER_LEN,
        ensures
            r@ == ip_at(self@, 12),
    {
        read_ip(self.data, 12)
    }

    /// Address of the receiver.
    pub fn dest_ip(&self) -> (r: IpAddr)
        requires
            self@.len() >= IPV4_HEADER_LEN,
        ensures
            r@ == ip_at(self@, 16),
    {
        read_ip(self.data, 16)
    }

    /// Protocol number of the payload.
    pub fn protocol(&self) -> (r: u8)
        requires
            self@.len() >= IPV4_HEADER_LEN,
        ensures
            r == self@[9],
    {
        self.data[9]
    }
}

/// A received UDP datagram, read in place; it holds at least its 8 byte header.
pub struct UdpFrame<'a> {
    data: &'a [u8],
}

impl<'a> View for UdpFrame<'a> {
    type V = Seq<u8>;

    closed spec fn view(&self) -> Seq<u8> {
        self.data@
    }
}

/// Bytes of a UDP header.
pub const UDP_HEADER_LEN: usize = 8;

impl<'a> UdpFrame<'a> {
    /// Port of the sender.
    pub fn source_port(&self) -> (r: u16)
        requires
            self@.len() >= UDP_HEADER_LEN,
        ensures
            r == be16(self@[0], self@[1]),
    {
        read_be16(self.data, 0)
    }

    /// Port of the receiver.
    pub fn dest_port(&self) -> (r: u16)
        requires
            self@.len() >= UDP_HEADER_LEN,
        ensures
            r == be16(self@[2], self@[3]),
    {
        read_be16(self.data, 2)
    }

    /// What follows the header.
    pub fn data(&self) -> (r: &'a [u8])
        requires
            self@.len() >= UDP_HEADER_LEN,
        ensures
            r@ == self@.subrange(UDP_HEADER_LEN as int, self@.len() as int),
    {
        tail(self.data, UDP_HEADER_LEN)
    }
}

/// What a received Ethernet frame carries.
pub enum ParsedPacket<'a> {
    Arp(ArpFrame<'a>),
    Ipv4(Ipv4Frame<'a>),
    /// Another EtherType, by its code.
    Unknown(u16),
}

/// A received Ethernet frame and what it carries.
pub struct Packet<'a> {
    pub ethernet: EthernetFrame<'a>,
    pub inner: ParsedPacket<'a>,
}

/// Why a received frame cannot be read.
pub enum PacketParseError {
    /// Shorter than an Ethernet header; the length.
    FrameTooShort(usize),
    /// An ARP frame shorter than 28 bytes; its length.
    ArpTooShort(usize),
}

/// The EtherType code of the frame `b`.
pub open spec fn frame_type(b: Seq<u8>) -> nat {
    be16(b[12], b[13])
}

/// What the frame `b` carries.
pub open spec fn frame_payload(b: Seq<u8>) -> Seq<u8> {
    b.subrange(ETHERNET_HEADER_LEN as int, b.len() as int)
}

/// Reads the Ethernet frame `data` and what it carries, by its EtherType: ARP
/// frames must hold 28 bytes; IPv4 packets are read by [`parse_ipv4`].
pub fn parse_packet<'a>(data: &'a [u8]) -> (r: Result<Packet<'a>, PacketParseError>)
    ensures
        data@.len() < ETHERNET_HEADER_LEN ==> (r matches Err(PacketParseError::FrameTooShort(l))
            && l == data@.len()),
        data@.len() >= ETHERNET_HEADER_LEN && frame_type(data@) == 0x0806 && frame_payload(
            data@,
        ).len() < ARP_FRAME_LEN ==> (r matches Err(PacketParseError::ArpTooShort(l)) && l
            == frame_payload(data@).len()),
        r is Ok <==> data@.len() >= ETHERNET_HEADER_LEN && !(frame_type(data@) == 0x0806
            && frame_payload(data@).len() < ARP_FRAME_LEN),
        r matches Ok(p) ==> {
            &&& p.ethernet@ == data@
            &&& frame_type(data@) == 0x0806 ==> (p.inner matches ParsedPacket::Arp(a) && a@
                == frame_payload(data@))
            &&& frame_type(data@) == 0x0800 ==> (p.inner matches ParsedPacket::Ipv4(f) && f@
                == frame_payload(data@))
            &&& frame_type(data@) != 0x0806 && frame_type(data@) != 0x0800 ==> p.inner
                == ParsedPacket::Unknown(frame_type(data@) as u16)
        },
{
    if data.len() < ETHERNET_HEADER_LEN {
        return Err(PacketParseError::FrameTooShort(data.len()));
    }
    let ethernet = EthernetFrame { data };
    let payload = ethernet.payload();
    let ether_type = ethernet.ether_type();
    let inner = if ether_type == 0x0806 {
        if payload.len() < ARP_FRAME_LEN {
            return Err(PacketParseError::ArpTooShort(payload.len()));
        }
        ParsedPacket::Arp(ArpFrame { data: payload })
    } else if ether_type == 0x0800 {
        ParsedPacket::Ipv4(Ipv4Frame { data: payload })
    } else {
        ParsedPacket::Unknown(ether_type)
    };
    Ok(Packet { ethernet, inner })
}

/// What a received IPv4 packet carries.
pub enum ParsedIpv4Frame<'a> {
    Tcp(TcpFrame<'a>),
    Udp(UdpFrame<'a>),
    /// Another protocol, by its number.
    Unknown(u8),
}

/// Why a received IPv4 packet cannot be read.
pub enum Ipv4ParseError {
    /// Shorter than an IPv4 header; the length.
    TooShort(usize),
    /// The version field is not 4; the version.
    NotVersion4(u8),
    /// The header length is under 20 bytes or past the total length; the IHL field.
    BadHeaderLength(u8),
    /// The total length is past the bytes received; the total length.
    BadTotalLength(u16),
    /// A UDP datagram shorter than its header; its length.
    UdpTooShort(usize),
}

/// IP protocol number of UDP.
pub const IPV4_PROTOCOL_UDP: u8 = 17;

/// Reads what the IPv4 packet `frame` carries, by its protocol number: TCP segments
/// and UDP datagrams (which must hold their 8 byte header).
pub fn parse_ipv4<'a>(frame: &Ipv4Frame<'a>) -> (r: Result<ParsedIpv4Frame<'a>, Ipv4ParseError>)
    ensures
        frame@.len() < IPV4_HEADER_LEN ==> (r matches Err(Ipv4ParseError::TooShort(l)) && l
            == frame@.len()),
        frame@.len() >= IPV4_HEADER_LEN && frame@[0] / 16 != 4 ==> (r matches Err(
            Ipv4ParseError::NotVersion4(v),
        ) && v == frame@[0] / 16),
        frame@.len() >= IPV4_HEADER_LEN && frame@[0] / 16 == 4 && !(IPV4_HEADER_LEN
            <= ipv4_header_len(frame@) <= ipv4_total_len(frame@)) ==> (r matches Err(
            Ipv4ParseError::BadHeaderLength(h),
        ) && h == frame@[0] % 16),
        frame@.len() >= IPV4_HEADER_LEN && frame@[0] / 16 == 4 && IPV4_HEADER_LEN
            <= ipv4_header_len(frame@) <= ipv4_total_len(frame@) && ipv4_total_len(frame@)
            > frame@.len() ==> (r matches Err(Ipv4ParseError::BadTotalLength(t)) && t
            == ipv4_total_len(frame@)),
        ipv4_valid(frame@) && frame@[9] == IPV4_PROTOCOL_UDP && ipv4_payload(frame@).len()
            < UDP_HEADER_LEN ==> (r matches Err(Ipv4ParseError::UdpTooShort(l)) && l
            == ipv4_payload(frame@).len()),
        r is Ok <==> ipv4_valid(frame@) && !(frame@[9] == IPV4_PROTOCOL_UDP && ipv4_payload(
            frame@,
        ).len() < UDP_HEADER_LEN),
        r matches Ok(p) ==> {
            &&& frame@[9] == crate::net::IPV4_PROTOCOL_TCP ==> (p matches ParsedIpv4Frame::Tcp(t)
                && t@ == ipv4_payload(frame@))
            &&& frame@[9] == IPV4_PROTOCOL_UDP ==> (p matches ParsedIpv4Frame::Udp(u) && u@
                == ipv4_payload(frame@))
            &&& frame@[9] != crate::net::IPV4_PROTOCOL_TCP && frame@[9] != IPV4_PROTOCOL_UDP
                ==> p == ParsedIpv4Frame::Unknown(frame@[9])
        },
{
    let b = frame.data;
    if b.len() < IPV4_HEADER_LEN {
        return Err(Ipv4ParseError::TooShort(b.len()));
    }
    let version = b[0] / 16;
    if version != 4 {
        return Err(Ipv4ParseError::NotVersion4(version));
    }
    let ihl = b[0] % 16;
    let header_len = (ihl as usize) * 4;
    let total_len = read_be16(b, 2);
    if header_len < IPV4_HEADER_LEN || header_len > total_len as usize {
        return Err(Ipv4ParseError::BadHeaderLength(ihl));
    }
    if total_len as usize > b.len() {
        return Err(Ipv4ParseError::BadTotalLength(total_len));
    }
    let payload = middle(b, header_len, total_len as usize);
    let protocol = b[9];
    if protocol == crate::net::IPV4_PROTOCOL_TCP {
        Ok(ParsedIpv4Frame::Tcp(TcpFrame::new(payload)))
    } else if protocol == IPV4_PROTOCOL_UDP {
        if payload.len() < UDP_HEADER_LEN {
            return Err(Ipv4ParseError::UdpTooShort(payload.len()));
        }
        Ok(ParsedIpv4Frame::Udp(UdpFrame { data: payload }))
    } else {
        Ok(ParsedIpv4Frame::Unknown(protocol))
    }
}

/// The protocols the kernel sends over IPv4.
#[derive(Clone, Copy, PartialEq, Eq, Structural)]
pub enum Ipv4Protocol {
    Tcp,
    Udp,
}

/// The protocol number of `p`.
pub open spec fn ipv4_protocol_code(p: Ipv4Protocol) -> u8 {
    match p {
        Ipv4Protocol::Tcp => 6,
        Ipv4Protocol::Udp => 17,
    }
}

impl Ipv4Protocol {
    /// The protocol number sent on the wire.
    pub fn code(&self) -> (r: u8)
        ensures
            r == ipv4_protocol_code(*self),
    {
        match self {
            Ipv4Protocol::Tcp => 6,
            Ipv4Protocol::Udp => 17,
        }
    }
}

/// An IPv4 header without options: version 4, IHL 5, no type of service, length
/// `total_len`, identification 0, don't fragment, time to live 64, protocol
/// `protocol`, header checksum `checksum`, then the two addresses.
pub open spec fn ipv4_header_bytes(
    total_len: u16,
    protocol: u8,
    checksum: u16,
    source: IpAddr,
    dest: IpAddr,
) -> Seq<u8> {
    seq![0x45u8, 0] + be16_bytes(total_len) + seq![0u8, 0, 0x40, 0, 64, protocol] + be16_bytes(
        checksum,
    ) + source@ + dest@
}

/// The IPv4 packet from `source` to `dest` carrying `payload` of protocol `protocol`:
/// its header, whose checksum field holds the internet checksum of the header with a
/// zero checksum, then the payload.
pub open spec fn ipv4_frame_bytes(
    payload: Seq<u8>,
    protocol: Ipv4Protocol,
    source: IpAddr,
    dest: IpAddr,
) -> Seq<u8> {
    let total = (IPV4_HEADER_LEN + payload.len()) as u16;
    let code = ipv4_protocol_code(protocol);
    ipv4_header_bytes(
        total,
        code,
        internet_checksum(ipv4_header_bytes(total, code, 0, source, dest)),
        source,
        dest,
    ) + payload
}

fn ipv4_header(total_len: u16, protocol: u8, checksum: u16, source: &IpAddr, dest: &IpAddr) -> (r:
    Vec<u8>)
    ensures
        r@ == ipv4_header_bytes(total_len, protocol, checksum, *source, *dest),
{
    let mut h: Vec<u8> = Vec::new();
    h.push(0x45);
    h.push(0);
    push_be16(&mut h, total_len);
    push_bytes(&mut h, &[0u8, 0, 0x40, 0, 64]);
    h.push(protocol);
    push_be16(&mut h, checksum);
    push_bytes(&mut h, source);
    push_bytes(&mut h, dest);
    proof {
        assert([0u8, 0, 0x40, 0, 64]@ =~= seq![0u8, 0, 0x40, 0, 64]);
        assert(h@ =~= ipv4_header_bytes(total_len, protocol, checksum, *source, *dest));
    }
    h
}

/// Wraps `payload` of protocol `protocol` in an IPv4 packet from `source_ip` to
/// `dest_ip`.
pub fn generate_ipv4_frame(
    payload: &[u8],
    protocol: Ipv4Protocol,
    source_ip: &IpAddr,
    dest_ip: &IpAddr,
) -> (r: Vec<u8>)
    requires
        payload@.len() + IPV4_HEADER_LEN <= 0xffff,
    ensures
        r@ == ipv4_frame_bytes(payload@, protocol, *source_ip, *dest_ip),
{
    let total = (IPV4_HEADER_LEN + payload.len()) as u16;
    let code = protocol.code();
    let unchecked = ipv4_header(total, code, 0, source_ip, dest_ip);
    let checksum = calculate_ipv4_checksum(unchecked.as_slice());
    let mut ret = ipv4_header(total, code, checksum, source_ip, dest_ip);
    push_bytes(&mut ret, payload);
    ret
}

/// A UDP datagram from and to port `port` carrying `data`, with no checksum.
pub open spec fn udp_frame_bytes(port: u16, data: Seq<u8>) -> Seq<u8> {
    be16_bytes(port) + be16_bytes(port) + be16_bytes((UDP_HEADER_LEN + data.len()) as u16)
        + be16_bytes(0) + data
}

/// Builds a UDP datagram from and to port `port` carrying `data`; the checksum, which
/// is optional over IPv4, is left zero.
pub fn generate_udp_frame(port: u16, data: &[u8]) -> (r: Vec<u8>)
    requires
        data@.len() + UDP_HEADER_LEN <= 0xffff,
    ensures
        r@ == udp_frame_bytes(port, data@),
{
    let mut ret: Vec<u8> = Vec::new();
    push_be16(&mut ret, port);
    push_be16(&mut ret, port);
    push_be16(&mut ret, (UDP_HEADER_LEN + data.len()) as u16);
    push_be16(&mut ret, 0);
    push_bytes(&mut ret, data);
    ret
}

/// A generated Ethernet frame reads back: its header gives the addresses and the
/// type it was made with, and what follows the header starts with the payload (the
/// rest is padding).
pub proof fn law_ethernet_frame_reads_back(
    dest: MacAddr,
    src: MacAddr,
    t: EtherType,
    payload: Seq<u8>,
)
    ensures
        ({
            let b = ethernet_frame_bytes(dest, src, t, payload);
            &&& b.len() >= MIN_ETHERNET_FRAME_LEN
            &&& mac_at(b, 0) == dest@
            &&& mac_at(b, 6) == src@
            &&& frame_type(b) == ether_type_code(t)
            &&& frame_payload(b).len() >= payload.len()
            &&& frame_payload(b).take(payload.len() as int) == payload
        }),
{
    let u = dest@ + src@ + be16_bytes(ether_type_code(t)) + payload;
    let b = ethernet_frame_bytes(dest, src, t, payload);
    assert(b.take(u.len() as int) =~= u);
    assert(mac_at(b, 0) =~= dest@);
    assert(mac_at(b, 6) =~= src@);
    let c = ether_type_code(t);
    assert(be16((c / 256) as u8, (c % 256) as u8) == c);
    assert(frame_payload(b).take(payload.len() as int) =~= payload);
}

/// A generated ARP frame reads back: the operation and the four addresses it was
/// made with.
pub proof fn law_arp_frame_reads_back(p: ArpFrameParams)
    ensures
        ({
            let b = arp_frame_bytes(p);
            &&& b.len() == ARP_FRAME_LEN
            &&& arp_operation_of(be16(b[6], b[7]) as u16) == Ok::<ArpOperation, UnknownArpOperation>(p.operation)
            &&& mac_at(b, 8) == p.sender_hardware_address@
            &&& ip_at(b, 14) == p.sender_protocol_address@
            &&& mac_at(b, 18) == p.target_hardware_address@
            &&& ip_at(b, 24) == p.target_protocol_address@
        }),
{
    let b = arp_frame_bytes(p);
    assert(mac_at(b, 8) =~= p.sender_hardware_address@);
    assert(ip_at(b, 14) =~= p.sender_protocol_address@);
    assert(mac_at(b, 18) =~= p.target_hardware_address@);
    assert(ip_at(b, 24) =~= p.target_protocol_address@);
}

/// A generated IPv4 packet reads back: it is valid, its header checksum verifies,
/// and it gives the protocol, the addresses and the payload it was made with.
pub proof fn law_ipv4_frame_reads_back(
    payload: Seq<u8>,
    protocol: Ipv4Protocol,
    source: IpAddr,
    dest: IpAddr,
)
    requires
        payload.len() + IPV4_HEADER_LEN <= 0xffff,
    ensures
        ({
            let b = ipv4_frame_bytes(payload, protocol, source, dest);
            &&& ipv4_valid(b)
            &&& b[9] == ipv4_protocol_code(protocol)
            &&& ip_at(b, 12) == source@
            &&& ip_at(b, 16) == dest@
            &&& ipv4_payload(b) == payload
            &&& internet_checksum(b.take(IPV4_HEADER_LEN as int)) == 0
        }),
{
    let b = ipv4_frame_bytes(payload, protocol, source, dest);
    let total = (IPV4_HEADER_LEN + payload.len()) as u16;
    let code = ipv4_protocol_code(protocol);
    let h0 = ipv4_header_bytes(total, code, 0, source, dest);
    let c = internet_checksum(h0);
    law_checksum_field_verifies(h0, 10);
    assert(b.take(IPV4_HEADER_LEN as int) =~= h0.update(10, (c / 256) as u8).update(
        11,
        (c % 256) as u8,
    ));
    assert(be16((total / 256) as u8, (total % 256) as u8) == total);
    assert(ip_at(b, 12) =~= source@);
    assert(ip_at(b, 16) =~= dest@);
    assert(ipv4_payload(b) =~= payload);
}

} // verus!
