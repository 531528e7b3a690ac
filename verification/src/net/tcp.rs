//! TCP segments and the per connection state machine.
use vstd::prelude::*;
use std::collections::VecDeque;

use crate::net::{
    be16, be16_bytes, be32_bytes, calculate_ipv4_checksum, internet_checksum,
    law_checksum_field_verifies, push_be16, push_be32, push_bytes, to_be_bytes16, IpAddr,
    IPV4_PROTOCOL_TCP,
};
use crate::rng::Rng;
use crate::util::bit_manipulation::{bit_set, field, lemma_bit_u8, GetBits, SetBits};

verus! {

/// The flag byte of a TCP header.
pub struct TcpFlags(pub u8);

impl TcpFlags {
    /// Congestion window reduced (bit 7).
    pub fn cwr(&self) -> (r: bool)
        ensures
            r == bit_set(self.0 as nat, 7),
    {
        self.0.get_bit(7)
    }

    /// ECN echo (bit 6).
    pub fn ece(&self) -> (r: bool)
        ensures
            r == bit_set(self.0 as nat, 6),
    {
        self.0.get_bit(6)
    }

    /// Urgent pointer significant (bit 5).
    pub fn urg(&self) -> (r: bool)
        ensures
            r == bit_set(self.0 as nat, 5),
    {
        self.0.get_bit(5)
    }

    /// Acknowledgement number significant (bit 4).
    pub fn ack(&self) -> (r: bool)
        ensures
            r == bit_set(self.0 as nat, 4),
    {
        self.0.get_bit(4)
    }

    /// Push (bit 3).
    pub fn psh(&self) -> (r: bool)
        ensures
            r == bit_set(self.0 as nat, 3),
    {
        self.0.get_bit(3)
    }

    /// Reset (bit 2).
    pub fn rst(&self) -> (r: bool)
        ensures
            r == bit_set(self.0 as nat, 2),
    {
        self.0.get_bit(2)
    }

    /// Synchronize sequence numbers (bit 1).
    pub fn syn(&self) -> (r: bool)
        ensures
            r == bit_set(self.0 as nat, 1),
    {
        self.0.get_bit(1)
    }

    /// No more data from sender (bit 0).
    pub fn fin(&self) -> (r: bool)
        ensures
            r == bit_set(self.0 as nat, 0),
    {
        self.0.get_bit(0)
    }
}

/// The flags to put in a TCP header.
pub struct TcpFlagsParams {
    pub cwr: bool,
    pub ece: bool,
    pub urg: bool,
    pub ack: bool,
    pub psh: bool,
    pub rst: bool,
    pub syn: bool,
    pub fin: bool,
}

/// Whether `byte` carries exactly the flags of `params`.
pub open spec fn flags_match(byte: u8, params: TcpFlagsParams) -> bool {
    &&& bit_set(byte as nat, 7) == params.cwr
    &&& bit_set(byte as nat, 6) == params.ece
    &&& bit_set(byte as nat, 5) == params.urg
    &&& bit_set(byte as nat, 4) == params.ack
    &&& bit_set(byte as nat, 3) == params.psh
    &&& bit_set(byte as nat, 2) == params.rst
    &&& bit_set(byte as nat, 1) == params.syn
    &&& bit_set(byte as nat, 0) == params.fin
}

/// The flag of `params` that bit `i` of the flag byte carries.
pub open spec fn flag_of(params: TcpFlagsParams, i: nat) -> bool {
    if i == 7 {
        params.cwr
    } else if i == 6 {
        params.ece
    } else if i == 5 {
        params.urg
    } else if i == 4 {
        params.ack
    } else if i == 3 {
        params.psh
    } else if i == 2 {
        params.rst
    } else if i == 1 {
        params.syn
    } else {
        params.fin
    }
}

/// Whether bits `k` to 7 of `byte` carry the flags of `params`.
pub open spec fn flags_from(byte: u8, params: TcpFlagsParams, k: nat) -> bool {
    forall|i: nat| k <= i < 8 ==> #[trigger] bit_set(byte as nat, i) == flag_of(params, i)
}

/// The flag byte with exactly the flags of `params` set.
pub open spec fn flags_byte(params: TcpFlagsParams) -> u8 {
    ((if params.cwr { 0x80nat } else { 0 }) + (if params.ece { 0x40nat } else { 0 }) + (
    if params.urg { 0x20nat } else { 0 }) + (if params.ack { 0x10nat } else { 0 }) + (
    if params.psh { 0x08nat } else { 0 }) + (if params.rst { 0x04nat } else { 0 }) + (
    if params.syn { 0x02nat } else { 0 }) + (if params.fin { 0x01nat } else { 0 })) as u8
}

proof fn lemma_flags_byte(byte: u8, params: TcpFlagsParams)
    requires
        flags_match(byte, params),
    ensures
        byte == flags_byte(params),
{
    lemma_bit_u8(byte, 7);
    lemma_bit_u8(byte, 6);
    lemma_bit_u8(byte, 5);
    lemma_bit_u8(byte, 4);
    lemma_bit_u8(byte, 3);
    lemma_bit_u8(byte, 2);
    lemma_bit_u8(byte, 1);
    lemma_bit_u8(byte, 0);
    let (a, b, c, d, e, f, g, h) = (
        params.cwr,
        params.ece,
        params.urg,
        params.ack,
        params.psh,
        params.rst,
        params.syn,
        params.fin,
    );
    assert(byte == ((if a { 0x80u8 } else { 0u8 }) + (if b { 0x40u8 } else { 0u8 }) + (if c {
        0x20u8
    } else {
        0u8
    }) + (if d { 0x10u8 } else { 0u8 }) + (if e { 0x08u8 } else { 0u8 }) + (if f {
        0x04u8
    } else {
        0u8
    }) + (if g { 0x02u8 } else { 0u8 }) + (if h { 0x01u8 } else { 0u8 }))) by (bit_vector)
        requires
            ((byte >> 7u8) & 1u8 == 1u8) == a,
            ((byte >> 6u8) & 1u8 == 1u8) == b,
            ((byte >> 5u8) & 1u8 == 1u8) == c,
            ((byte >> 4u8) & 1u8 == 1u8) == d,
            ((byte >> 3u8) & 1u8 == 1u8) == e,
            ((byte >> 2u8) & 1u8 == 1u8) == f,
            ((byte >> 1u8) & 1u8 == 1u8) == g,
            ((byte >> 0u8) & 1u8 == 1u8) == h,
    ;
}

/// Builds the flag byte with exactly the flags of `params` set.
pub fn generate_tcp_flags(params: &TcpFlagsParams) -> (r: TcpFlags)
    ensures
        flags_match(r.0, *params),
        r.0 == flags_byte(*params),
{
    let mut ret = 0u8;
    ret.set_bit(7, params.cwr);
    assert(flags_from(ret, *params, 7));
    ret.set_bit(6, params.ece);
    assert(flags_from(ret, *params, 6));
    ret.set_bit(5, params.urg);
    assert(flags_from(ret, *params, 5));
    ret.set_bit(4, params.ack);
    assert(flags_from(ret, *params, 4));
    ret.set_bit(3, params.psh);
    assert(flags_from(ret, *params, 3));
    ret.set_bit(2, params.rst);
    assert(flags_from(ret, *params, 2));
    ret.set_bit(1, params.syn);
    assert(flags_from(ret, *params, 1));
    ret.set_bit(0, params.fin);
    assert(flags_from(ret, *params, 0));

    proof {
        lemma_flags_byte(ret, *params);
    }
    TcpFlags(ret)
}

/// Big endian value of four bytes.
pub open spec fn be32(a: u8, b: u8, c: u8, d: u8) -> nat {
    a as nat * 0x1000000 + b as nat * 0x10000 + c as nat * 0x100 + d as nat
}

/// Size in bytes of the header, from the data offset nibble of byte 12.
pub open spec fn data_offset_of(bytes: Seq<u8>) -> nat {
    (bytes[12] / 16) as nat * 4
}

/// Whether `bytes` holds the fields up to the window size and a non zero data offset
/// that lies within the segment; all that the state machine reads of a segment whose
/// data it takes.
pub open spec fn well_formed_segment(bytes: Seq<u8>) -> bool {
    &&& bytes.len() >= 16
    &&& bytes[12] / 16 != 0
    &&& data_offset_of(bytes) <= bytes.len()
}

/// A received TCP segment, read in place.
pub struct TcpFrame<'a> {
    data: &'a [u8],
}

impl<'a> View for TcpFrame<'a> {
    type V = Seq<u8>;

    closed spec fn view(&self) -> Seq<u8> {
        self.data@
    }
}

impl<'a> TcpFrame<'a> {
    /// Reads a segment in place.
    pub fn new(data: &'a [u8]) -> (r: TcpFrame<'a>)
        ensures
            r@ == data@,
    {
        TcpFrame { data }
    }

    fn read_be16(&self, i: usize) -> (r: u16)
        requires
            i + 2 <= self@.len(),
        ensures
            r == be16(self@[i as int], self@[i + 1]),
    {
        (self.data[i] as u16) * 256 + self.data[i + 1] as u16
    }

    fn read_be32(&self, i: usize) -> (r: u32)
        requires
            i + 4 <= self@.len(),
        ensures
            r == be32(self@[i as int], self@[i + 1], self@[i + 2], self@[i + 3]),
    {
        (self.data[i] as u32) * 0x1000000 + (self.data[i + 1] as u32) * 0x10000 + (self.data[i
            + 2] as u32) * 0x100 + self.data[i + 3] as u32
    }

    /// Port of the sender.
    pub fn source_port(&self) -> (r: u16)
        requires
            self@.len() >= 2,
        ensures
            r == be16(self@[0], self@[1]),
    {
        self.read_be16(0)
    }

    /// Port of the receiver.
    pub fn dest_port(&self) -> (r: u16)
        requires
            self@.len() >= 4,
        ensures
            r == be16(self@[2], self@[3]),
    {
        self.read_be16(2)
    }

    /// Sequence number.
    pub fn seq_num(&self) -> (r: u32)
        requires
            self@.len() >= 8,
        ensures
            r == be32(self@[4], self@[5], self@[6], self@[7]),
    {
        self.read_be32(4)
    }

    /// Acknowledgement number.
    pub fn ack_num(&self) -> (r: u32)
        requires
            self@.len() >= 12,
        ensures
            r == be32(self@[8], self@[9], self@[10], self@[11]),
    {
        self.read_be32(8)
    }

    /// Size of the header in bytes, from the data offset field; a zero data offset is a
    /// malformed segment.
    pub fn data_offset_bytes(&self) -> (r: usize)
        requires
            self@.len() >= 13,
            self@[12] / 16 != 0,
        ensures
            r == data_offset_of(self@),
    {
        let data_offset_words = self.data[12].get_bits(4, 4);
        proof {
            vstd::arithmetic::power2::lemma2_to64();
        }
        (data_offset_words as usize) * 4
    }

    /// The flag byte.
    pub fn flags(&self) -> (r: TcpFlags)
        requires
            self@.len() >= 14,
        ensures
            r.0 == self@[13],
    {
        TcpFlags(self.data[13])
    }

    /// Window size.
    pub fn window_size(&self) -> (r: u16)
        requires
            self@.len() >= 16,
        ensures
            r == be16(self@[14], self@[15]),
    {
        self.read_be16(14)
    }

    /// Checksum field as received.
    pub fn checksum(&self) -> (r: u16)
        requires
            self@.len() >= 18,
        ensures
            r == be16(self@[16], self@[17]),
    {
        self.read_be16(16)
    }

    /// Urgent pointer.
    pub fn urgent_ptr(&self) -> (r: u16)
        requires
            self@.len() >= 20,
        ensures
            r == be16(self@[18], self@[19]),
    {
        self.read_be16(18)
    }

    /// Whether the segment holds the fields up to the window size and a non zero data
    /// offset that lies within it; such a segment can be handed to [`TcpState::handle_frame`]
    /// in any state.
    pub fn is_well_formed(&self) -> (r: bool)
        ensures
            r == well_formed_segment(self@),
    {
        self.data.len() >= 16 && self.data[12] / 16 != 0 && (self.data[12] / 16) as usize * 4
            <= self.data.len()
    }

    /// Number of bytes of the segment.
    pub fn len(&self) -> (r: usize)
        ensures
            r == self@.len(),
    {
        self.data.len()
    }

    /// The data after the header.
    pub fn payload(&self) -> (r: &'a [u8])
        requires
            self@.len() >= 13,
            self@[12] / 16 != 0,
            data_offset_of(self@) <= self@.len(),
        ensures
            r@ == self@.skip(data_offset_of(self@) as int),
    {
        let offset = self.data_offset_bytes();
        let r = &self.data[offset..self.data.len()];
        assert(r@ =~= self@.skip(data_offset_of(self@) as int));
        r
    }
}

/// Length of the header that generated segments carry.
pub const TCP_HEADER_LEN: usize = 20;

/// Everything needed to build an outgoing TCP segment.
pub struct TcpFrameParams {
    pub source_address: IpAddr,
    pub dest_address: IpAddr,
    pub source_port: u16,
    pub dest_port: u16,
    pub seq_num: u32,
    pub ack_num: u32,
    pub flags: TcpFlags,
    pub window_size: u16,
    pub urgent_ptr: u16,
    pub payload: Vec<u8>,
}

/// The fields of a segment to build, as values.
pub struct SegmentFields {
    pub source_address: Seq<u8>,
    pub dest_address: Seq<u8>,
    pub source_port: u16,
    pub dest_port: u16,
    pub seq_num: u32,
    pub ack_num: u32,
    pub flags: u8,
    pub window_size: u16,
    pub urgent_ptr: u16,
    pub payload: Seq<u8>,
}

impl View for TcpFrameParams {
    type V = SegmentFields;

    open spec fn view(&self) -> SegmentFields {
        SegmentFields {
            source_address: self.source_address@,
            dest_address: self.dest_address@,
            source_port: self.source_port,
            dest_port: self.dest_port,
            seq_num: self.seq_num,
            ack_num: self.ack_num,
            flags: self.flags.0,
            window_size: self.window_size,
            urgent_ptr: self.urgent_ptr,
            payload: self.payload@,
        }
    }
}

/// The 20 byte header of a segment built from `p` with the given checksum field.
pub open spec fn tcp_header(p: SegmentFields, checksum: u16) -> Seq<u8> {
    be16_bytes(p.source_port) + be16_bytes(p.dest_port) + be32_bytes(p.seq_num) + be32_bytes(
        p.ack_num,
    ) + seq![0x50u8, p.flags] + be16_bytes(p.window_size) + be16_bytes(checksum) + be16_bytes(
        p.urgent_ptr,
    )
}

/// The segment built from `p` with the given checksum field.
pub open spec fn tcp_segment(p: SegmentFields, checksum: u16) -> Seq<u8> {
    tcp_header(p, checksum) + p.payload
}

/// The IPv4 pseudo header that the TCP checksum covers; the length field holds the
/// segment length cut to 16 bits.
pub open spec fn tcp_pseudo_header(p: SegmentFields) -> Seq<u8> {
    p.source_address + p.dest_address + seq![0u8, IPV4_PROTOCOL_TCP] + be16_bytes(
        (TCP_HEADER_LEN + p.payload.len()) as u16,
    )
}

/// The checksum of the segment built from `p`: the internet checksum of the pseudo
/// header followed by the segment with a zero checksum field.
pub open spec fn tcp_checksum(p: SegmentFields) -> u16 {
    internet_checksum(tcp_pseudo_header(p) + tcp_segment(p, 0))
}

/// The complete segment built from `p`.
pub open spec fn tcp_frame_bytes(p: SegmentFields) -> Seq<u8> {
    tcp_segment(p, tcp_checksum(p))
}

/// Builds a TCP segment with a 20 byte header and a correct checksum.
pub fn generate_tcp_frame(params: &TcpFrameParams) -> (r: Vec<u8>)
    ensures
        r@ == tcp_frame_bytes(params@),
{
    let mut ret: Vec<u8> = Vec::new();

    push_be16(&mut ret, params.source_port);
    push_be16(&mut ret, params.dest_port);
    push_be32(&mut ret, params.seq_num);
    push_be32(&mut ret, params.ack_num);
    ret.push(((TCP_HEADER_LEN / 4) * 16) as u8);
    ret.push(params.flags.0);
    push_be16(&mut ret, params.window_size);
    let checksum_idx = ret.len();
    push_be16(&mut ret, 0);
    push_be16(&mut ret, params.urgent_ptr);
    push_bytes(&mut ret, params.payload.as_slice());
    assert(ret@ =~= tcp_segment(params@, 0));

    let mut checksum_frame: Vec<u8> = Vec::new();
    push_bytes(&mut checksum_frame, params.source_address.as_slice());
    push_bytes(&mut checksum_frame, params.dest_address.as_slice());
    checksum_frame.push(0);
    checksum_frame.push(IPV4_PROTOCOL_TCP);
    push_be16(&mut checksum_frame, ret.len() as u16);
    push_bytes(&mut checksum_frame, ret.as_slice());
    assert(checksum_frame@ =~= tcp_pseudo_header(params@) + tcp_segment(params@, 0));

    let checksum = calculate_ipv4_checksum(checksum_frame.as_slice());
    let bytes = to_be_bytes16(checksum);
    ret.set(checksum_idx, bytes[0]);
    ret.set(checksum_idx + 1, bytes[1]);
    assert(ret@ =~= tcp_segment(params@, checksum));
    ret
}

/// A copy of `v`.
pub fn copy_bytes(v: &Vec<u8>) -> (r: Vec<u8>)
    ensures
        r@ == v@,
{
    let mut r: Vec<u8> = Vec::new();
    push_bytes(&mut r, v.as_slice());
    assert(r@ =~= v@);
    r
}

/// A segment ready to be wrapped in an IPv4 packet.
pub struct OutgoingTcpPacket {
    pub local_ip: IpAddr,
    pub remote_ip: IpAddr,
    pub payload: Vec<u8>,
}

/// The addresses and ports of both ends of a connection.
#[derive(Clone, Copy, PartialEq, Eq, Hash)]
pub struct TcpKey {
    pub remote_ip: IpAddr,
    pub local_ip: IpAddr,
    pub remote_port: u16,
    pub local_port: u16,
}

/// A sent segment that the peer has not acknowledged yet.
pub struct UnackedPacket {
    pub timestamp: usize,
    pub params: TcpFrameParams,
}

/// Bookkeeping of an established connection.
pub struct ConnectedState {
    /// Sequence number of the next byte we send.
    pub seq_num: u32,
    /// Acknowledgement number we send: the next byte we expect from the peer.
    pub outgoing_ack_num: u32,
    /// The last acknowledgement number the peer sent.
    pub incoming_ack_num: u32,
    pub window_size: u16,
    /// How many times in a row the peer repeated the same acknowledgement.
    pub dup_ack_counter: u8,
    pub unacknowledged: VecDeque<UnackedPacket>,
    pub to_send: VecDeque<Vec<u8>>,
}

/// State of one connection, keyed by its [`TcpKey`].
pub enum TcpState {
    Uninit,
    SynAckSent { seq_num: u32, ack_num: u32, timeout: usize, sent_frame: OutgoingTcpPacket },
    Connected(ConnectedState),
}

/// What the caller must do after a segment was handled.
pub struct FrameOutcome {
    /// Segment to send back to the peer.
    pub response: Option<Vec<u8>>,
    /// Tick at which the connection wants to be looked at again.
    pub wakeup_at: Option<usize>,
    /// The handshake completed: hand a new connection to the listener.
    pub new_connection: bool,
    /// Data the peer pushed, for the connection's reader.
    pub received: Option<Vec<u8>>,
    /// The outgoing side should be polled again.
    pub wake_service: bool,
}

/// Flag byte of a SYN-ACK.
pub const SYN_ACK_FLAGS: u8 = 0x12;

/// Flag byte of a plain ACK.
pub const ACK_FLAGS: u8 = 0x10;

/// Window size advertised on data segments.
pub const PUSH_WINDOW_SIZE: u16 = 512;

/// Source port of a segment.
pub open spec fn seg_source_port(b: Seq<u8>) -> u16 {
    be16(b[0], b[1]) as u16
}

/// Destination port of a segment.
pub open spec fn seg_dest_port(b: Seq<u8>) -> u16 {
    be16(b[2], b[3]) as u16
}

/// Sequence number of a segment.
pub open spec fn seg_seq_num(b: Seq<u8>) -> u32 {
    be32(b[4], b[5], b[6], b[7]) as u32
}

/// Acknowledgement number of a segment.
pub open spec fn seg_ack_num(b: Seq<u8>) -> u32 {
    be32(b[8], b[9], b[10], b[11]) as u32
}

/// Window size of a segment.
pub open spec fn seg_window(b: Seq<u8>) -> u16 {
    be16(b[14], b[15]) as u16
}

/// Whether flag bit `bit` of a segment is set.
pub open spec fn seg_flag(b: Seq<u8>, bit: nat) -> bool {
    bit_set(b[13] as nat, bit)
}

/// Data of a segment.
pub open spec fn seg_payload(b: Seq<u8>) -> Seq<u8> {
    b.skip(data_offset_of(b) as int)
}

/// The empty-payload reply to segment `b`, sent from `dest_ip` back to `source_ip`.
pub open spec fn reply_fields(
    b: Seq<u8>,
    source_ip: IpAddr,
    dest_ip: IpAddr,
    seq: u32,
    ack: u32,
    flags: u8,
) -> SegmentFields {
    SegmentFields {
        source_address: dest_ip@,
        dest_address: source_ip@,
        source_port: seg_dest_port(b),
        dest_port: seg_source_port(b),
        seq_num: seq,
        ack_num: ack,
        flags,
        window_size: seg_window(b),
        urgent_ptr: 0,
        payload: Seq::empty(),
    }
}

/// Whether handling segment `b` in `state` reads only bytes that are there.
pub open spec fn frame_readable(state: TcpState, b: Seq<u8>, listener_exists: bool) -> bool {
    &&& b.len() >= 14
    &&& match state {
        TcpState::Uninit => seg_flag(b, 1) ==> b.len() >= 16,
        TcpState::SynAckSent { ack_num, .. } => if seg_flag(b, 1) {
            b.len() >= 16
        } else {
            (!seg_flag(b, 3) && seg_flag(b, 4) && seg_seq_num(b) == ack_num && listener_exists)
                ==> well_formed_segment(b)
        },
        TcpState::Connected(c) => seg_seq_num(b) == c.outgoing_ack_num ==> well_formed_segment(b),
    }
}

/// Whether handling segment `b` in `state` answers a SYN, which draws the sequence
/// number of the SYN-ACK: a SYN before the connection is established.
pub open spec fn answers_syn(state: TcpState, b: Seq<u8>) -> bool {
    &&& seg_flag(b, 1)
    &&& !(state is Connected)
}

/// Nothing to send and nothing to tell anybody.
pub open spec fn quiet(r: FrameOutcome) -> bool {
    &&& r.response is None
    &&& r.wakeup_at is None
    &&& !r.new_connection
    &&& r.received is None
    &&& !r.wake_service
}

/// A SYN in `b` answered: the new state waits for the ACK of a SYN-ACK that was
/// sent with a fresh sequence number and asks to be woken at `timeout`.
pub open spec fn handshake_started(
    new: TcpState,
    r: FrameOutcome,
    b: Seq<u8>,
    source_ip: IpAddr,
    dest_ip: IpAddr,
    timeout: usize,
) -> bool {
    &&& new matches TcpState::SynAckSent { seq_num, ack_num, timeout: t, sent_frame }
    &&& ack_num == seg_seq_num(b).wrapping_add(1)
    &&& t == timeout
    &&& sent_frame.local_ip == dest_ip
    &&& sent_frame.remote_ip == source_ip
    &&& sent_frame.payload@ == tcp_frame_bytes(
        reply_fields(b, source_ip, dest_ip, seq_num, ack_num, SYN_ACK_FLAGS),
    )
    &&& r.response matches Some(v) && v@ == sent_frame.payload@
    &&& r.wakeup_at == Some(timeout)
    &&& !r.new_connection
    &&& r.received is None
    &&& r.wake_service
}

/// The relation between the state before and after handling segment `b`, and what
/// the caller is asked to do.
pub open spec fn frame_handled(
    old: TcpState,
    new: TcpState,
    r: FrameOutcome,
    b: Seq<u8>,
    source_ip: IpAddr,
    dest_ip: IpAddr,
    timeout: usize,
    listener_exists: bool,
) -> bool {
    match old {
        TcpState::Uninit => if seg_flag(b, 1) {
            handshake_started(new, r, b, source_ip, dest_ip, timeout)
        } else {
            new == old && quiet(r)
        },
        TcpState::SynAckSent { seq_num, ack_num, .. } => if seg_flag(b, 1) {
            handshake_started(new, r, b, source_ip, dest_ip, timeout)
        } else if seg_flag(b, 3) || !seg_flag(b, 4) || seg_seq_num(b) != ack_num
            || !listener_exists {
            new == old && quiet(r)
        } else {
            &&& new matches TcpState::Connected(c)
            &&& c.seq_num == seq_num.wrapping_add(1)
            &&& c.outgoing_ack_num == ack_num.wrapping_add(seg_payload(b).len() as u32)
            &&& c.incoming_ack_num == seg_ack_num(b)
            &&& c.window_size == seg_window(b)
            &&& c.dup_ack_counter == 0
            &&& c.unacknowledged@.len() == 0
            &&& c.to_send@.len() == 0
            &&& r.response is None
            &&& r.wakeup_at is None
            &&& r.new_connection
            &&& r.received is None
            &&& r.wake_service
        },
        TcpState::Connected(c) => if seg_seq_num(b) != c.outgoing_ack_num {
            new == old && quiet(r)
        } else {
            &&& new matches TcpState::Connected(n)
            &&& n.seq_num == c.seq_num
            &&& n.outgoing_ack_num == seg_seq_num(b).wrapping_add(seg_payload(b).len() as u32)
            &&& n.incoming_ack_num == seg_ack_num(b)
            &&& n.dup_ack_counter == if seg_ack_num(b) == c.incoming_ack_num {
                c.dup_ack_counter.saturating_add(1)
            } else {
                0
            }
            &&& n.window_size == seg_window(b)
            &&& n.to_send == c.to_send
            &&& n.unacknowledged@ == if c.unacknowledged@.len() > 0
                && c.unacknowledged@[0].params.seq_num < seg_ack_num(b) {
                c.unacknowledged@.drop_first()
            } else {
                c.unacknowledged@
            }
            &&& r.wakeup_at is None
            &&& !r.new_connection
            &&& if seg_flag(b, 3) {
                &&& r.response matches Some(v) && v@ == tcp_frame_bytes(
                    reply_fields(b, source_ip, dest_ip, c.seq_num, n.outgoing_ack_num, ACK_FLAGS),
                )
                &&& r.received matches Some(d) && d@ == seg_payload(b)
                &&& !r.wake_service
            } else {
                &&& r.response is None
                &&& r.received is None
                &&& r.wake_service
            }
        },
    }
}

/// An outcome that asks for nothing.
fn quiet_outcome() -> (r: FrameOutcome)
    ensures
        quiet(r),
{
    FrameOutcome {
        response: None,
        wakeup_at: None,
        new_connection: false,
        received: None,
        wake_service: false,
    }
}

/// Builds the empty-payload reply to `frame`.
fn generate_reply(
    frame: &TcpFrame,
    source_ip: IpAddr,
    dest_ip: IpAddr,
    seq_num: u32,
    ack_num: u32,
    flags: &TcpFlagsParams,
) -> (r: Vec<u8>)
    requires
        frame@.len() >= 16,
    ensures
        r@ == tcp_frame_bytes(
            reply_fields(frame@, source_ip, dest_ip, seq_num, ack_num, flags_byte(*flags)),
        ),
{
    let params = TcpFrameParams {
        source_address: dest_ip,
        dest_address: source_ip,
        ack_num,
        seq_num,
        dest_port: frame.source_port(),
        source_port: frame.dest_port(),
        window_size: frame.window_size(),
        flags: generate_tcp_flags(flags),
        urgent_ptr: 0,
        payload: Vec::new(),
    };
    assert(params@ == reply_fields(frame@, source_ip, dest_ip, seq_num, ack_num, flags_byte(*flags)));
    generate_tcp_frame(&params)
}

impl TcpState {
    /// Answers a SYN: picks a sequence number, sends a SYN-ACK and waits for its ACK.
    fn start_handshake(
        &mut self,
        frame: &TcpFrame,
        source_ip: IpAddr,
        dest_ip: IpAddr,
        rng: &mut Rng,
        syn_ack_timeout: usize,
    ) -> (r: FrameOutcome)
        requires
            frame@.len() >= 16,
            old(rng).counter() < u64::MAX,
        ensures
            handshake_started(*final(self), r, frame@, source_ip, dest_ip, syn_ack_timeout),
            final(rng).counter() == old(rng).counter() + 1,
    {
        let seq_num = rng.u64() as u32;
        let ack_num = frame.seq_num().wrapping_add(1);
        let flags = TcpFlagsParams {
            cwr: false,
            ece: false,
            urg: false,
            ack: true,
            psh: false,
            rst: false,
            syn: true,
            fin: false,
        };
        let response_frame = generate_reply(frame, source_ip, dest_ip, seq_num, ack_num, &flags);
        let sent_frame = OutgoingTcpPacket {
            local_ip: dest_ip,
            remote_ip: source_ip,
            payload: copy_bytes(&response_frame),
        };
        *self = TcpState::SynAckSent { seq_num, ack_num, sent_frame, timeout: syn_ack_timeout };
        FrameOutcome {
            response: Some(response_frame),
            wakeup_at: Some(syn_ack_timeout),
            new_connection: false,
            received: None,
            wake_service: true,
        }
    }

    /// Whether handling `frame` in this state reads only bytes the segment holds; the
    /// caller tests this before [`TcpState::handle_frame`].
    pub fn frame_readable(&self, frame: &TcpFrame, listener_exists: bool) -> (r: bool)
        ensures
            r == frame_readable(*self, frame@, listener_exists),
    {
        if frame.data.len() < 14 {
            return false;
        }
        let flags = frame.flags();
        match self {
            TcpState::Uninit => !flags.syn() || frame.data.len() >= 16,
            TcpState::SynAckSent { ack_num, .. } => if flags.syn() {
                frame.data.len() >= 16
            } else {
                !(!flags.psh() && flags.ack() && frame.seq_num() == *ack_num && listener_exists)
                    || frame.is_well_formed()
            },
            TcpState::Connected(c) => frame.seq_num() != c.outgoing_ack_num
                || frame.is_well_formed(),
        }
    }

    /// Handles segment `frame` that `source_ip` sent to `dest_ip` on this connection.
    /// `rng` supplies the sequence number of a SYN-ACK (its counter must then be below
    /// the top of `u64`), `syn_ack_timeout` is the tick
    /// at which an unanswered SYN-ACK is sent again, and `listener_exists` tells
    /// whether someone listens on the destination address and port.
    pub fn handle_frame(
        &mut self,
        frame: &TcpFrame,
        source_ip: IpAddr,
        dest_ip: IpAddr,
        rng: &mut Rng,
        syn_ack_timeout: usize,
        listener_exists: bool,
    ) -> (r: FrameOutcome)
        requires
            frame_readable(*old(self), frame@, listener_exists),
            answers_syn(*old(self), frame@) ==> old(rng).counter() < u64::MAX,
        ensures
            final(rng).counter() == if answers_syn(*old(self), frame@) {
                old(rng).counter() + 1
            } else {
                old(rng).counter() as int
            },
            frame_handled(
                *old(self),
                *final(self),
                r,
                frame@,
                source_ip,
                dest_ip,
                syn_ack_timeout,
                listener_exists,
            ),
    {
        let flags = frame.flags();
        match self {
            TcpState::Uninit => {
                if !flags.syn() {
                    return quiet_outcome();
                }
                self.start_handshake(frame, source_ip, dest_ip, rng, syn_ack_timeout)
            },
            TcpState::SynAckSent { seq_num, ack_num, .. } => {
                let seq_num = *seq_num;
                let ack_num = *ack_num;
                if flags.syn() {
                    return self.start_handshake(frame, source_ip, dest_ip, rng, syn_ack_timeout);
                }
                if flags.psh() {
                    return quiet_outcome();
                }
                if !flags.ack() {
                    return quiet_outcome();
                }
                if frame.seq_num() != ack_num {
                    return quiet_outcome();
                }
                if !listener_exists {
                    return quiet_outcome();
                }
                let payload_len = frame.payload().len();
                *self = TcpState::Connected(
                    ConnectedState {
                        seq_num: seq_num.wrapping_add(1),
                        outgoing_ack_num: ack_num.wrapping_add(payload_len as u32),
                        incoming_ack_num: frame.ack_num(),
                        window_size: frame.window_size(),
                        dup_ack_counter: 0,
                        unacknowledged: VecDeque::new(),
                        to_send: VecDeque::new(),
                    },
                );
                FrameOutcome {
                    response: None,
                    wakeup_at: None,
                    new_connection: true,
                    received: None,
                    wake_service: true,
                }
            },
            TcpState::Connected(state) => {
                if state.outgoing_ack_num != frame.seq_num() {
                    return quiet_outcome();
                }
                let payload = frame.payload();
                let ack = frame.ack_num();
                state.outgoing_ack_num = frame.seq_num().wrapping_add(payload.len() as u32);
                if ack == state.incoming_ack_num {
                    state.dup_ack_counter = state.dup_ack_counter.saturating_add(1);
                } else {
                    state.dup_ack_counter = 0;
                }
                state.incoming_ack_num = ack;
                if state.unacknowledged.len() > 0 {
                    if state.unacknowledged[0].params.seq_num < ack {
                        state.unacknowledged.pop_front();
                    }
                }
                state.window_size = frame.window_size();
                if flags.psh() {
                    let reply_flags = TcpFlagsParams {
                        cwr: false,
                        ece: false,
                        urg: false,
                        ack: true,
                        psh: false,
                        rst: false,
                        syn: false,
                        fin: false,
                    };
                    let response_frame = generate_reply(
                        frame,
                        source_ip,
                        dest_ip,
                        state.seq_num,
                        state.outgoing_ack_num,
                        &reply_flags,
                    );
                    let mut received: Vec<u8> = Vec::new();
                    push_bytes(&mut received, payload);
                    assert(received@ =~= payload@);
                    return FrameOutcome {
                        response: Some(response_frame),
                        wakeup_at: None,
                        new_connection: false,
                        received: Some(received),
                        wake_service: false,
                    };
                }
                FrameOutcome {
                    response: None,
                    wakeup_at: None,
                    new_connection: false,
                    received: None,
                    wake_service: true,
                }
            },
        }
    }
}

/// The fields of a data segment carrying `data` on the connection `key` whose next
/// sequence number is `seq` and whose acknowledgement number is `ack`.
pub open spec fn push_fields(key: TcpKey, seq: u32, ack: u32, data: Seq<u8>) -> SegmentFields {
    SegmentFields {
        source_address: key.local_ip@,
        dest_address: key.remote_ip@,
        source_port: key.local_port,
        dest_port: key.remote_port,
        seq_num: seq,
        ack_num: ack,
        flags: ACK_FLAGS,
        window_size: PUSH_WINDOW_SIZE,
        urgent_ptr: 0,
        payload: data,
    }
}

/// The fields of a data segment carrying `data`; the sequence number advances past it.
fn generate_tcp_push(tcp_key: &TcpKey, state: &mut ConnectedState, data: Vec<u8>) -> (r:
    TcpFrameParams)
    ensures
        r@ == push_fields(*tcp_key, old(state).seq_num, old(state).outgoing_ack_num, data@),
        *final(state) == (ConnectedState {
            seq_num: old(state).seq_num.wrapping_add(data@.len() as u32),
            ..*old(state)
        }),
{
    let payload_length = data.len();
    let flags = TcpFlagsParams {
        cwr: false,
        ece: false,
        urg: false,
        ack: true,
        psh: false,
        rst: false,
        syn: false,
        fin: false,
    };
    let ret = TcpFrameParams {
        source_address: tcp_key.local_ip,
        dest_address: tcp_key.remote_ip,
        source_port: tcp_key.local_port,
        dest_port: tcp_key.remote_port,
        seq_num: state.seq_num,
        ack_num: state.outgoing_ack_num,
        flags: generate_tcp_flags(&flags),
        window_size: PUSH_WINDOW_SIZE,
        urgent_ptr: 0,
        payload: data,
    };
    state.seq_num = state.seq_num.wrapping_add(payload_length as u32);
    ret
}

/// Sends `data` on the connection `key`: builds the data segment, remembers it as
/// unacknowledged at tick `now` and advances the sequence number.
pub fn write_request_to_outgoing_packet(
    tcp_key: &TcpKey,
    connected_state: &mut ConnectedState,
    now: usize,
    data: Vec<u8>,
) -> (r: OutgoingTcpPacket)
    ensures
        r.local_ip == tcp_key.local_ip,
        r.remote_ip == tcp_key.remote_ip,
        r.payload@ == tcp_frame_bytes(
            push_fields(
                *tcp_key,
                old(connected_state).seq_num,
                old(connected_state).outgoing_ack_num,
                data@,
            ),
        ),
        final(connected_state).seq_num == old(connected_state).seq_num.wrapping_add(
            data@.len() as u32,
        ),
        final(connected_state).outgoing_ack_num == old(connected_state).outgoing_ack_num,
        final(connected_state).incoming_ack_num == old(connected_state).incoming_ack_num,
        final(connected_state).window_size == old(connected_state).window_size,
        final(connected_state).dup_ack_counter == old(connected_state).dup_ack_counter,
        final(connected_state).to_send == old(connected_state).to_send,
        final(connected_state).unacknowledged@.len() == old(connected_state).unacknowledged@.len()
            + 1,
        final(connected_state).unacknowledged@.drop_last() == old(
            connected_state,
        ).unacknowledged@,
        final(connected_state).unacknowledged@.last().timestamp == now,
        final(connected_state).unacknowledged@.last().params@ == push_fields(
            *tcp_key,
            old(connected_state).seq_num,
            old(connected_state).outgoing_ack_num,
            data@,
        ),
{
    let params = generate_tcp_push(tcp_key, connected_state, data);
    let payload = generate_tcp_frame(&params);
    connected_state.unacknowledged.push_back(UnackedPacket { timestamp: now, params });
    assert(connected_state.unacknowledged@.drop_last() =~= old(connected_state).unacknowledged@);
    OutgoingTcpPacket { local_ip: tcp_key.local_ip, remote_ip: tcp_key.remote_ip, payload }
}

/// Payloads of unacknowledged segments, oldest first.
pub open spec fn unacked_payloads(u: Seq<UnackedPacket>) -> Seq<Vec<u8>> {
    u.map_values(|p: UnackedPacket| p.params.payload)
}

/// Whether resending the SYN-ACK of `state` at tick `now` keeps its timeout in range.
pub open spec fn resend_in_range(state: TcpState, now: usize, resend_interval: usize) -> bool {
    match state {
        TcpState::SynAckSent { timeout, .. } => now > timeout ==> timeout + resend_interval
            <= usize::MAX,
        _ => true,
    }
}

/// What polling the outgoing side of connection `key` at tick `now` does.
pub open spec fn outgoing_polled(
    old: TcpState,
    new: TcpState,
    r: Option<OutgoingTcpPacket>,
    key: TcpKey,
    now: usize,
    resend_interval: usize,
) -> bool {
    match old {
        TcpState::Uninit => new == old && r is None,
        TcpState::SynAckSent { seq_num, ack_num, timeout, sent_frame } => if now > timeout {
            &&& new == (TcpState::SynAckSent {
                seq_num,
                ack_num,
                timeout: (timeout + resend_interval) as usize,
                sent_frame,
            })
            &&& r matches Some(p) && p.local_ip == sent_frame.local_ip && p.remote_ip
                == sent_frame.remote_ip && p.payload@ == sent_frame.payload@
        } else {
            new == old && r is None
        },
        TcpState::Connected(c) => if c.dup_ack_counter >= 2 && c.unacknowledged@.len() > 0 {
            let first = c.unacknowledged@[0];
            &&& new matches TcpState::Connected(n)
            &&& n.seq_num == first.params.seq_num.wrapping_add(
                first.params.payload@.len() as u32,
            )
            &&& n.outgoing_ack_num == c.outgoing_ack_num
            &&& n.incoming_ack_num == c.incoming_ack_num
            &&& n.window_size == c.window_size
            &&& n.dup_ack_counter == c.dup_ack_counter
            &&& n.unacknowledged@.len() == 0
            &&& n.to_send@ == c.to_send@ + unacked_payloads(c.unacknowledged@.drop_first())
            &&& r matches Some(p) && p.local_ip == key.local_ip && p.remote_ip == key.remote_ip
                && p.payload@ == tcp_frame_bytes(first.params@)
        } else if c.to_send@.len() > 0 {
            let data = c.to_send@[0];
            &&& new matches TcpState::Connected(n)
            &&& n.seq_num == c.seq_num.wrapping_add(data@.len() as u32)
            &&& n.outgoing_ack_num == c.outgoing_ack_num
            &&& n.incoming_ack_num == c.incoming_ack_num
            &&& n.window_size == c.window_size
            &&& n.dup_ack_counter == c.dup_ack_counter
            &&& n.to_send@ == c.to_send@.drop_first()
            &&& n.unacknowledged@.len() == c.unacknowledged@.len() + 1
            &&& n.unacknowledged@.drop_last() == c.unacknowledged@
            &&& n.unacknowledged@.last().timestamp == now
            &&& n.unacknowledged@.last().params@ == push_fields(
                key,
                c.seq_num,
                c.outgoing_ack_num,
                data@,
            )
            &&& r matches Some(p) && p.local_ip == key.local_ip && p.remote_ip == key.remote_ip
                && p.payload@ == tcp_frame_bytes(push_fields(key, c.seq_num, c.outgoing_ack_num, data@))
        } else {
            new == old && r is None
        },
    }
}

/// Moves all unacknowledged segments back to the queue of data to send, oldest first.
fn requeue_unacked(connection: &mut ConnectedState)
    ensures
        final(connection).unacknowledged@.len() == 0,
        final(connection).to_send@ == old(connection).to_send@ + unacked_payloads(
            old(connection).unacknowledged@,
        ),
        final(connection).seq_num == old(connection).seq_num,
        final(connection).outgoing_ack_num == old(connection).outgoing_ack_num,
        final(connection).incoming_ack_num == old(connection).incoming_ack_num,
        final(connection).window_size == old(connection).window_size,
        final(connection).dup_ack_counter == old(connection).dup_ack_counter,
{
    let ghost rest = connection.unacknowledged@;
    let ghost start = connection.to_send@;
    while connection.unacknowledged.len() > 0
        invariant
            rest.len() >= connection.unacknowledged@.len(),
            connection.unacknowledged@ == rest.skip(rest.len() - connection.unacknowledged@.len()),
            connection.to_send@ == start + unacked_payloads(
                rest.take(rest.len() - connection.unacknowledged@.len()),
            ),
            connection.seq_num == old(connection).seq_num,
            connection.outgoing_ack_num == old(connection).outgoing_ack_num,
            connection.incoming_ack_num == old(connection).incoming_ack_num,
            connection.window_size == old(connection).window_size,
            connection.dup_ack_counter == old(connection).dup_ack_counter,
        decreases connection.unacknowledged@.len(),
    {
        let ghost before = connection.unacknowledged@;
        let ghost done = rest.len() - before.len();
        if let Some(p) = connection.unacknowledged.pop_front() {
            proof {
                assert(rest[done] == p);
                assert(rest.take(done + 1) =~= rest.take(done).push(p));
                assert(unacked_payloads(rest.take(done + 1)) =~= unacked_payloads(
                    rest.take(done),
                ).push(p.params.payload));
                assert(connection.unacknowledged@ =~= rest.skip(done + 1));
            }
            connection.to_send.push_back(p.params.payload);
            assert(connection.to_send@ =~= start + unacked_payloads(rest.take(done + 1)));
        }
    }
    assert(rest.take(rest.len() as int) =~= rest);
}

impl TcpState {
    /// Looks for something to send on connection `key` at tick `now`: a SYN-ACK
    /// whose timeout passed (the timeout then moves `resend_interval` ticks on), a
    /// retransmission after duplicate acknowledgements, or queued data. `None` on an
    /// established connection means the caller should look for new data to send.
    pub fn poll_outgoing(&mut self, key: &TcpKey, now: usize, resend_interval: usize) -> (r:
        Option<OutgoingTcpPacket>)
        requires
            resend_in_range(*old(self), now, resend_interval),
        ensures
            outgoing_polled(*old(self), *final(self), r, *key, now, resend_interval),
    {
        let ghost old_state = *self;
        match self {
            TcpState::Uninit => None,
            TcpState::SynAckSent { timeout, sent_frame, .. } => {
                if now > *timeout {
                    *timeout = *timeout + resend_interval;
                    Some(
                        OutgoingTcpPacket {
                            local_ip: sent_frame.local_ip,
                            remote_ip: sent_frame.remote_ip,
                            payload: copy_bytes(&sent_frame.payload),
                        },
                    )
                } else {
                    None
                }
            },
            TcpState::Connected(connection) => {
                if connection.dup_ack_counter >= 2 && connection.unacknowledged.len() > 0 {
                    if let Some(packet) = connection.unacknowledged.pop_front() {
                        connection.seq_num = packet.params.seq_num.wrapping_add(
                            packet.params.payload.len() as u32,
                        );
                        requeue_unacked(connection);
                        let payload = generate_tcp_frame(&packet.params);
                        return Some(
                            OutgoingTcpPacket {
                                local_ip: key.local_ip,
                                remote_ip: key.remote_ip,
                                payload,
                            },
                        );
                    }
                }
                if connection.to_send.len() > 0 {
                    if let Some(data) = connection.to_send.pop_front() {
                        let r = write_request_to_outgoing_packet(key, connection, now, data);
                        assert(old_state matches TcpState::Connected(c) && connection.to_send@
                            =~= c.to_send@.drop_first());
                        return Some(r);
                    }
                }
                None
            },
        }
    }
}

proof fn lemma_be16_round_trip(x: u16)
    ensures
        be16(be16_bytes(x)[0], be16_bytes(x)[1]) == x,
{
}

proof fn lemma_be32_round_trip(x: u32)
    ensures
        be32(be32_bytes(x)[0], be32_bytes(x)[1], be32_bytes(x)[2], be32_bytes(x)[3]) == x,
{
    lemma_be16_round_trip((x / 0x10000) as u16);
    lemma_be16_round_trip((x % 0x10000) as u16);
}

/// A segment built from `p` reads back every field of `p`: the ports, numbers,
/// flags, window, urgent pointer and payload, with a 20 byte header.
pub proof fn law_generated_frame_reads_back(p: SegmentFields)
    ensures
        ({
            let s = tcp_frame_bytes(p);
            &&& well_formed_segment(s)
            &&& data_offset_of(s) == TCP_HEADER_LEN
            &&& seg_source_port(s) == p.source_port
            &&& seg_dest_port(s) == p.dest_port
            &&& seg_seq_num(s) == p.seq_num
            &&& seg_ack_num(s) == p.ack_num
            &&& s[13] == p.flags
            &&& seg_window(s) == p.window_size
            &&& be16(s[16], s[17]) == tcp_checksum(p)
            &&& be16(s[18], s[19]) == p.urgent_ptr
            &&& seg_payload(s) == p.payload
        }),
{
    let s = tcp_frame_bytes(p);
    let h = tcp_header(p, tcp_checksum(p));
    assert(s =~= h + p.payload);
    assert(h.len() == 20);
    lemma_be16_round_trip(p.source_port);
    lemma_be16_round_trip(p.dest_port);
    lemma_be32_round_trip(p.seq_num);
    lemma_be32_round_trip(p.ack_num);
    lemma_be16_round_trip(p.window_size);
    lemma_be16_round_trip(tcp_checksum(p));
    lemma_be16_round_trip(p.urgent_ptr);
    assert(s[0] == be16_bytes(p.source_port)[0] && s[1] == be16_bytes(p.source_port)[1]);
    assert(s[2] == be16_bytes(p.dest_port)[0] && s[3] == be16_bytes(p.dest_port)[1]);
    assert(s[4] == be32_bytes(p.seq_num)[0] && s[5] == be32_bytes(p.seq_num)[1] && s[6]
        == be32_bytes(p.seq_num)[2] && s[7] == be32_bytes(p.seq_num)[3]);
    assert(s[8] == be32_bytes(p.ack_num)[0] && s[9] == be32_bytes(p.ack_num)[1] && s[10]
        == be32_bytes(p.ack_num)[2] && s[11] == be32_bytes(p.ack_num)[3]);
    assert(s[12] == 0x50u8 && s[13] == p.flags);
    assert(s[14] == be16_bytes(p.window_size)[0] && s[15] == be16_bytes(p.window_size)[1]);
    assert(s[16] == be16_bytes(tcp_checksum(p))[0] && s[17] == be16_bytes(tcp_checksum(p))[1]);
    assert(s[18] == be16_bytes(p.urgent_ptr)[0] && s[19] == be16_bytes(p.urgent_ptr)[1]);
    assert(seg_payload(s) =~= p.payload);
}

/// The checksum of a built segment verifies: over the pseudo header of its two IPv4
/// addresses followed by the segment, the internet checksum is zero.
pub proof fn law_generated_segment_checksum_verifies(p: SegmentFields)
    requires
        p.source_address.len() == 4,
        p.dest_address.len() == 4,
    ensures
        internet_checksum(tcp_pseudo_header(p) + tcp_frame_bytes(p)) == 0,
{
    let z = tcp_pseudo_header(p) + tcp_segment(p, 0);
    let c = tcp_checksum(p);
    law_checksum_field_verifies(z, 28);
    assert(tcp_pseudo_header(p) + tcp_frame_bytes(p) =~= z.update(28, (c / 256) as u8).update(
        29,
        (c % 256) as u8,
    ));
}

/// A SYN followed by the ACK of our SYN-ACK, on an address and port that someone
/// listens on, establishes the connection: the listener gets it, our next sequence
/// number is one past the SYN-ACK's, and we expect the byte after the ACK's data.
pub proof fn law_handshake_establishes(
    s1: TcpState,
    s2: TcpState,
    r1: FrameOutcome,
    r2: FrameOutcome,
    syn: Seq<u8>,
    ack: Seq<u8>,
    source_ip: IpAddr,
    dest_ip: IpAddr,
    timeout1: usize,
    timeout2: usize,
    listening1: bool,
)
    requires
        seg_flag(syn, 1),
        frame_handled(TcpState::Uninit, s1, r1, syn, source_ip, dest_ip, timeout1, listening1),
        !seg_flag(ack, 1),
        !seg_flag(ack, 3),
        seg_flag(ack, 4),
        seg_seq_num(ack) == seg_seq_num(syn).wrapping_add(1),
        frame_handled(s1, s2, r2, ack, source_ip, dest_ip, timeout2, true),
    ensures
        r1.response is Some,
        r2.new_connection,
        s1 matches TcpState::SynAckSent { seq_num, .. } && s2 matches TcpState::Connected(c)
            && c.seq_num == seq_num.wrapping_add(1) && c.outgoing_ack_num == seg_seq_num(
            ack,
        ).wrapping_add(seg_payload(ack).len() as u32) && c.incoming_ack_num == seg_ack_num(ack),
{
}

/// After a SYN is answered, polling the connection sends nothing until the timeout
/// the answer asked to be woken at has passed, and then sends the SYN-ACK again.
pub proof fn law_syn_ack_resent_after_timeout(
    s1: TcpState,
    s2: TcpState,
    r1: FrameOutcome,
    p: Option<OutgoingTcpPacket>,
    syn: Seq<u8>,
    source_ip: IpAddr,
    dest_ip: IpAddr,
    timeout: usize,
    listening: bool,
    key: TcpKey,
    now: usize,
    resend_interval: usize,
)
    requires
        seg_flag(syn, 1),
        frame_handled(TcpState::Uninit, s1, r1, syn, source_ip, dest_ip, timeout, listening),
        outgoing_polled(s1, s2, p, key, now, resend_interval),
    ensures
        now <= timeout ==> p is None && s2 == s1,
        now > timeout ==> (p matches Some(q) && r1.response matches Some(v) && q.payload@ == v@
            && q.local_ip == dest_ip && q.remote_ip == source_ip),
{
}

/// Two acknowledgements that repeat the acknowledgement number an established
/// connection last received, without acknowledging its oldest unacknowledged segment,
/// make the next poll send that segment again; the segments sent after it go back to
/// the queue of data to send.
pub proof fn law_duplicate_acks_resend(
    c0: ConnectedState,
    s1: TcpState,
    s2: TcpState,
    s3: TcpState,
    r1: FrameOutcome,
    r2: FrameOutcome,
    p: Option<OutgoingTcpPacket>,
    dup1: Seq<u8>,
    dup2: Seq<u8>,
    source_ip: IpAddr,
    dest_ip: IpAddr,
    timeout1: usize,
    timeout2: usize,
    listening1: bool,
    listening2: bool,
    key: TcpKey,
    now: usize,
    resend_interval: usize,
)
    requires
        c0.unacknowledged@.len() > 0,
        seg_seq_num(dup1) == c0.outgoing_ack_num,
        seg_ack_num(dup1) == c0.incoming_ack_num,
        !(c0.unacknowledged@[0].params.seq_num < seg_ack_num(dup1)),
        seg_payload(dup1).len() == 0,
        seg_seq_num(dup2) == seg_seq_num(dup1),
        seg_ack_num(dup2) == seg_ack_num(dup1),
        seg_payload(dup2).len() == 0,
        frame_handled(
            TcpState::Connected(c0),
            s1,
            r1,
            dup1,
            source_ip,
            dest_ip,
            timeout1,
            listening1,
        ),
        frame_handled(s1, s2, r2, dup2, source_ip, dest_ip, timeout2, listening2),
        outgoing_polled(s2, s3, p, key, now, resend_interval),
    ensures
        p matches Some(q) && q.payload@ == tcp_frame_bytes(c0.unacknowledged@[0].params@)
            && q.local_ip == key.local_ip && q.remote_ip == key.remote_ip,
        s3 matches TcpState::Connected(n) && n.unacknowledged@.len() == 0 && n.to_send@
            == c0.to_send@ + unacked_payloads(c0.unacknowledged@.drop_first()),
{
    lemma_duplicate_ack(c0, s1, r1, dup1, source_ip, dest_ip, timeout1, listening1);
    let c1 = s1->Connected_0;
    lemma_duplicate_ack(c1, s2, r2, dup2, source_ip, dest_ip, timeout2, listening2);
    let c2 = s2->Connected_0;
    assert(c2.dup_ack_counter >= 2);
    assert(c2.unacknowledged@ == c0.unacknowledged@);
}

/// An acknowledgement without data that repeats the last acknowledgement number of
/// connection `c` and leaves its oldest segment unacknowledged counts one more
/// duplicate and changes nothing else the retransmission reads.
proof fn lemma_duplicate_ack(
    c: ConnectedState,
    s: TcpState,
    r: FrameOutcome,
    d: Seq<u8>,
    source_ip: IpAddr,
    dest_ip: IpAddr,
    timeout: usize,
    listening: bool,
)
    requires
        seg_seq_num(d) == c.outgoing_ack_num,
        seg_ack_num(d) == c.incoming_ack_num,
        c.unacknowledged@.len() > 0,
        !(c.unacknowledged@[0].params.seq_num < seg_ack_num(d)),
        seg_payload(d).len() == 0,
        frame_handled(TcpState::Connected(c), s, r, d, source_ip, dest_ip, timeout, listening),
    ensures
        s matches TcpState::Connected(n) && n.outgoing_ack_num == c.outgoing_ack_num
            && n.incoming_ack_num == c.incoming_ack_num && n.dup_ack_counter
            == c.dup_ack_counter.saturating_add(1) && n.unacknowledged@ == c.unacknowledged@
            && n.to_send@ == c.to_send@,
{
}

/// A data segment that [`write_request_to_outgoing_packet`] builds on connection
/// `key` goes from the connection's local address and port to its remote ones,
/// acknowledges what was received, carries the data at the connection's sequence
/// number, and moves that number past the data. `c0` is the connection before the
/// call and `c1` after; the requires are the call's ensures.
pub proof fn law_data_segment_goes_to_peer(
    key: TcpKey,
    c0: ConnectedState,
    c1: ConnectedState,
    data: Seq<u8>,
    r: OutgoingTcpPacket,
)
    requires
        r.local_ip == key.local_ip,
        r.remote_ip == key.remote_ip,
        r.payload@ == tcp_frame_bytes(push_fields(key, c0.seq_num, c0.outgoing_ack_num, data)),
        c1.seq_num == c0.seq_num.wrapping_add(data.len() as u32),
        data.len() <= u32::MAX,
    ensures
        ({
            let s = r.payload@;
            &&& seg_source_port(s) == key.local_port
            &&& seg_dest_port(s) == key.remote_port
            &&& seg_seq_num(s) == c0.seq_num
            &&& seg_ack_num(s) == c0.outgoing_ack_num
            &&& s[13] == ACK_FLAGS
            &&& seg_payload(s) == data
            &&& c1.seq_num == (c0.seq_num + data.len()) % 0x1_0000_0000
        }),
{
    law_generated_frame_reads_back(push_fields(key, c0.seq_num, c0.outgoing_ack_num, data));
}

/// Polling an established connection that has data queued and no retransmission due
/// sends the oldest queued data to the peer: from the local port to the remote port,
/// at the connection's sequence number, acknowledging what was received, and the
/// sequence number moves past the data.
pub proof fn law_queued_data_goes_to_peer(
    c: ConnectedState,
    new: TcpState,
    r: Option<OutgoingTcpPacket>,
    key: TcpKey,
    now: usize,
    resend_interval: usize,
)
    requires
        outgoing_polled(TcpState::Connected(c), new, r, key, now, resend_interval),
        !(c.dup_ack_counter >= 2 && c.unacknowledged@.len() > 0),
        c.to_send@.len() > 0,
    ensures
        r matches Some(p) && {
            let s = p.payload@;
            &&& p.local_ip == key.local_ip
            &&& p.remote_ip == key.remote_ip
            &&& seg_source_port(s) == key.local_port
            &&& seg_dest_port(s) == key.remote_port
            &&& seg_seq_num(s) == c.seq_num
            &&& seg_ack_num(s) == c.outgoing_ack_num
            &&& s[13] == ACK_FLAGS
            &&& seg_payload(s) == c.to_send@[0]@
        },
        new matches TcpState::Connected(n) && n.to_send@ == c.to_send@.drop_first() && (c.to_send@[
            0]@.len() <= u32::MAX ==> n.seq_num == (c.seq_num + c.to_send@[0]@.len())
            % 0x1_0000_0000),
{
    law_generated_frame_reads_back(push_fields(key, c.seq_num, c.outgoing_ack_num, c.to_send@[0]@));
}

} // verus!
