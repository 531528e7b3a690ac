//! Answering ARP: what the kernel does with each ARP frame it receives.
use vstd::prelude::*;

use crate::net::IpAddr;

verus! {

/// A MAC address.
pub type MacAddr = [u8; 6];

/// The IPv4 address the kernel answers to.
pub open spec fn static_ip() -> IpAddr {
    [192u8, 168, 2, 2]
}

/// The IPv4 address the kernel answers to.
pub fn static_ip_exec() -> (r: IpAddr)
    ensures
        r == static_ip(),
{
    [192u8, 168, 2, 2]
}

/// What an ARP frame asks.
#[derive(Clone, Copy, PartialEq, Eq, Structural)]
pub enum ArpOperation {
    Request,
    Reply,
}

/// An ARP operation code that is neither a request nor a reply.
pub struct UnknownArpOperation(pub u16);

/// The fields of an ARP frame the kernel reads and writes.
#[derive(Clone, Copy)]
pub struct ArpFrameParams {
    pub operation: ArpOperation,
    pub sender_hardware_address: MacAddr,
    pub sender_protocol_address: IpAddr,
    pub target_hardware_address: MacAddr,
    pub target_protocol_address: IpAddr,
}

/// What to do with a received ARP frame.
pub enum ArpAction {
    /// Nothing.
    Ignore,
    /// Learn that `ip` is at `mac`.
    Record { ip: IpAddr, mac: MacAddr },
    /// Send `reply` in an Ethernet frame to `dest_mac`.
    Reply { dest_mac: MacAddr, reply: ArpFrameParams },
}

/// The decision for a frame with `operation` (or an unknown one) and the addresses
/// of `frame`, received by the card with address `mac`: replies teach the sender's
/// addresses; requests for this machine, by MAC or by IP, are answered with this
/// machine's addresses; anything else is ignored.
pub open spec fn arp_action(
    operation: Result<ArpOperation, UnknownArpOperation>,
    frame: ArpFrameParams,
    mac: MacAddr,
) -> ArpAction {
    match operation {
        Ok(ArpOperation::Reply) => ArpAction::Record {
            ip: frame.sender_protocol_address,
            mac: frame.sender_hardware_address,
        },
        Ok(ArpOperation::Request) => if frame.target_hardware_address != mac
            && frame.target_protocol_address != static_ip() {
            ArpAction::Ignore
        } else {
            ArpAction::Reply {
                dest_mac: frame.sender_hardware_address,
                reply: ArpFrameParams {
                    operation: ArpOperation::Reply,
                    sender_hardware_address: mac,
                    sender_protocol_address: static_ip(),
                    target_hardware_address: frame.sender_hardware_address,
                    target_protocol_address: frame.sender_protocol_address,
                },
            }
        },
        Err(_) => ArpAction::Ignore,
    }
}

fn same_mac(a: &MacAddr, b: &MacAddr) -> (r: bool)
    ensures
        r == (*a == *b),
{
    let r = a[0] == b[0] && a[1] == b[1] && a[2] == b[2] && a[3] == b[3] && a[4] == b[4] && a[5]
        == b[5];
    proof {
        if r {
            assert(*a =~= *b);
        }
    }
    r
}

fn same_ip(a: &IpAddr, b: &IpAddr) -> (r: bool)
    ensures
        r == (*a == *b),
{
    let r = a[0] == b[0] && a[1] == b[1] && a[2] == b[2] && a[3] == b[3];
    proof {
        if r {
            assert(*a =~= *b);
        }
    }
    r
}

/// Decides what to do with a received ARP frame.
pub fn handle_arp_frame(
    operation: Result<ArpOperation, UnknownArpOperation>,
    frame: &ArpFrameParams,
    mac: &MacAddr,
) -> (r: ArpAction)
    ensures
        r == arp_action(operation, *frame, *mac),
{
    match operation {
        Ok(ArpOperation::Request) => {},
        Ok(ArpOperation::Reply) => {
            return ArpAction::Record {
                ip: frame.sender_protocol_address,
                mac: frame.sender_hardware_address,
            };
        },
        Err(_) => {
            return ArpAction::Ignore;
        },
    }
    let our_ip = static_ip_exec();
    if !same_mac(&frame.target_hardware_address, mac) && !same_ip(
        &frame.target_protocol_address,
        &our_ip,
    ) {
        return ArpAction::Ignore;
    }
    let mut params = *frame;
    let target_protocol = params.target_protocol_address;
    params.target_protocol_address = params.sender_protocol_address;
    params.sender_protocol_address = target_protocol;
    let target_hardware = params.target_hardware_address;
    params.target_hardware_address = params.sender_hardware_address;
    params.sender_hardware_address = target_hardware;
    params.operation = ArpOperation::Reply;
    params.sender_hardware_address = *mac;
    params.sender_protocol_address = our_ip;
    ArpAction::Reply { dest_mac: frame.sender_hardware_address, reply: params }
}

} // verus!
