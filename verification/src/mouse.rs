//! Choosing the endpoint a USB boot protocol mouse reports on.
use vstd::prelude::*;

use crate::usb::{
    descriptor_is, endpoint_address_of, transfer_type_of, ConfigurationDescriptors,
    EndpointAddress, TransferType, UsbDescriptor, UsbEndpointDescriptor, UsbInterfaceDescriptor,
};
use crate::util::bit_manipulation::{bit_set, field};

verus! {

/// Whether interface descriptor bytes `d` describe a HID device (class 3) with the
/// boot interface subclass (1) and the mouse protocol (2).
pub open spec fn boot_mouse_bytes(d: Seq<u8>) -> bool {
    d[5] == 3 && d[6] == 1 && d[7] == 2
}

/// Whether `intf` is a HID boot protocol mouse interface.
pub fn is_hid_boot_mouse(intf: &UsbInterfaceDescriptor) -> (r: bool)
    requires
        intf@.len() >= 8,
    ensures
        r == boot_mouse_bytes(intf@),
{
    intf.interface_class() == 3 && intf.interface_subclass() == 1 && intf.interface_protocol() == 2
}

/// Whether the endpoint descriptor bytes `d` describe an interrupt IN endpoint.
pub open spec fn interrupt_in_bytes(d: Seq<u8>) -> bool {
    transfer_type_of(d[3]) == TransferType::Interrupt && bit_set(d[2] as nat, 7)
}

/// Whether the interface state after descriptor `d` of type `typ` is "inside a boot mouse
/// interface", starting from `relevant`.
pub open spec fn relevant_after(d: Seq<u8>, typ: u8, relevant: bool) -> bool {
    if typ == 4 {
        boot_mouse_bytes(d)
    } else {
        relevant
    }
}

/// The number of the first interrupt IN endpoint that follows a boot mouse interface
/// descriptor, within that interface, walking descriptors `b` with `relevant` telling
/// whether the walk is inside such an interface.
pub open spec fn endpoint_search(b: Seq<u8>, relevant: bool) -> Option<u8>
    decreases b.len(),
{
    if b.len() < 2 || b[0] == 0 || b[0] > b.len() {
        None
    } else {
        let d = b.take(b[0] as int);
        let rel = relevant_after(d, b[1], relevant);
        if rel && b[1] == 5 && interrupt_in_bytes(d) {
            Some(field(d[2] as nat, 0, 4) as u8)
        } else {
            endpoint_search(b.skip(b[0] as int), rel)
        }
    }
}

/// Whether the walk of `endpoint_search` reads only bytes that are there and ends.
pub open spec fn endpoint_search_defined(b: Seq<u8>, relevant: bool) -> bool
    decreases b.len(),
{
    if b.len() < 2 {
        true
    } else if b[0] == 0 || b[0] > b.len() {
        false
    } else {
        let d = b.take(b[0] as int);
        let rel = relevant_after(d, b[1], relevant);
        &&& (b[1] == 4 ==> d.len() >= 8)
        &&& (rel && b[1] == 5 ==> d.len() >= 4)
        &&& (rel && b[1] == 5 && interrupt_in_bytes(d) || endpoint_search_defined(
            b.skip(b[0] as int),
            rel,
        ))
    }
}

/// The endpoint that a boot protocol mouse reports on: the first interrupt IN
/// endpoint inside a HID boot mouse interface of `configurations`.
pub fn find_appropriate_endpoint(configurations: &ConfigurationDescriptors) -> (r: Option<u8>)
    requires
        endpoint_search_defined(configurations.0@, false),
    ensures
        r == endpoint_search(configurations.0@, false),
{
    let mut it = configurations.iter();
    let mut in_relevant_interface = false;
    loop
        invariant
            endpoint_search_defined(it@, in_relevant_interface),
            endpoint_search(it@, in_relevant_interface) == endpoint_search(
                configurations.0@,
                false,
            ),
        decreases it@.len(),
    {
        let ghost before = it@;
        let ghost prev = in_relevant_interface;
        let descriptor = match it.next() {
            Some(d) => d,
            None => return None,
        };
        let ghost d = before.take(before[0] as int);

        if let UsbDescriptor::Interface(intf) = &descriptor {
            in_relevant_interface = is_hid_boot_mouse(intf);
        }
        assert(in_relevant_interface == relevant_after(d, before[1], prev));

        if !in_relevant_interface {
            continue;
        }

        let endpoint = match descriptor {
            UsbDescriptor::Endpoint(endpoint) => endpoint,
            _ => continue,
        };

        if endpoint.transfer_type() != TransferType::Interrupt {
            continue;
        }

        if let EndpointAddress::In(address) = endpoint.endpoint_address() {
            return Some(address);
        }
    }
}

/// Whether the walk of [`endpoint_search`] over `b`, with `relevant` telling whether it
/// is inside a boot mouse interface, is defined.
fn search_defined_from(b: &[u8], relevant: bool) -> (r: bool)
    ensures
        r == endpoint_search_defined(b@, relevant),
    decreases b@.len(),
{
    if b.len() < 2 {
        return true;
    }
    let len = b[0] as usize;
    if len == 0 || len > b.len() {
        return false;
    }
    let typ = b[1];
    let (d, rest) = b.split_at(len);
    assert(d@ =~= b@.take(len as int));
    assert(rest@ =~= b@.skip(len as int));
    let rel = if typ == 4 {
        if d.len() < 8 {
            return false;
        }
        is_hid_boot_mouse(&UsbInterfaceDescriptor::new(d))
    } else {
        relevant
    };
    if rel && typ == 5 {
        if d.len() < 4 {
            return false;
        }
        let endpoint = UsbEndpointDescriptor::new(d);
        let interrupt_in = endpoint.transfer_type() == TransferType::Interrupt && match endpoint.endpoint_address() {
            EndpointAddress::In(_) => true,
            EndpointAddress::Out(_) => false,
        };
        if interrupt_in {
            return true;
        }
    }
    search_defined_from(rest, rel)
}

/// Whether [`find_appropriate_endpoint`] can walk `configurations`: each descriptor it
/// reads before finding the endpoint has a non zero length within the data, and the
/// interface and endpoint descriptors it looks into are long enough.
pub fn configuration_walkable(configurations: &ConfigurationDescriptors) -> (r: bool)
    ensures
        r == endpoint_search_defined(configurations.0@, false),
{
    search_defined_from(configurations.0.as_slice(), false)
}

} // verus!
