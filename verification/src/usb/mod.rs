//! USB packets, setup requests and descriptor parsing.
use vstd::prelude::*;

use crate::util::bit_manipulation::{bit_set, field, GetBits};

verus! {

/// Packet identifier of a USB transaction.
#[derive(Clone, Copy, PartialEq, Eq, Structural)]
pub enum Pid {
    Setup,
    In,
    Out,
}

/// A device that was given an address on the bus.
pub struct UsbDevice {
    pub address: u8,
}

/// One USB transaction to run.
pub struct UsbPacket {
    pub pid: Pid,
    pub address: u8,
    pub endpoint: u8,
    pub data_toggle: bool,
    pub data: Vec<u8>,
}

/// Standard request codes of a setup packet.
#[derive(Clone, Copy, PartialEq, Eq, Structural)]
pub enum UsbSetupRequestValue {
    GetStatus,
    ClearFeature,
    SetFeature,
    SetAddress,
    GetDescriptor,
    SetDescriptor,
    GetConfiguration,
    SetConfiguration,
    GetInterface,
    SetInterface,
    SyncFrame,
}

/// Request code of `v` as sent on the wire.
pub open spec fn request_code(v: UsbSetupRequestValue) -> u8 {
    match v {
        UsbSetupRequestValue::GetStatus => 0,
        UsbSetupRequestValue::ClearFeature => 1,
        UsbSetupRequestValue::SetFeature => 3,
        UsbSetupRequestValue::SetAddress => 5,
        UsbSetupRequestValue::GetDescriptor => 6,
        UsbSetupRequestValue::SetDescriptor => 7,
        UsbSetupRequestValue::GetConfiguration => 8,
        UsbSetupRequestValue::SetConfiguration => 9,
        UsbSetupRequestValue::GetInterface => 10,
        UsbSetupRequestValue::SetInterface => 11,
        UsbSetupRequestValue::SyncFrame => 12,
    }
}

impl UsbSetupRequestValue {
    /// Request code as sent on the wire.
    pub fn code(&self) -> (r: u8)
        ensures
            r == request_code(*self),
    {
        match self {
            UsbSetupRequestValue::GetStatus => 0,
            UsbSetupRequestValue::ClearFeature => 1,
            UsbSetupRequestValue::SetFeature => 3,
            UsbSetupRequestValue::SetAddress => 5,
            UsbSetupRequestValue::GetDescriptor => 6,
            UsbSetupRequestValue::SetDescriptor => 7,
            UsbSetupRequestValue::GetConfiguration => 8,
            UsbSetupRequestValue::SetConfiguration => 9,
            UsbSetupRequestValue::GetInterface => 10,
            UsbSetupRequestValue::SetInterface => 11,
            UsbSetupRequestValue::SyncFrame => 12,
        }
    }
}

/// Descriptor type codes.
enum UsbDescriptorType {
    Device,
    Configuration,
}

impl UsbDescriptorType {
    fn code(&self) -> (r: u16)
        ensures
            r == match self {
                UsbDescriptorType::Device => 1u16,
                UsbDescriptorType::Configuration => 2u16,
            },
    {
        match self {
            UsbDescriptorType::Device => 1,
            UsbDescriptorType::Configuration => 2,
        }
    }
}

/// Everything a setup packet carries.
pub struct UsbSetupRequestParams {
    pub pid: Pid,
    pub address: u8,
    pub endpoint: u8,
    pub data_toggle: bool,
    pub request_type: u8,
    pub request: UsbSetupRequestValue,
    pub value: u16,
    pub index: u16,
    pub length: u16,
}

/// Little endian value of two bytes.
pub open spec fn le16(lo: u8, hi: u8) -> nat {
    lo as nat + hi as nat * 256
}

/// The two little endian bytes of `x`.
pub open spec fn le16_bytes(x: u16) -> Seq<u8> {
    seq![(x % 256) as u8, (x / 256) as u8]
}

/// The eight bytes of a setup request.
pub open spec fn setup_bytes(p: UsbSetupRequestParams) -> Seq<u8> {
    seq![p.request_type, request_code(p.request)] + le16_bytes(p.value) + le16_bytes(p.index)
        + le16_bytes(p.length)
}

/// The eight byte data stage of a setup packet, written field by field.
struct UsbSetupRequest(Vec<u8>);

impl UsbSetupRequest {
    const SIZE: usize = 8;

    fn set_request_type(&mut self, val: u8)
        requires
            old(self).0@.len() == 8,
        ensures
            final(self).0@ == old(self).0@.update(0, val),
    {
        self.0.set(0, val);
    }

    fn set_request(&mut self, val: UsbSetupRequestValue)
        requires
            old(self).0@.len() == 8,
        ensures
            final(self).0@ == old(self).0@.update(1, request_code(val)),
    {
        self.0.set(1, val.code());
    }

    fn set_le16(&mut self, i: usize, val: u16)
        requires
            old(self).0@.len() == 8,
            i + 2 <= 8,
        ensures
            final(self).0@ == old(self).0@.update(i as int, le16_bytes(val)[0]).update(
                i + 1,
                le16_bytes(val)[1],
            ),
    {
        assert(val & 0xffu16 == val % 256 && val >> 8u16 == val / 256) by (bit_vector);
        self.0.set(i, (val & 0xff) as u8);
        self.0.set(i + 1, (val >> 8) as u8);
    }

    fn set_value(&mut self, val: u16)
        requires
            old(self).0@.len() == 8,
        ensures
            final(self).0@ == old(self).0@.update(2, le16_bytes(val)[0]).update(
                3,
                le16_bytes(val)[1],
            ),
    {
        self.set_le16(2, val);
    }

    fn set_index(&mut self, val: u16)
        requires
            old(self).0@.len() == 8,
        ensures
            final(self).0@ == old(self).0@.update(4, le16_bytes(val)[0]).update(
                5,
                le16_bytes(val)[1],
            ),
    {
        self.set_le16(4, val);
    }

    fn set_length(&mut self, val: u16)
        requires
            old(self).0@.len() == 8,
        ensures
            final(self).0@ == old(self).0@.update(6, le16_bytes(val)[0]).update(
                7,
                le16_bytes(val)[1],
            ),
    {
        self.set_le16(6, val);
    }
}

impl UsbPacket {
    /// A setup packet carrying the eight byte request described by `params`.
    pub fn setup(params: UsbSetupRequestParams) -> (r: UsbPacket)
        ensures
            r.pid == params.pid,
            r.address == params.address,
            r.endpoint == params.endpoint,
            r.data_toggle == params.data_toggle,
            r.data@ == setup_bytes(params),
    {
        let mut data = UsbSetupRequest(vec![0; UsbSetupRequest::SIZE]);
        data.set_request_type(params.request_type);
        data.set_request(params.request);
        data.set_value(params.value);
        data.set_index(params.index);
        data.set_length(params.length);
        assert(data.0@ =~= setup_bytes(params));

        UsbPacket {
            pid: params.pid,
            address: params.address,
            endpoint: params.endpoint,
            data_toggle: params.data_toggle,
            data: data.0,
        }
    }
}

/// A device descriptor, read in place.
pub struct UsbDeviceDescriptor<'a>(&'a [u8]);

impl<'a> View for UsbDeviceDescriptor<'a> {
    type V = Seq<u8>;

    closed spec fn view(&self) -> Seq<u8> {
        self.0@
    }
}

impl<'a> UsbDeviceDescriptor<'a> {
    /// Reads a descriptor in place.
    pub fn new(data: &'a [u8]) -> (r: UsbDeviceDescriptor<'a>)
        ensures
            r@ == data@,
    {
        UsbDeviceDescriptor(data)
    }

    /// Size of the descriptor in bytes.
    pub fn length(&self) -> (r: u8)
        requires
            self@.len() > 0,
        ensures
            r == self@[0],
    {
        self.0[0]
    }

    /// Descriptor type code.
    pub fn descriptor_type(&self) -> (r: u8)
        requires
            self@.len() > 1,
        ensures
            r == self@[1],
    {
        self.0[1]
    }

    /// USB version in binary coded decimal.
    pub fn bcd_usb_version(&self) -> (r: u16)
        requires
            self@.len() >= 4,
        ensures
            r == le16(self@[2], self@[3]),
    {
        (self.0[2] as u16) + (self.0[3] as u16) * 256
    }

    /// Class code.
    pub fn device_class(&self) -> (r: u8)
        requires
            self@.len() > 4,
        ensures
            r == self@[4],
    {
        self.0[4]
    }

    /// Subclass code.
    pub fn device_sublcass(&self) -> (r: u8)
        requires
            self@.len() > 5,
        ensures
            r == self@[5],
    {
        self.0[5]
    }

    /// Protocol code.
    pub fn device_protocol(&self) -> (r: u8)
        requires
            self@.len() > 6,
        ensures
            r == self@[6],
    {
        self.0[6]
    }

    /// Largest packet endpoint zero takes.
    pub fn max_packet_size_endpoint_zero(&self) -> (r: u8)
        requires
            self@.len() > 7,
        ensures
            r == self@[7],
    {
        self.0[7]
    }

    /// Vendor id.
    pub fn vendor_id(&self) -> (r: u16)
        requires
            self@.len() >= 10,
        ensures
            r == le16(self@[8], self@[9]),
    {
        (self.0[8] as u16) + (self.0[9] as u16) * 256
    }

    /// Product id.
    pub fn product_id(&self) -> (r: u16)
        requires
            self@.len() >= 12,
        ensures
            r == le16(self@[10], self@[11]),
    {
        (self.0[10] as u16) + (self.0[11] as u16) * 256
    }

    /// Device release number.
    pub fn device_version(&self) -> (r: u16)
        requires
            self@.len() >= 14,
        ensures
            r == le16(self@[12], self@[13]),
    {
        (self.0[12] as u16) + (self.0[13] as u16) * 256
    }

    /// Index of the manufacturer string.
    pub fn manufacturer_string_id(&self) -> (r: u8)
        requires
            self@.len() > 14,
        ensures
            r == self@[14],
    {
        self.0[14]
    }

    /// Index of the product string.
    pub fn product_string_id(&self) -> (r: u8)
        requires
            self@.len() > 15,
        ensures
            r == self@[15],
    {
        self.0[15]
    }

    /// Index of the serial number string.
    pub fn serial_number_id(&self) -> (r: u8)
        requires
            self@.len() > 16,
        ensures
            r == self@[16],
    {
        self.0[16]
    }

    /// Number of configurations.
    pub fn num_configurations(&self) -> (r: u8)
        requires
            self@.len() > 17,
        ensures
            r == self@[17],
    {
        self.0[17]
    }
}

/// A configuration descriptor, read in place.
pub struct UsbConfigurationDescriptor<'a>(&'a [u8]);

impl<'a> View for UsbConfigurationDescriptor<'a> {
    type V = Seq<u8>;

    closed spec fn view(&self) -> Seq<u8> {
        self.0@
    }
}

impl<'a> UsbConfigurationDescriptor<'a> {
    /// Reads a descriptor in place.
    pub fn new(data: &'a [u8]) -> (r: UsbConfigurationDescriptor<'a>)
        ensures
            r@ == data@,
    {
        UsbConfigurationDescriptor(data)
    }

    /// Size of this descriptor in bytes.
    pub fn legnth(&self) -> (r: u8)
        requires
            self@.len() > 0,
        ensures
            r == self@[0],
    {
        self.0[0]
    }

    /// Descriptor type code.
    pub fn descriptor_type(&self) -> (r: u8)
        requires
            self@.len() > 1,
        ensures
            r == self@[1],
    {
        self.0[1]
    }

    /// Size of the configuration with all its interface and endpoint descriptors.
    pub fn total_length(&self) -> (r: u16)
        requires
            self@.len() >= 4,
        ensures
            r == le16(self@[2], self@[3]),
    {
        (self.0[2] as u16) + (self.0[3] as u16) * 256
    }

    /// Number of interfaces.
    pub fn num_interfaces(&self) -> (r: u8)
        requires
            self@.len() > 4,
        ensures
            r == self@[4],
    {
        self.0[4]
    }

    /// Value that selects this configuration.
    pub fn configuration_value(&self) -> (r: u8)
        requires
            self@.len() > 5,
        ensures
            r == self@[5],
    {
        self.0[5]
    }

    /// Index of the configuration string.
    pub fn configuration_string_index(&self) -> (r: u8)
        requires
            self@.len() > 6,
        ensures
            r == self@[6],
    {
        self.0[6]
    }

    /// Attribute bits.
    pub fn attributes(&self) -> (r: u8)
        requires
            self@.len() > 7,
        ensures
            r == self@[7],
    {
        self.0[7]
    }

    /// Maximum power draw in units of 2 mA.
    pub fn max_power(&self) -> (r: u8)
        requires
            self@.len() > 8,
        ensures
            r == self@[8],
    {
        self.0[8]
    }
}

/// An interface descriptor, read in place.
pub struct UsbInterfaceDescriptor<'a>(&'a [u8]);

impl<'a> View for UsbInterfaceDescriptor<'a> {
    type V = Seq<u8>;

    closed spec fn view(&self) -> Seq<u8> {
        self.0@
    }
}

impl<'a> UsbInterfaceDescriptor<'a> {
    /// Reads a descriptor in place.
    pub fn new(data: &'a [u8]) -> (r: UsbInterfaceDescriptor<'a>)
        ensures
            r@ == data@,
    {
        UsbInterfaceDescriptor(data)
    }

    /// Size of the descriptor in bytes.
    pub fn length(&self) -> (r: u8)
        requires
            self@.len() > 0,
        ensures
            r == self@[0],
    {
        self.0[0]
    }

    /// Descriptor type code.
    pub fn descriptor_type(&self) -> (r: u8)
        requires
            self@.len() > 1,
        ensures
            r == self@[1],
    {
        self.0[1]
    }

    /// Number of the interface.
    pub fn interface_number(&self) -> (r: u8)
        requires
            self@.len() > 2,
        ensures
            r == self@[2],
    {
        self.0[2]
    }

    /// Alternate setting number.
    pub fn alternate_setting(&self) -> (r: u8)
        requires
            self@.len() > 3,
        ensures
            r == self@[3],
    {
        self.0[3]
    }

    /// Number of endpoints besides endpoint zero.
    pub fn num_endpoints(&self) -> (r: u8)
        requires
            self@.len() > 4,
        ensures
            r == self@[4],
    {
        self.0[4]
    }

    /// Class code.
    pub fn interface_class(&self) -> (r: u8)
        requires
            self@.len() > 5,
        ensures
            r == self@[5],
    {
        self.0[5]
    }

    /// Subclass code.
    pub fn interface_subclass(&self) -> (r: u8)
        requires
            self@.len() > 6,
        ensures
            r == self@[6],
    {
        self.0[6]
    }

    /// Protocol code.
    pub fn interface_protocol(&self) -> (r: u8)
        requires
            self@.len() > 7,
        ensures
            r == self@[7],
    {
        self.0[7]
    }

    /// Index of the interface string.
    pub fn interface_string_index(&self) -> (r: u8)
        requires
            self@.len() > 8,
        ensures
            r == self@[8],
    {
        self.0[8]
    }
}

/// Direction and number of an endpoint.
#[derive(PartialEq, Eq, Structural)]
pub enum EndpointAddress {
    In(u8),
    Out(u8),
}

/// The endpoint address that byte `b` encodes.
pub open spec fn endpoint_address_of(b: u8) -> EndpointAddress {
    if bit_set(b as nat, 7) {
        EndpointAddress::In(field(b as nat, 0, 4) as u8)
    } else {
        EndpointAddress::Out(field(b as nat, 0, 4) as u8)
    }
}

/// How an endpoint moves data.
#[derive(PartialEq, Eq, Structural)]
pub enum TransferType {
    Control,
    Isochronus,
    Bulk,
    Interrupt,
    Unknown,
}

/// The transfer type that attribute byte `b` encodes.
pub open spec fn transfer_type_of(b: u8) -> TransferType {
    let t = field(b as nat, 0, 2);
    if t == 0 {
        TransferType::Control
    } else if t == 1 {
        TransferType::Isochronus
    } else if t == 2 {
        TransferType::Bulk
    } else if t == 3 {
        TransferType::Interrupt
    } else {
        TransferType::Unknown
    }
}

/// An endpoint descriptor, read in place.
pub struct UsbEndpointDescriptor<'a>(&'a [u8]);

impl<'a> View for UsbEndpointDescriptor<'a> {
    type V = Seq<u8>;

    closed spec fn view(&self) -> Seq<u8> {
        self.0@
    }
}

impl<'a> UsbEndpointDescriptor<'a> {
    /// Reads a descriptor in place.
    pub fn new(data: &'a [u8]) -> (r: UsbEndpointDescriptor<'a>)
        ensures
            r@ == data@,
    {
        UsbEndpointDescriptor(data)
    }

    /// Size of the descriptor in bytes.
    pub fn length(&self) -> (r: u8)
        requires
            self@.len() > 0,
        ensures
            r == self@[0],
    {
        self.0[0]
    }

    /// Descriptor type code.
    pub fn descriptor_type(&self) -> (r: u8)
        requires
            self@.len() > 1,
        ensures
            r == self@[1],
    {
        self.0[1]
    }

    /// Attribute bits; the low two give the transfer type.
    pub fn attributes(&self) -> (r: u8)
        requires
            self@.len() > 3,
        ensures
            r == self@[3],
    {
        self.0[3]
    }

    /// Largest packet the endpoint takes.
    pub fn max_packet_size(&self) -> (r: u16)
        requires
            self@.len() >= 6,
        ensures
            r == le16(self@[4], self@[5]),
    {
        (self.0[4] as u16) + (self.0[5] as u16) * 256
    }

    /// Polling interval.
    pub fn interval(&self) -> (r: u8)
        requires
            self@.len() > 6,
        ensures
            r == self@[6],
    {
        self.0[6]
    }

    /// Direction and number of the endpoint: bit 7 set means IN, the low four bits
    /// are the number.
    pub fn endpoint_address(&self) -> (r: EndpointAddress)
        requires
            self@.len() > 2,
        ensures
            r == endpoint_address_of(self@[2]),
    {
        let val = self.0[2];
        let address = val.get_bits(0, 4);
        match val.get_bit(7) {
            false => EndpointAddress::Out(address),
            true => EndpointAddress::In(address),
        }
    }

    /// Transfer type, from the low two bits of the attributes.
    pub fn transfer_type(&self) -> (r: TransferType)
        requires
            self@.len() > 3,
        ensures
            r == transfer_type_of(self@[3]),
    {
        match self.attributes().get_bits(0, 2) {
            0 => TransferType::Control,
            1 => TransferType::Isochronus,
            2 => TransferType::Bulk,
            3 => TransferType::Interrupt,
            _ => TransferType::Unknown,
        }
    }
}

/// One descriptor of a configuration, by type.
pub enum UsbDescriptor<'a> {
    Device(UsbDeviceDescriptor<'a>),
    Configuration(UsbConfigurationDescriptor<'a>),
    Interface(UsbInterfaceDescriptor<'a>),
    Endpoint(UsbEndpointDescriptor<'a>),
    Unknown(u8),
}

/// Whether `d` is the descriptor of type `typ` made of `bytes`.
pub open spec fn descriptor_is(d: UsbDescriptor, typ: u8, bytes: Seq<u8>) -> bool {
    match d {
        UsbDescriptor::Device(x) => typ == 1 && x@ == bytes,
        UsbDescriptor::Configuration(x) => typ == 2 && x@ == bytes,
        UsbDescriptor::Interface(x) => typ == 4 && x@ == bytes,
        UsbDescriptor::Endpoint(x) => typ == 5 && x@ == bytes,
        UsbDescriptor::Unknown(t) => t == typ && typ != 1 && typ != 2 && typ != 4 && typ != 5,
    }
}

/// Walks the descriptors of a configuration: each starts with its length and type.
pub struct UsbDescriptorIterator<'a>(&'a [u8]);

impl<'a> View for UsbDescriptorIterator<'a> {
    type V = Seq<u8>;

    closed spec fn view(&self) -> Seq<u8> {
        self.0@
    }
}

impl<'a> UsbDescriptorIterator<'a> {
    /// The next descriptor, or `None` once fewer than two bytes are left. A length
    /// byte of zero yields the same descriptor again without moving on.
    pub fn next(&mut self) -> (r: Option<UsbDescriptor<'a>>)
        requires
            old(self)@.len() >= 2 ==> old(self)@[0] <= old(self)@.len(),
        ensures
            old(self)@.len() < 2 ==> r is None && final(self)@ == old(self)@,
            old(self)@.len() >= 2 ==> {
                let len = old(self)@[0] as int;
                &&& final(self)@ == old(self)@.skip(len)
                &&& r matches Some(d) && descriptor_is(d, old(self)@[1], old(self)@.take(len))
            },
    {
        if self.0.len() < 2 {
            return None;
        }

        let length = self.0[0];
        let typ = self.0[1];

        let split = self.0.split_at(length as usize);
        self.0 = split.1;
        assert(split.0@ =~= old(self)@.take(length as int));
        assert(split.1@ =~= old(self)@.skip(length as int));

        let ret = match typ {
            1 => UsbDescriptor::Device(UsbDeviceDescriptor(split.0)),
            2 => UsbDescriptor::Configuration(UsbConfigurationDescriptor(split.0)),
            4 => UsbDescriptor::Interface(UsbInterfaceDescriptor(split.0)),
            5 => UsbDescriptor::Endpoint(UsbEndpointDescriptor(split.0)),
            _ => UsbDescriptor::Unknown(typ),
        };

        Some(ret)
    }
}

/// All descriptors of a configuration, as the device sent them.
pub struct ConfigurationDescriptors(pub Vec<u8>);

impl ConfigurationDescriptors {
    /// Walks the descriptors from the first.
    pub fn iter(&self) -> (r: UsbDescriptorIterator<'_>)
        ensures
            r@ == self.0@,
    {
        UsbDescriptorIterator(self.0.as_slice())
    }
}

/// The three transactions that read `size` bytes of the configuration descriptors
/// of device `address`: the setup request, the read and the acknowledgement.
pub fn generate_get_configuration_descriptor(address: u8, size: u16) -> (r: Vec<UsbPacket>)
    ensures
        r@.len() == 3,
        r@[0].pid == Pid::Setup && r@[0].address == address && r@[0].endpoint == 0
            && !r@[0].data_toggle && r@[0].data@ == setup_bytes(
            UsbSetupRequestParams {
                pid: Pid::Setup,
                address,
                endpoint: 0,
                data_toggle: false,
                request_type: 0x80,
                request: UsbSetupRequestValue::GetDescriptor,
                value: 0x200,
                index: 0,
                length: size,
            },
        ),
        r@[1].pid == Pid::In && r@[1].address == address && r@[1].endpoint == 0
            && !r@[1].data_toggle && r@[1].data@ == Seq::new(size as nat, |i: int| 0u8),
        r@[2].pid == Pid::Out && r@[2].address == address && r@[2].endpoint == 0
            && !r@[2].data_toggle && r@[2].data@.len() == 0,
{
    let setup = UsbSetupRequestParams {
        pid: Pid::Setup,
        address,
        endpoint: 0,
        data_toggle: false,
        request_type: 0x80,
        request: UsbSetupRequestValue::GetDescriptor,
        value: UsbDescriptorType::Configuration.code() * 256,
        index: 0,
        length: size,
    };

    let setup = UsbPacket::setup(setup);

    let read = UsbPacket {
        pid: Pid::In,
        address,
        endpoint: 0,
        data_toggle: false,
        data: vec![0; size as usize],
    };
    assert(read.data@ =~= Seq::new(size as nat, |i: int| 0u8));

    let ack = UsbPacket { pid: Pid::Out, address, endpoint: 0, data_toggle: false, data: vec![] };

    vec![setup, read, ack]
}

/// The three transactions that read the 18 byte device descriptor of device `address`.
pub fn generate_get_device_descriptor(address: u8) -> (r: Vec<UsbPacket>)
    ensures
        r@.len() == 3,
        r@[0].pid == Pid::Setup && r@[0].address == address && r@[0].endpoint == 0
            && !r@[0].data_toggle && r@[0].data@ == setup_bytes(
            UsbSetupRequestParams {
                pid: Pid::Setup,
                address,
                endpoint: 0,
                data_toggle: false,
                request_type: 0x80,
                request: UsbSetupRequestValue::GetDescriptor,
                value: 0x100,
                index: 0,
                length: 18,
            },
        ),
        r@[1].pid == Pid::In && r@[1].address == address && r@[1].endpoint == 0
            && !r@[1].data_toggle && r@[1].data@ == Seq::new(18, |i: int| 0u8),
        r@[2].pid == Pid::Out && r@[2].address == address && r@[2].endpoint == 0
            && !r@[2].data_toggle && r@[2].data@.len() == 0,
{
    let descriptor_length: u16 = 18;
    let setup = UsbSetupRequestParams {
        pid: Pid::Setup,
        address,
        endpoint: 0,
        data_toggle: false,
        request_type: 0x80,
        request: UsbSetupRequestValue::GetDescriptor,
        value: UsbDescriptorType::Device.code() * 256,
        index: 0,
        length: descriptor_length,
    };

    let setup = UsbPacket::setup(setup);

    let read = UsbPacket {
        pid: Pid::In,
        address,
        endpoint: 0,
        data_toggle: false,
        data: vec![0; descriptor_length as usize],
    };
    assert(read.data@ =~= Seq::new(18, |i: int| 0u8));

    let ack = UsbPacket { pid: Pid::Out, address, endpoint: 0, data_toggle: false, data: vec![] };

    vec![setup, read, ack]
}

/// The two transactions that give the device at address zero the address `address`.
pub fn generate_set_address(address: u8) -> (r: Vec<UsbPacket>)
    ensures
        r@.len() == 2,
        r@[0].pid == Pid::Setup && r@[0].address == 0 && r@[0].endpoint == 0
            && !r@[0].data_toggle && r@[0].data@ == setup_bytes(
            UsbSetupRequestParams {
                pid: Pid::Setup,
                address: 0,
                endpoint: 0,
                data_toggle: false,
                request_type: 0,
                request: UsbSetupRequestValue::SetAddress,
                value: address as u16,
                index: 0,
                length: 0,
            },
        ),
        r@[1].pid == Pid::In && r@[1].address == 0 && r@[1].endpoint == 0 && r@[1].data_toggle
            && r@[1].data@.len() == 0,
{
    let address_params = UsbSetupRequestParams {
        pid: Pid::Setup,
        address: 0,
        endpoint: 0,
        data_toggle: false,
        request_type: 0,
        request: UsbSetupRequestValue::SetAddress,
        value: address as u16,
        index: 0,
        length: 0,
    };

    let packet = UsbPacket::setup(address_params);

    let ack = UsbPacket { pid: Pid::In, address: 0, endpoint: 0, data_toggle: true, data: vec![] };

    vec![packet, ack]
}

/// The two transactions that select configuration `config` of device `address`;
/// the acknowledgement goes to address zero.
pub fn generate_set_configuration(address: u8, config: u8) -> (r: Vec<UsbPacket>)
    ensures
        r@.len() == 2,
        r@[0].pid == Pid::Setup && r@[0].address == address && r@[0].endpoint == 0
            && !r@[0].data_toggle && r@[0].data@ == setup_bytes(
            UsbSetupRequestParams {
                pid: Pid::Setup,
                address,
                endpoint: 0,
                data_toggle: false,
                request_type: 0,
                request: UsbSetupRequestValue::SetConfiguration,
                value: config as u16,
                index: 0,
                length: 0,
            },
        ),
        r@[1].pid == Pid::In && r@[1].address == 0 && r@[1].endpoint == 0 && r@[1].data_toggle
            && r@[1].data@.len() == 0,
{
    let set_configuration_params = UsbSetupRequestParams {
        pid: Pid::Setup,
        address,
        endpoint: 0,
        data_toggle: false,
        request_type: 0,
        request: UsbSetupRequestValue::SetConfiguration,
        value: config as u16,
        index: 0,
        length: 0,
    };

    let packet = UsbPacket::setup(set_configuration_params);

    let ack = UsbPacket { pid: Pid::In, address: 0, endpoint: 0, data_toggle: true, data: vec![] };

    vec![packet, ack]
}

} // verus!
