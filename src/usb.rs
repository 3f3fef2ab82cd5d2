//! USB descriptor records, the lazy decoder of descriptor chains, and the
//! choice of an interface by its (class, subclass, protocol) triple.
use vstd::prelude::*;

verus! {

use crate::bytes::{le_u16_at, read_u16};
use crate::error::Error;

/// Descriptor type tags of the USB wire format.
#[derive(Clone, Copy, Debug, PartialEq, Eq, Structural)]
pub enum UsbDescriptorType {
    Device,
    Config,
    String,
    Interface,
    Endpoint,
    Hid,
    Report,
}

pub open spec fn descriptor_type_code(t: UsbDescriptorType) -> u8 {
    match t {
        UsbDescriptorType::Device => 1,
        UsbDescriptorType::Config => 2,
        UsbDescriptorType::String => 3,
        UsbDescriptorType::Interface => 4,
        UsbDescriptorType::Endpoint => 5,
        UsbDescriptorType::Hid => 0x21,
        UsbDescriptorType::Report => 0x22,
    }
}

impl UsbDescriptorType {
    /// The tag byte that stands for this type on the wire.
    pub fn code(&self) -> (r: u8)
        ensures
            r == descriptor_type_code(*self),
    {
        match self {
            UsbDescriptorType::Device => 1,
            UsbDescriptorType::Config => 2,
            UsbDescriptorType::String => 3,
            UsbDescriptorType::Interface => 4,
            UsbDescriptorType::Endpoint => 5,
            UsbDescriptorType::Hid => 0x21,
            UsbDescriptorType::Report => 0x22,
        }
    }
}

/// HID protocols selectable by a Set_Protocol request.
#[derive(Clone, Copy, Debug, PartialEq, Eq, Structural)]
pub enum UsbHidProtocol {
    BootProtocol,
}

impl UsbHidProtocol {
    /// The protocol number sent in the request.
    pub fn code(&self) -> (r: u8)
        ensures
            r == 0,
    {
        match self {
            UsbHidProtocol::BootProtocol => 0,
        }
    }
}

/// Device descriptor: 18 bytes.
#[derive(Clone, Copy, Debug, PartialEq, Eq, Structural)]
pub struct UsbDeviceDescriptor {
    pub desc_length: u8,
    pub desc_type: u8,
    pub version: u16,
    pub device_class: u8,
    pub device_subclass: u8,
    pub device_protocol: u8,
    pub max_packet_size: u8,
    pub vendor_id: u16,
    pub product_id: u16,
    pub device_version: u16,
    pub manufacturer_idx: u8,
    pub product_idx: u8,
    pub serial_idx: u8,
    pub num_of_config: u8,
}

pub open spec fn device_descriptor_of(b: Seq<u8>) -> UsbDeviceDescriptor {
    UsbDeviceDescriptor {
        desc_length: b[0],
        desc_type: b[1],
        version: le_u16_at(b, 2),
        device_class: b[4],
        device_subclass: b[5],
        device_protocol: b[6],
        max_packet_size: b[7],
        vendor_id: le_u16_at(b, 8),
        product_id: le_u16_at(b, 10),
        device_version: le_u16_at(b, 12),
        manufacturer_idx: b[14],
        product_idx: b[15],
        serial_idx: b[16],
        num_of_config: b[17],
    }
}

impl UsbDeviceDescriptor {
    /// Decodes the record from the first 18 bytes of `b`.
    pub fn from_bytes(b: &[u8]) -> (r: Result<UsbDeviceDescriptor, Error>)
        ensures
            b@.len() >= 18 ==> r == Ok::<UsbDeviceDescriptor, Error>(device_descriptor_of(b@)),
            b@.len() < 18 ==> r == Err::<UsbDeviceDescriptor, Error>(Error::TooShort),
    {
        if b.len() < 18 {
            return Err(Error::TooShort);
        }
        Ok(UsbDeviceDescriptor {
            desc_length: b[0],
            desc_type: b[1],
            version: read_u16(b, 2),
            device_class: b[4],
            device_subclass: b[5],
            device_protocol: b[6],
            max_packet_size: b[7],
            vendor_id: read_u16(b, 8),
            product_id: read_u16(b, 10),
            device_version: read_u16(b, 12),
            manufacturer_idx: b[14],
            product_idx: b[15],
            serial_idx: b[16],
            num_of_config: b[17],
        })
    }
}

/// Configuration descriptor: 9 bytes, followed on the wire by the rest of
/// the configuration's chain.
#[derive(Clone, Copy, Debug, PartialEq, Eq, Structural)]
pub struct ConfigDescriptor {
    pub desc_length: u8,
    pub desc_type: u8,
    pub total_length: u16,
    pub num_of_interfaces: u8,
    pub config_value: u8,
    pub config_string_index: u8,
    pub attribute: u8,
    pub max_power: u8,
}

pub open spec fn config_descriptor_of(b: Seq<u8>) -> ConfigDescriptor {
    ConfigDescriptor {
        desc_length: b[0],
        desc_type: b[1],
        total_length: le_u16_at(b, 2),
        num_of_interfaces: b[4],
        config_value: b[5],
        config_string_index: b[6],
        attribute: b[7],
        max_power: b[8],
    }
}

impl ConfigDescriptor {
    /// Decodes the record from the first 9 bytes of `b`.
    pub fn from_bytes(b: &[u8]) -> (r: Result<ConfigDescriptor, Error>)
        ensures
            b@.len() >= 9 ==> r == Ok::<ConfigDescriptor, Error>(config_descriptor_of(b@)),
            b@.len() < 9 ==> r == Err::<ConfigDescriptor, Error>(Error::TooShort),
    {
        if b.len() < 9 {
            return Err(Error::TooShort);
        }
        Ok(ConfigDescriptor {
            desc_length: b[0],
            desc_type: b[1],
            total_length: read_u16(b, 2),
            num_of_interfaces: b[4],
            config_value: b[5],
            config_string_index: b[6],
            attribute: b[7],
            max_power: b[8],
        })
    }

    /// The length of the whole chain this record heads.
    pub fn total_length(&self) -> (r: usize)
        ensures
            r == self.total_length,
    {
        self.total_length as usize
    }

    pub fn config_value(&self) -> (r: u8)
        ensures
            r == self.config_value,
    {
        self.config_value
    }
}

/// Interface descriptor: 9 bytes.
#[derive(Clone, Copy, Debug, PartialEq, Eq, Structural)]
pub struct InterfaceDescriptor {
    pub desc_length: u8,
    pub desc_type: u8,
    pub interface_number: u8,
    pub alt_setting: u8,
    pub num_of_endpoints: u8,
    pub interface_class: u8,
    pub interface_subclass: u8,
    pub interface_protocol: u8,
    pub interface_index: u8,
}

pub open spec fn interface_descriptor_of(b: Seq<u8>) -> InterfaceDescriptor {
    InterfaceDescriptor {
        desc_length: b[0],
        desc_type: b[1],
        interface_number: b[2],
        alt_setting: b[3],
        num_of_endpoints: b[4],
        interface_class: b[5],
        interface_subclass: b[6],
        interface_protocol: b[7],
        interface_index: b[8],
    }
}

impl InterfaceDescriptor {
    pub open spec fn spec_triple(&self) -> (u8, u8, u8) {
        (self.interface_class, self.interface_subclass, self.interface_protocol)
    }

    /// Decodes the record from the first 9 bytes of `b`.
    pub fn from_bytes(b: &[u8]) -> (r: Result<InterfaceDescriptor, Error>)
        ensures
            b@.len() >= 9 ==> r == Ok::<InterfaceDescriptor, Error>(interface_descriptor_of(b@)),
            b@.len() < 9 ==> r == Err::<InterfaceDescriptor, Error>(Error::TooShort),
    {
        if b.len() < 9 {
            return Err(Error::TooShort);
        }
        Ok(InterfaceDescriptor {
            desc_length: b[0],
            desc_type: b[1],
            interface_number: b[2],
            alt_setting: b[3],
            num_of_endpoints: b[4],
            interface_class: b[5],
            interface_subclass: b[6],
            interface_protocol: b[7],
            interface_index: b[8],
        })
    }

    /// The (class, subclass, protocol) key that drivers match on.
    pub fn triple(&self) -> (r: (u8, u8, u8))
        ensures
            r == self.spec_triple(),
    {
        (self.interface_class, self.interface_subclass, self.interface_protocol)
    }
}

/// Endpoint descriptor: 7 bytes.
#[derive(Clone, Copy, Debug, PartialEq, Eq, Structural)]
pub struct EndpointDescriptor {
    pub desc_length: u8,
    pub desc_type: u8,
    /// Bits 0..=3: endpoint number; bit 7: direction (1 is in).
    pub endpoint_address: u8,
    /// Bits 0..=1: transfer type (control, isochronous, bulk, interrupt).
    pub attributes: u8,
    pub max_packet_size: u16,
    pub interval: u8,
}

pub open spec fn endpoint_descriptor_of(b: Seq<u8>) -> EndpointDescriptor {
    EndpointDescriptor {
        desc_length: b[0],
        desc_type: b[1],
        endpoint_address: b[2],
        attributes: b[3],
        max_packet_size: le_u16_at(b, 4),
        interval: b[6],
    }
}

impl EndpointDescriptor {
    /// Decodes the record from the first 7 bytes of `b`.
    pub fn from_bytes(b: &[u8]) -> (r: Result<EndpointDescriptor, Error>)
        ensures
            b@.len() >= 7 ==> r == Ok::<EndpointDescriptor, Error>(endpoint_descriptor_of(b@)),
            b@.len() < 7 ==> r == Err::<EndpointDescriptor, Error>(Error::TooShort),
    {
        if b.len() < 7 {
            return Err(Error::TooShort);
        }
        Ok(EndpointDescriptor {
            desc_length: b[0],
            desc_type: b[1],
            endpoint_address: b[2],
            attributes: b[3],
            max_packet_size: read_u16(b, 4),
            interval: b[6],
        })
    }
}

/// HID class descriptor: 9 bytes.
#[derive(Clone, Copy, Debug, PartialEq, Eq, Structural)]
pub struct HidDescriptor {
    pub desc_length: u8,
    pub desc_type: u8,
    pub hid_release: u16,
    pub country_code: u8,
    pub num_descriptors: u8,
    pub descriptor_type: u8,
    pub report_descriptor_length: u16,
}

pub open spec fn hid_descriptor_of(b: Seq<u8>) -> HidDescriptor {
    HidDescriptor {
        desc_length: b[0],
        desc_type: b[1],
        hid_release: le_u16_at(b, 2),
        country_code: b[4],
        num_descriptors: b[5],
        descriptor_type: b[6],
        report_descriptor_length: le_u16_at(b, 7),
    }
}

impl HidDescriptor {
    /// Decodes the record from the first 9 bytes of `b`.
    pub fn from_bytes(b: &[u8]) -> (r: Result<HidDescriptor, Error>)
        ensures
            b@.len() >= 9 ==> r == Ok::<HidDescriptor, Error>(hid_descriptor_of(b@)),
            b@.len() < 9 ==> r == Err::<HidDescriptor, Error>(Error::TooShort),
    {
        if b.len() < 9 {
            return Err(Error::TooShort);
        }
        Ok(HidDescriptor {
            desc_length: b[0],
            desc_type: b[1],
            hid_release: read_u16(b, 2),
            country_code: b[4],
            num_descriptors: b[5],
            descriptor_type: b[6],
            report_descriptor_length: read_u16(b, 7),
        })
    }
}

/// One decoded record of a descriptor chain.
#[derive(Clone, Copy, Debug, PartialEq, Eq, Structural)]
pub enum UsbDescriptor {
    Config(ConfigDescriptor),
    Endpoint(EndpointDescriptor),
    Interface(InterfaceDescriptor),
    Hid(HidDescriptor),
    Unknown { desc_len: u8, desc_type: u8 },
}

/// The record at the front of `rest`, or `None` when it cannot be decoded:
/// fewer than two bytes, a declared length of zero, or a known type whose
/// fixed record does not fit in `rest`.
pub open spec fn record_of(rest: Seq<u8>) -> Option<UsbDescriptor> {
    if rest.len() < 2 || rest[0] == 0 {
        None
    } else if rest[1] == 2 {
        if rest.len() >= 9 { Some(UsbDescriptor::Config(config_descriptor_of(rest))) } else { None }
    } else if rest[1] == 4 {
        if rest.len() >= 9 { Some(UsbDescriptor::Interface(interface_descriptor_of(rest))) } else { None }
    } else if rest[1] == 5 {
        if rest.len() >= 7 { Some(UsbDescriptor::Endpoint(endpoint_descriptor_of(rest))) } else { None }
    } else if rest[1] == 0x21 {
        if rest.len() >= 9 { Some(UsbDescriptor::Hid(hid_descriptor_of(rest))) } else { None }
    } else {
        Some(UsbDescriptor::Unknown { desc_len: rest[0], desc_type: rest[1] })
    }
}

/// Where the cursor goes after the record at `i`: forward by its declared
/// length.
pub open spec fn next_cursor(buf: Seq<u8>, i: int) -> int {
    i + buf[i]
}

/// The records decoded from cursor `i` on, and whether decoding reached the
/// end of the buffer (`false`: a record failed to decode and ended it).
pub open spec fn chain_from(buf: Seq<u8>, i: int) -> (Seq<UsbDescriptor>, bool)
    decreases buf.len() + 256 - i,
{
    if i < 0 || i >= buf.len() {
        (Seq::empty(), true)
    } else {
        match record_of(buf.subrange(i, buf.len() as int)) {
            None => (Seq::empty(), false),
            Some(d) => {
                let rest = chain_from(buf, next_cursor(buf, i));
                (seq![d].add(rest.0), rest.1)
            },
        }
    }
}

/// Decodes the record at the front of `rest`.
fn decode_record(rest: &[u8]) -> (r: Option<UsbDescriptor>)
    ensures
        r == record_of(rest@),
{
    if rest.len() < 2 || rest[0] == 0 {
        return None;
    }
    let desc_len = rest[0];
    let desc_type = rest[1];
    if desc_type == UsbDescriptorType::Config.code() {
        match ConfigDescriptor::from_bytes(rest) {
            Ok(d) => Some(UsbDescriptor::Config(d)),
            Err(_) => None,
        }
    } else if desc_type == UsbDescriptorType::Interface.code() {
        match InterfaceDescriptor::from_bytes(rest) {
            Ok(d) => Some(UsbDescriptor::Interface(d)),
            Err(_) => None,
        }
    } else if desc_type == UsbDescriptorType::Endpoint.code() {
        match EndpointDescriptor::from_bytes(rest) {
            Ok(d) => Some(UsbDescriptor::Endpoint(d)),
            Err(_) => None,
        }
    } else if desc_type == UsbDescriptorType::Hid.code() {
        match HidDescriptor::from_bytes(rest) {
            Ok(d) => Some(UsbDescriptor::Hid(d)),
            Err(_) => None,
        }
    } else {
        Some(UsbDescriptor::Unknown { desc_len, desc_type })
    }
}

/// A cursor over a descriptor chain: back-to-back records, each led by its
/// length and type bytes.
pub struct DescriptorIterator<'a> {
    buf: &'a [u8],
    index: usize,
}

impl<'a> DescriptorIterator<'a> {
    pub closed spec fn buffer(&self) -> Seq<u8> {
        self.buf@
    }

    pub closed spec fn cursor(&self) -> nat {
        self.index as nat
    }

    /// What the iterator has still to yield, and whether it will reach the
    /// end of the buffer.
    pub open spec fn remaining(&self) -> (Seq<UsbDescriptor>, bool) {
        chain_from(self.buffer(), self.cursor() as int)
    }

    /// The buffer is no longer than a slice can be, and the cursor is at most
    /// one record's length past its end.
    pub open spec fn wf(&self) -> bool {
        self.buffer().len() <= isize::MAX && self.cursor() <= self.buffer().len() + 255
    }

    pub fn new(buf: &'a [u8]) -> (r: DescriptorIterator<'a>)
        requires
            buf@.len() <= isize::MAX,
        ensures
            r.wf(),
            r.buffer() == buf@,
            r.cursor() == 0,
            r.remaining() == chain_from(buf@, 0),
    {
        DescriptorIterator { buf, index: 0 }
    }

    /// The offset of the next record.
    pub fn position(&self) -> (r: usize)
        ensures
            r == self.cursor(),
    {
        self.index
    }

    /// Decodes the record at the cursor and moves the cursor on by the
    /// record's declared length. Returns `None`, and leaves the cursor where
    /// it is, once the cursor is at or past the end of the buffer or where a
    /// record cannot be decoded.
    pub fn next(&mut self) -> (r: Option<UsbDescriptor>)
        requires
            old(self).wf(),
        ensures
            final(self).wf(),
            final(self).buffer() == old(self).buffer(),
            ({
                let buf = old(self).buffer();
                let i = old(self).cursor() as int;
                if i >= buf.len() {
                    r is None && final(self).cursor() == i
                } else {
                    r == record_of(buf.subrange(i, buf.len() as int)) && (r is Some
                        ==> final(self).cursor() == next_cursor(buf, i)) && (r is None
                        ==> final(self).cursor() == i)
                }
            }),
            r matches Some(d) ==> old(self).remaining().0 == seq![d] + final(self).remaining().0
                && old(self).remaining().1 == final(self).remaining().1,
            r is None ==> old(self).remaining().0.len() == 0 && final(self).cursor() == old(
                self,
            ).cursor(),
    {
        if self.index >= self.buf.len() {
            return None;
        }
        let rest = vstd::slice::slice_subrange(self.buf, self.index, self.buf.len());
        let r = decode_record(rest);
        if let Some(d) = r {
            self.index = self.index + rest[0] as usize;
        }
        r
    }
}

/// The cursor at which decoding from `i` on stops: at or past the end of the
/// buffer, or at the first record that cannot be decoded.
pub open spec fn chain_stop(buf: Seq<u8>, i: int) -> int
    decreases buf.len() + 256 - i,
{
    if i < 0 || i >= buf.len() {
        i
    } else {
        match record_of(buf.subrange(i, buf.len() as int)) {
            None => i,
            Some(d) => chain_stop(buf, next_cursor(buf, i)),
        }
    }
}

/// From `i` on, `buf` is a well-formed chain: records back to back, each
/// one decodable and its declared length ending at or before the end of the
/// buffer, the last one ending exactly there.
pub open spec fn well_formed_chain(buf: Seq<u8>, i: int) -> bool
    decreases buf.len() + 256 - i,
{
    if i == buf.len() {
        true
    } else if 0 <= i < buf.len() && record_of(buf.subrange(i, buf.len() as int)) is Some
        && next_cursor(buf, i) <= buf.len() {
        well_formed_chain(buf, next_cursor(buf, i))
    } else {
        false
    }
}

/// The number of records of a well-formed chain from `i` on.
pub open spec fn record_count(buf: Seq<u8>, i: int) -> nat
    decreases buf.len() + 256 - i,
{
    if 0 <= i < buf.len() && buf[i] > 0 {
        1 + record_count(buf, next_cursor(buf, i))
    } else {
        0
    }
}

/// Decoding a well-formed chain succeeds, yields one record per record of
/// the chain, each decoded from the bytes where it starts, and stops with the
/// cursor exactly at the end of the buffer.
pub proof fn lemma_well_formed_chain_decodes_to_end(buf: Seq<u8>, i: int)
    requires
        well_formed_chain(buf, i),
    ensures
        chain_from(buf, i).1,
        chain_stop(buf, i) == buf.len(),
        chain_from(buf, i).0.len() == record_count(buf, i),
        0 <= i < buf.len() ==> chain_from(buf, i).0[0] == record_of(
            buf.subrange(i, buf.len() as int),
        )->Some_0,
    decreases buf.len() + 256 - i,
{
    if i < buf.len() {
        lemma_well_formed_chain_decodes_to_end(buf, next_cursor(buf, i));
    }
}

/// Decodes a whole descriptor chain. Fails with `TooShort` or `ZeroLength`
/// when a record cannot be decoded: a truncated chain is not returned in part.
pub fn decode_descriptor_chain(buf: &[u8]) -> (r: Result<Vec<UsbDescriptor>, Error>)
    requires
        buf@.len() <= isize::MAX,
    ensures
        r is Ok <==> chain_from(buf@, 0).1,
        r matches Ok(v) ==> v@ == chain_from(buf@, 0).0,
        r is Ok ==> chain_stop(buf@, 0) >= buf@.len(),
        well_formed_chain(buf@, 0) ==> r is Ok,
        r is Err ==> (r == Err::<Vec<UsbDescriptor>, Error>(Error::ZeroLength) <==> buf@[chain_stop(
            buf@,
            0,
        )] == 0),
        r is Err ==> (r == Err::<Vec<UsbDescriptor>, Error>(Error::ZeroLength) || r == Err::<
            Vec<UsbDescriptor>,
            Error,
        >(Error::TooShort)),
{
    proof {
        if well_formed_chain(buf@, 0) {
            lemma_well_formed_chain_decodes_to_end(buf@, 0);
        }
    }
    let mut it = DescriptorIterator::new(buf);
    let mut out: Vec<UsbDescriptor> = Vec::new();
    loop
        invariant
            it.buffer() == buf@,
            it.wf(),
            well_formed_chain(buf@, 0) ==> chain_from(buf@, 0).1,
            chain_from(buf@, 0).1 == chain_from(buf@, it.cursor() as int).1,
            chain_stop(buf@, 0) == chain_stop(buf@, it.cursor() as int),
            chain_from(buf@, 0).0 == out@ + chain_from(buf@, it.cursor() as int).0,
        decreases buf@.len() + 255 - it.cursor(),
    {
        let ghost i = it.cursor() as int;
        match it.next() {
            Some(d) => {
                proof {
                    assert(out@.push(d) + chain_from(buf@, it.cursor() as int).0 =~= out@ + chain_from(buf@, i).0);
                }
                out.push(d);
            },
            None => {
                if it.position() >= buf.len() {
                    proof {
                        assert(out@ + chain_from(buf@, i).0 =~= out@);
                    }
                    return Ok(out);
                } else if buf[it.position()] == 0 {
                    return Err(Error::ZeroLength);
                } else {
                    return Err(Error::TooShort);
                }
            },
        }
    }
}

pub open spec fn is_config(d: UsbDescriptor) -> bool {
    d is Config
}

pub open spec fn matches_triple(d: UsbDescriptor, triple: (u8, u8, u8)) -> bool {
    d matches UsbDescriptor::Interface(e) && e.spec_triple() == triple
}

/// A record that is neither a configuration nor an interface.
pub open spec fn is_extra(d: UsbDescriptor) -> bool {
    !(d is Config) && !(d is Interface)
}

/// The index of the first interface from `k` on whose triple is `triple`,
/// or the length of `ds` if there is none.
pub open spec fn first_match_from(ds: Seq<UsbDescriptor>, triple: (u8, u8, u8), k: int) -> int
    decreases ds.len() - k,
{
    if k < 0 || k >= ds.len() {
        ds.len() as int
    } else if matches_triple(ds[k], triple) {
        k
    } else {
        first_match_from(ds, triple, k + 1)
    }
}

/// The index of the last configuration before `j`, or -1 if there is none.
pub open spec fn last_config_before(ds: Seq<UsbDescriptor>, j: int) -> int
    decreases j,
{
    if j <= 0 || j > ds.len() {
        -1
    } else if is_config(ds[j - 1]) {
        j - 1
    } else {
        last_config_before(ds, j - 1)
    }
}

/// The index of the first configuration from `k` on, or the length of `ds`.
pub open spec fn next_config_from(ds: Seq<UsbDescriptor>, k: int) -> int
    decreases ds.len() - k,
{
    if k < 0 || k >= ds.len() {
        ds.len() as int
    } else if is_config(ds[k]) {
        k
    } else {
        next_config_from(ds, k + 1)
    }
}

/// The records of `ds[lo..hi]` that are neither configurations nor
/// interfaces, in order.
pub open spec fn extras_between(ds: Seq<UsbDescriptor>, lo: int, hi: int) -> Seq<UsbDescriptor>
    decreases hi - lo,
{
    if hi <= lo {
        Seq::empty()
    } else if is_extra(ds[hi - 1]) {
        extras_between(ds, lo, hi - 1).push(ds[hi - 1])
    } else {
        extras_between(ds, lo, hi - 1)
    }
}

/// The first interface whose triple is `triple`, the configuration that
/// holds it, and the other records that follow it up to the next
/// configuration; `None` when no interface matches or the first match has no
/// configuration before it.
pub open spec fn picked_interface(ds: Seq<UsbDescriptor>, triple: (u8, u8, u8)) -> Option<
    (ConfigDescriptor, InterfaceDescriptor, Seq<UsbDescriptor>),
> {
    let j = first_match_from(ds, triple, 0);
    let c = last_config_before(ds, j);
    if j >= ds.len() || c < 0 {
        None
    } else {
        Some(
            (
                ds[c]->Config_0,
                ds[j]->Interface_0,
                extras_between(ds, j + 1, next_config_from(ds, j + 1)),
            ),
        )
    }
}

/// Picks the configuration and interface whose (class, subclass, protocol)
/// triple is `triple`, with the records that describe the interface.
pub fn pick_interface_with_triple(descriptors: &[UsbDescriptor], triple: (u8, u8, u8)) -> (r:
    Option<(ConfigDescriptor, InterfaceDescriptor, Vec<UsbDescriptor>)>)
    ensures
        r is None <==> picked_interface(descriptors@, triple) is None,
        r matches Some(p) ==> ({
            let q = picked_interface(descriptors@, triple)->Some_0;
            p.0 == q.0 && p.1 == q.1 && p.2@ == q.2
        }),
{
    let ghost ds = descriptors@;
    let mut config: Option<ConfigDescriptor> = None;
    let mut interface: Option<InterfaceDescriptor> = None;
    let mut desc_list: Vec<UsbDescriptor> = Vec::new();
    let ghost mut c: int = -1;
    let ghost mut j: int = 0;
    let mut i: usize = 0;
    let mut done = false;
    while i < descriptors.len() && !done
        invariant
            ds == descriptors@,
            done ==> interface is Some && i < ds.len() && is_config(ds[i as int]),
            0 <= i <= ds.len(),
            interface is None ==> first_match_from(ds, triple, 0) == first_match_from(ds, triple, i as int),
            interface is None ==> c == last_config_before(ds, i as int),
            interface is None ==> desc_list@.len() == 0,
            interface is Some ==> 0 <= j < i && first_match_from(ds, triple, 0) == j && c == last_config_before(ds, j)
                && interface == Some(ds[j]->Interface_0) && matches_triple(ds[j], triple)
                && next_config_from(ds, j + 1) == next_config_from(ds, i as int)
                && desc_list@ == extras_between(ds, j + 1, i as int),
            c < 0 ==> config is None,
            c >= 0 ==> c < ds.len() && is_config(ds[c]) && config == Some(ds[c]->Config_0),
        decreases ds.len() - i, if done { 0int } else { 1int },
    {
        let d = descriptors[i];
        match d {
            UsbDescriptor::Config(e) => {
                if interface.is_some() {
                    done = true;
                    continue;
                }
                config = Some(e);
                proof {
                    c = i as int;
                }
                desc_list.clear();
            },
            UsbDescriptor::Interface(e) => {
                let t = e.triple();
                if interface.is_none() && t.0 == triple.0 && t.1 == triple.1 && t.2 == triple.2 {
                    interface = Some(e);
                    proof {
                        j = i as int;
                    }
                }
            },
            _ => {
                if interface.is_some() {
                    desc_list.push(d);
                }
            },
        }
        i = i + 1;
    }
    match (config, interface) {
        (Some(cfg), Some(itf)) => Some((cfg, itf, desc_list)),
        _ => None,
    }
}

} // verus!
