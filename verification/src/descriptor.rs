//! The USB descriptors of a device, bit for bit: device, configuration with
//! its interfaces and endpoints, strings, device qualifier and BOS.
//!
//! Each descriptor is defined as a sequence of bytes over the model of the
//! device; the builders produce exactly that sequence.

use crate::device::{DeviceModel, UsbDevice};
use crate::endpoint::UsbEndpoint;
use crate::interface::{InterfaceModel, UsbInterface};
use crate::util::{descriptor_chain, lemma_chain_concat, lemma_chain_single};
use crate::wire::{le16, le16_at, push_all, push_le16};
use vstd::prelude::*;
use vstd::std_specs::iter::IteratorSpec;

verus! {

/// Length of a device descriptor.
pub const DEVICE_DESCRIPTOR_LEN: usize = 18;

/// Length of a configuration descriptor without its children, and of an
/// interface descriptor.
pub const HEADER_LEN: usize = 9;

/// Length of an endpoint descriptor.
pub const ENDPOINT_DESCRIPTOR_LEN: usize = 7;

/// Most UTF-16 units a string descriptor can hold: its length byte counts
/// two header bytes and two bytes per unit.
pub const STRING_UNITS_MAX: usize = 126;

/// `desc` cut down to `limit` bytes if it is longer: what a control transfer
/// with `wLength == limit` carries of it.
pub open spec fn truncated(desc: Seq<u8>, limit: u16) -> Seq<u8> {
    if limit < desc.len() {
        desc.take(limit as int)
    } else {
        desc
    }
}

/// `12 01 <bcdUSB> <class> <subclass> <protocol> <EP0 size> <vendor>
/// <product> <bcdDevice> <iManufacturer> <iProduct> <iSerial> <nConfigs>`,
/// 16-bit numbers least significant byte first. A count or size that does
/// not fit its field, here and in the other descriptors, is reduced modulo
/// the size of the field.
pub open spec fn device_descriptor(d: DeviceModel) -> Seq<u8> {
    seq![0x12u8, 0x01u8] + le16(d.usb_version) + seq![
        d.device_class,
        d.device_subclass,
        d.device_protocol,
        (d.ep0_in.max_packet_size % 256) as u8,
    ] + le16(d.vendor_id) + le16(d.product_id) + le16(d.device_bcd) + seq![
        d.string_manufacturer,
        d.string_product,
        d.string_serial,
        d.num_configurations,
    ]
}

/// `07 05 <address> <attributes> <max packet size> <interval>`.
pub open spec fn endpoint_descriptor(ep: UsbEndpoint) -> Seq<u8> {
    seq![0x07u8, 0x05u8, ep.address, ep.attributes] + le16(ep.max_packet_size) + seq![ep.interval]
}

/// The descriptors of `eps`, in order.
pub open spec fn endpoint_descriptors(eps: Seq<UsbEndpoint>) -> Seq<u8>
    decreases eps.len(),
{
    if eps.len() == 0 {
        Seq::empty()
    } else {
        endpoint_descriptors(eps.drop_last()) + endpoint_descriptor(eps.last())
    }
}

/// `09 04 <number> 00 <nEndpoints> <class> <subclass> <protocol>
/// <iInterface>`: the alternate setting is always zero.
pub open spec fn interface_descriptor(intf: InterfaceModel, number: u8) -> Seq<u8> {
    seq![
        0x09u8,
        0x04u8,
        number,
        0x00u8,
        (intf.endpoints.len() % 256) as u8,
        intf.interface_class,
        intf.interface_subclass,
        intf.interface_protocol,
        intf.string_interface,
    ]
}

/// What one interface contributes to a configuration descriptor: its
/// interface descriptor, then its class-specific descriptors, then its
/// endpoint descriptors.
pub open spec fn interface_block(intf: InterfaceModel, number: u8) -> Seq<u8> {
    interface_descriptor(intf, number) + intf.class_specific_descriptor + endpoint_descriptors(
        intf.endpoints,
    )
}

/// The blocks of `intfs`, in order, each interface numbered by its position.
pub open spec fn interface_blocks(intfs: Seq<InterfaceModel>) -> Seq<u8>
    decreases intfs.len(),
{
    if intfs.len() == 0 {
        Seq::empty()
    } else {
        interface_blocks(intfs.drop_last()) + interface_block(
            intfs.last(),
            ((intfs.len() - 1) % 256) as u8,
        )
    }
}

/// `09 02 <wTotalLength> <nInterfaces> <configuration value> 00 80 32`: the
/// configuration descriptor without its children. The device is bus powered
/// and draws 100 mA.
pub open spec fn configuration_header(total: u16, interfaces: u8, value: u8) -> Seq<u8> {
    seq![0x09u8, 0x02u8] + le16(total) + seq![interfaces, value, 0x00u8, 0x80u8, 0x32u8]
}

/// The configuration header followed by the block of every interface.
/// `wTotalLength` is the length of the whole, children included.
pub open spec fn configuration_descriptor(d: DeviceModel) -> Seq<u8> {
    let body = interface_blocks(d.interfaces);
    configuration_header(
        ((HEADER_LEN + body.len()) % 0x1_0000) as u16,
        (d.interfaces.len() % 256) as u8,
        d.configuration_value,
    ) + body
}

/// The string descriptor at index zero: the one language id 0x0409.
pub open spec fn language_ids() -> Seq<u8> {
    seq![0x04u8, 0x03u8, 0x09u8, 0x04u8]
}

/// The UTF-16 code units of one character: itself below 0x10000, a surrogate
/// pair above.
pub open spec fn utf16_of_char(c: char) -> Seq<u16> {
    let u = c as u32;
    if u < 0x1_0000 {
        seq![u as u16]
    } else {
        seq![(0xD800 + (u - 0x1_0000) / 0x400) as u16, (0xDC00 + (u - 0x1_0000) % 0x400) as u16]
    }
}

/// The UTF-16 encoding of a string.
pub open spec fn utf16(s: Seq<char>) -> Seq<u16>
    decreases s.len(),
{
    if s.len() == 0 {
        Seq::empty()
    } else {
        utf16(s.drop_last()) + utf16_of_char(s.last())
    }
}

/// The units of `units`, each least significant byte first.
pub open spec fn le16_units(units: Seq<u16>) -> Seq<u8>
    decreases units.len(),
{
    if units.len() == 0 {
        Seq::empty()
    } else {
        le16_units(units.drop_last()) + le16(units.last())
    }
}

/// `<length> 03 <UTF-16LE text>`. The length byte is the length of the whole
/// modulo 256: it is right for texts of up to 126 units.
pub open spec fn string_descriptor(text: Seq<char>) -> Seq<u8> {
    seq![((2 + 2 * utf16(text).len()) % 256) as u8, 0x03u8] + le16_units(utf16(text))
}

/// The string descriptor at `index`: the language ids at zero, the text of
/// slot `index` where there is one, nothing elsewhere.
pub open spec fn string_at(d: DeviceModel, index: u8) -> Seq<u8> {
    if index == 0 {
        language_ids()
    } else if index <= d.strings.len() {
        string_descriptor(d.strings[index - 1])
    } else {
        Seq::empty()
    }
}

/// `0A 06 <bcdUSB> <class> <subclass> <protocol> <EP0 size> 01 00`.
pub open spec fn device_qualifier(d: DeviceModel) -> Seq<u8> {
    seq![0x0Au8, 0x06u8] + le16(d.usb_version) + seq![
        d.device_class,
        d.device_subclass,
        d.device_protocol,
        (d.ep0_in.max_packet_size % 256) as u8,
        0x01u8,
        0x00u8,
    ]
}

/// `05 0F 05 00 00`: a BOS header without capabilities.
pub open spec fn bos_descriptor() -> Seq<u8> {
    seq![0x05u8, 0x0Fu8, 0x05u8, 0x00u8, 0x00u8]
}

/// The lengths of the descriptors.
pub proof fn lemma_descriptor_lengths(d: DeviceModel, ep: UsbEndpoint, intf: InterfaceModel, n: u8)
    ensures
        device_descriptor(d).len() == DEVICE_DESCRIPTOR_LEN,
        endpoint_descriptor(ep).len() == ENDPOINT_DESCRIPTOR_LEN,
        interface_descriptor(intf, n).len() == HEADER_LEN,
        device_qualifier(d).len() == 10,
        bos_descriptor().len() == 5,
        language_ids().len() == 4,
        configuration_descriptor(d).len() == HEADER_LEN + interface_blocks(d.interfaces).len(),
        configuration_header(0, 0, 0).len() == HEADER_LEN,
{
}

/// The endpoint descriptors of `eps` take seven bytes each and form a chain.
pub proof fn lemma_endpoint_descriptors(eps: Seq<UsbEndpoint>)
    ensures
        endpoint_descriptors(eps).len() == ENDPOINT_DESCRIPTOR_LEN * eps.len(),
        descriptor_chain(endpoint_descriptors(eps)),
    decreases eps.len(),
{
    if eps.len() > 0 {
        lemma_endpoint_descriptors(eps.drop_last());
        lemma_chain_single(endpoint_descriptor(eps.last()));
        lemma_chain_concat(
            endpoint_descriptors(eps.drop_last()),
            endpoint_descriptor(eps.last()),
        );
    }
}

/// The block of an interface whose class-specific descriptors form a chain
/// is a chain.
pub proof fn lemma_interface_block_chain(intf: InterfaceModel, number: u8)
    requires
        descriptor_chain(intf.class_specific_descriptor),
    ensures
        descriptor_chain(interface_block(intf, number)),
        interface_block(intf, number).len() == HEADER_LEN + intf.class_specific_descriptor.len()
            + ENDPOINT_DESCRIPTOR_LEN * intf.endpoints.len(),
{
    lemma_endpoint_descriptors(intf.endpoints);
    lemma_chain_single(interface_descriptor(intf, number));
    lemma_chain_concat(interface_descriptor(intf, number), intf.class_specific_descriptor);
    lemma_chain_concat(
        interface_descriptor(intf, number) + intf.class_specific_descriptor,
        endpoint_descriptors(intf.endpoints),
    );
}

/// The blocks of interfaces whose class-specific descriptors form chains
/// form a chain.
pub proof fn lemma_interface_blocks_chain(intfs: Seq<InterfaceModel>)
    requires
        forall|i: int|
            0 <= i < intfs.len() ==> descriptor_chain(
                (#[trigger] intfs[i]).class_specific_descriptor,
            ),
    ensures
        descriptor_chain(interface_blocks(intfs)),
    decreases intfs.len(),
{
    if intfs.len() > 0 {
        let front = intfs.drop_last();
        assert forall|i: int| 0 <= i < front.len() implies descriptor_chain(
            (#[trigger] front[i]).class_specific_descriptor,
        ) by {
            assert(front[i] == intfs[i]);
        }
        lemma_interface_blocks_chain(front);
        lemma_interface_block_chain(intfs.last(), ((intfs.len() - 1) % 256) as u8);
        lemma_chain_concat(
            interface_blocks(front),
            interface_block(intfs.last(), ((intfs.len() - 1) % 256) as u8),
        );
    }
}

/// The bytes of `units` are two per unit.
pub proof fn lemma_le16_units_len(units: Seq<u16>)
    ensures
        le16_units(units).len() == 2 * units.len(),
    decreases units.len(),
{
    if units.len() > 0 {
        lemma_le16_units_len(units.drop_last());
    }
}

/// The total length written into a configuration descriptor is the length of
/// the descriptor, provided that length fits 16 bits.
pub proof fn lemma_total_length(d: DeviceModel)
    requires
        HEADER_LEN + interface_blocks(d.interfaces).len() <= 0xFFFF,
    ensures
        le16_at(configuration_descriptor(d), 2) == configuration_descriptor(d).len(),
{
    let c = configuration_descriptor(d);
    let total = ((HEADER_LEN + interface_blocks(d.interfaces).len()) % 0x1_0000) as u16;
    let head = configuration_header(total, (d.interfaces.len() % 256) as u8, d.configuration_value);
    assert(head.len() == HEADER_LEN);
    assert(c[2] == head[2] && c[3] == head[3]);
    assert(head[2] == le16(total)[0]);
    assert(head[3] == le16(total)[1]);
}

/// Every descriptor handed to a peer in full is a chain: the device
/// descriptor, the device qualifier, the BOS header and the language ids
/// always; the configuration descriptor of a device whose class-specific
/// descriptors are chains and whose total length fits 16 bits; a string
/// descriptor whose text has at most 126 UTF-16 units.
pub proof fn lemma_descriptors_are_chains(d: DeviceModel, text: Seq<char>)
    ensures
        descriptor_chain(device_descriptor(d)),
        descriptor_chain(device_qualifier(d)),
        descriptor_chain(bos_descriptor()),
        descriptor_chain(language_ids()),
        utf16(text).len() <= STRING_UNITS_MAX ==> descriptor_chain(string_descriptor(text)),
        d.descriptors_ok() ==> descriptor_chain(configuration_descriptor(d)),
{
    lemma_chain_single(device_descriptor(d));
    lemma_chain_single(device_qualifier(d));
    lemma_chain_single(bos_descriptor());
    lemma_chain_single(language_ids());
    if utf16(text).len() <= STRING_UNITS_MAX {
        lemma_le16_units_len(utf16(text));
        lemma_chain_single(string_descriptor(text));
    }
    if d.descriptors_ok() {
        let body = interface_blocks(d.interfaces);
        lemma_interface_blocks_chain(d.interfaces);
        let head = configuration_header(
            ((HEADER_LEN + body.len()) % 0x1_0000) as u16,
            (d.interfaces.len() % 256) as u8,
            d.configuration_value,
        );
        lemma_chain_single(head);
        lemma_chain_concat(head, body);
    }
}

/// The UTF-16 code units of one character.
pub fn utf16_units_of_char(c: char, units: &mut Vec<u16>)
    ensures
        final(units)@ == old(units)@ + utf16_of_char(c),
{
    proof {
        vstd::utf8::char_is_scalar(c);
    }
    let u: u32 = c as u32;
    if u < 0x1_0000 {
        units.push(u as u16);
        assert(units@ =~= old(units)@ + utf16_of_char(c));
    } else {
        let high: u32 = 0xD800 + (u - 0x1_0000) / 0x400;
        let low: u32 = 0xDC00 + (u - 0x1_0000) % 0x400;
        units.push(high as u16);
        units.push(low as u16);
        assert(units@ =~= old(units)@ + utf16_of_char(c));
    }
}

/// The UTF-16 code units of `s`.
pub fn utf16_units(s: &str) -> (units: Vec<u16>)
    ensures
        units@ == utf16(s@),
{
    broadcast use vstd::string::group_string_axioms;

    let mut units: Vec<u16> = Vec::new();
    let mut chars = s.chars();
    let ghost mut done: int = 0;
    assert(s@.take(0) =~= Seq::<char>::empty());
    assert(s@.skip(0) =~= s@);
    loop
        invariant
            0 <= done <= s@.len(),
            chars.remaining() == s@.skip(done),
            units@ == utf16(s@.take(done)),
        ensures
            units@ == utf16(s@),
        decreases s@.len() - done,
    {
        let ghost before = chars.remaining();
        match chars.next() {
            Some(c) => {
                utf16_units_of_char(c, &mut units);
                proof {
                    assert(before.len() > 0);
                    assert(c == s@[done]);
                    let next = s@.take(done + 1);
                    assert(next.drop_last() =~= s@.take(done));
                    assert(next.last() == c);
                    assert(s@.skip(done).drop_first() =~= s@.skip(done + 1));
                    done = done + 1;
                }
            },
            None => {
                proof {
                    assert(before.len() == 0);
                    assert(s@.take(done) =~= s@);
                }
                break;
            },
        }
    }
    units
}

/// The configuration descriptor without its children.
pub fn configuration_header_bytes(total: u16, interfaces: u8, value: u8) -> (out: Vec<u8>)
    ensures
        out@ == configuration_header(total, interfaces, value),
{
    let mut out: Vec<u8> = Vec::new();
    out.push(0x09);
    out.push(0x02);
    assert(out@ =~= seq![0x09u8, 0x02u8]);
    push_le16(&mut out, total);
    out.push(interfaces);
    out.push(value);
    out.push(0x00);
    out.push(0x80);
    out.push(0x32);
    assert(out@ =~= configuration_header(total, interfaces, value));
    out
}

/// Cuts `desc` down to `limit` bytes if it is longer.
pub fn truncate_to(desc: Vec<u8>, limit: u16) -> (out: Vec<u8>)
    ensures
        out@ == truncated(desc@, limit),
{
    let mut out = desc;
    if (limit as usize) < out.len() {
        out.truncate(limit as usize);
    }
    out
}

/// The BOS header.
pub fn bos() -> (out: Vec<u8>)
    ensures
        out@ == bos_descriptor(),
{
    let mut out: Vec<u8> = Vec::new();
    out.push(0x05);
    out.push(0x0F);
    out.push(0x05);
    out.push(0x00);
    out.push(0x00);
    assert(out@ =~= bos_descriptor());
    out
}

/// The string descriptor of the text `s`.
pub fn string_descriptor_of(s: &str) -> (out: Vec<u8>)
    ensures
        out@ == string_descriptor(s@),
{
    let units = utf16_units(s);
    let n: usize = units.len();
    let length: u128 = (2 + 2 * (n as u128)) % 256;
    let mut out: Vec<u8> = Vec::new();
    out.push(length as u8);
    out.push(0x03);
    let ghost head = out@;
    let mut i: usize = 0;
    while i < n
        invariant
            i <= n,
            n == units@.len(),
            out@ == head + le16_units(units@.take(i as int)),
        decreases n - i,
    {
        push_le16(&mut out, units[i]);
        proof {
            let next = units@.take(i + 1);
            assert(next.drop_last() =~= units@.take(i as int));
            assert(out@ =~= head + le16_units(next));
        }
        i += 1;
    }
    assert(units@.take(n as int) =~= units@);
    assert(head =~= seq![((2 + 2 * utf16(s@).len()) % 256) as u8, 0x03u8]);
    out
}

impl UsbEndpoint {
    /// The endpoint descriptor.
    pub fn descriptor(&self) -> (out: Vec<u8>)
        ensures
            out@ == endpoint_descriptor(*self),
    {
        let mut out: Vec<u8> = Vec::new();
        out.push(0x07);
        out.push(0x05);
        out.push(self.address);
        out.push(self.attributes);
        assert(out@ =~= seq![0x07u8, 0x05u8, self.address, self.attributes]);
        push_le16(&mut out, self.max_packet_size);
        out.push(self.interval);
        assert(out@ =~= endpoint_descriptor(*self));
        out
    }
}

impl UsbInterface {
    /// The interface descriptor, the class-specific descriptors and the
    /// endpoint descriptors of the interface, numbered `number`.
    pub fn descriptor_block(&self, number: u8) -> (out: Vec<u8>)
        ensures
            out@ == interface_block(self@, number),
    {
        let mut out: Vec<u8> = Vec::new();
        out.push(0x09);
        out.push(0x04);
        out.push(number);
        out.push(0x00);
        out.push((self.endpoints.len() % 256) as u8);
        out.push(self.interface_class);
        out.push(self.interface_subclass);
        out.push(self.interface_protocol);
        out.push(self.string_interface);
        assert(out@ =~= interface_descriptor(self@, number));
        push_all(&mut out, self.class_specific_descriptor.as_slice());
        let ghost head = out@;
        let mut i: usize = 0;
        while i < self.endpoints.len()
            invariant
                i <= self.endpoints@.len(),
                out@ == head + endpoint_descriptors(self.endpoints@.take(i as int)),
            decreases self.endpoints@.len() - i,
        {
            let d = self.endpoints[i].descriptor();
            push_all(&mut out, d.as_slice());
            proof {
                let next = self.endpoints@.take(i + 1);
                assert(next.drop_last() =~= self.endpoints@.take(i as int));
                assert(out@ =~= head + endpoint_descriptors(next));
            }
            i += 1;
        }
        assert(self.endpoints@.take(i as int) =~= self.endpoints@);
        out
    }
}

impl<H, D> UsbDevice<H, D> {
    /// The device descriptor.
    pub fn device_descriptor(&self) -> (out: Vec<u8>)
        ensures
            out@ == device_descriptor(self@),
            descriptor_chain(out@),
    {
        let mut out: Vec<u8> = Vec::new();
        out.push(0x12);
        out.push(0x01);
        assert(out@ =~= seq![0x12u8, 0x01u8]);
        push_le16(&mut out, self.usb_version);
        out.push(self.device_class);
        out.push(self.device_subclass);
        out.push(self.device_protocol);
        out.push((self.ep0_in.max_packet_size % 256) as u8);
        push_le16(&mut out, self.vendor_id);
        push_le16(&mut out, self.product_id);
        push_le16(&mut out, self.device_bcd);
        out.push(self.string_manufacturer);
        out.push(self.string_product);
        out.push(self.string_serial);
        out.push(self.num_configurations);
        assert(out@ =~= device_descriptor(self@));
        proof {
            lemma_descriptors_are_chains(self@, Seq::empty());
        }
        out
    }

    /// The length of the blocks of all interfaces.
    pub fn interface_blocks_len(&self) -> (n: usize)
        ensures
            n == interface_blocks(self@.interfaces).len(),
    {
        self.interface_blocks().len()
    }

    /// The blocks of all interfaces, as they follow the configuration header.
    pub fn interface_blocks(&self) -> (out: Vec<u8>)
        ensures
            out@ == interface_blocks(self@.interfaces),
    {
        let mut out: Vec<u8> = Vec::new();
        let mut i: usize = 0;
        while i < self.interfaces.len()
            invariant
                i <= self.interfaces@.len(),
                out@ == interface_blocks(self@.interfaces.take(i as int)),
            decreases self.interfaces@.len() - i,
        {
            let block = self.interfaces[i].descriptor_block((i % 256) as u8);
            push_all(&mut out, block.as_slice());
            proof {
                let next = self@.interfaces.take(i + 1);
                assert(next.drop_last() =~= self@.interfaces.take(i as int));
                assert(next.last() == self.interfaces@[i as int]@);
            }
            i += 1;
        }
        assert(self@.interfaces.take(i as int) =~= self@.interfaces);
        out
    }

    /// The configuration descriptor with all its children. For a device
    /// whose descriptors are in order it is a chain, and its total-length
    /// field holds its length.
    pub fn configuration_descriptor(&self) -> (out: Vec<u8>)
        ensures
            out@ == configuration_descriptor(self@),
            self@.descriptors_ok() ==> descriptor_chain(out@) && le16_at(out@, 2) == out@.len(),
    {
        let body = self.interface_blocks();
        let total: u128 = (HEADER_LEN as u128 + body.len() as u128) % 0x1_0000;
        let mut out = configuration_header_bytes(
            total as u16,
            (self.interfaces.len() % 256) as u8,
            self.configuration_value,
        );
        push_all(&mut out, body.as_slice());
        proof {
            if self@.descriptors_ok() {
                lemma_descriptors_are_chains(self@, Seq::empty());
                lemma_total_length(self@);
            }
        }
        out
    }

    /// The string descriptor at `index`.
    pub fn string_descriptor(&self, index: u8) -> (out: Vec<u8>)
        ensures
            out@ == string_at(self@, index),
    {
        if index == 0 {
            let mut out: Vec<u8> = Vec::new();
            out.push(0x04);
            out.push(0x03);
            out.push(0x09);
            out.push(0x04);
            assert(out@ =~= language_ids());
            out
        } else if (index as usize) <= self.strings.len() {
            string_descriptor_of(self.strings[index as usize - 1].as_str())
        } else {
            Vec::new()
        }
    }

    /// The device qualifier descriptor.
    pub fn device_qualifier(&self) -> (out: Vec<u8>)
        ensures
            out@ == device_qualifier(self@),
            descriptor_chain(out@),
    {
        let mut out: Vec<u8> = Vec::new();
        out.push(0x0A);
        out.push(0x06);
        assert(out@ =~= seq![0x0Au8, 0x06u8]);
        push_le16(&mut out, self.usb_version);
        out.push(self.device_class);
        out.push(self.device_subclass);
        out.push(self.device_protocol);
        out.push((self.ep0_in.max_packet_size % 256) as u8);
        out.push(0x01);
        out.push(0x00);
        assert(out@ =~= device_qualifier(self@));
        proof {
            lemma_descriptors_are_chains(self@, Seq::empty());
        }
        out
    }
}

} // verus!
