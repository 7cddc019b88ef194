//! The 0x138-byte device record that USB/IP device lists and import replies
//! carry, all integers big-endian.

use crate::device::{DeviceModel, UsbDevice, BUS_ID_MAX, PATH_MAX};
use crate::interface::InterfaceModel;
use crate::wire::{
    be16, be16_at, be32, be32_at, copy_range, fixed_string, lemma_bytes_round_trip,
    lemma_read_back, lemma_subrange_join, padded, push_all, push_be16, push_be32, read_be16,
    read_be32,
};
use vstd::prelude::*;
use vstd::utf8::encode_utf8;

verus! {

/// Length of the path field.
pub const PATH_FIELD_LEN: usize = 256;

/// Length of the bus id field.
pub const BUS_ID_FIELD_LEN: usize = 32;

/// Length of a device record.
pub const DEVICE_RECORD_LEN: usize = 0x138;

/// A device record, field by field. `path` and `bus_id` are the raw fields,
/// padding included.
#[derive(Clone, Debug)]
pub struct DeviceRecord {
    pub path: Vec<u8>,
    pub bus_id: Vec<u8>,
    pub bus_num: u32,
    pub dev_num: u32,
    pub speed: u32,
    pub vendor_id: u16,
    pub product_id: u16,
    pub device_bcd: u16,
    pub device_class: u8,
    pub device_subclass: u8,
    pub device_protocol: u8,
    pub configuration_value: u8,
    pub num_configurations: u8,
    pub num_interfaces: u8,
}

/// The mathematical content of a [`DeviceRecord`].
pub struct RecordModel {
    pub path: Seq<u8>,
    pub bus_id: Seq<u8>,
    pub bus_num: u32,
    pub dev_num: u32,
    pub speed: u32,
    pub vendor_id: u16,
    pub product_id: u16,
    pub device_bcd: u16,
    pub device_class: u8,
    pub device_subclass: u8,
    pub device_protocol: u8,
    pub configuration_value: u8,
    pub num_configurations: u8,
    pub num_interfaces: u8,
}

impl View for DeviceRecord {
    type V = RecordModel;

    open spec fn view(&self) -> RecordModel {
        RecordModel {
            path: self.path@,
            bus_id: self.bus_id@,
            bus_num: self.bus_num,
            dev_num: self.dev_num,
            speed: self.speed,
            vendor_id: self.vendor_id,
            product_id: self.product_id,
            device_bcd: self.device_bcd,
            device_class: self.device_class,
            device_subclass: self.device_subclass,
            device_protocol: self.device_protocol,
            configuration_value: self.configuration_value,
            num_configurations: self.num_configurations,
            num_interfaces: self.num_interfaces,
        }
    }
}

impl RecordModel {
    /// The two text fields have their fixed widths.
    pub open spec fn wf(self) -> bool {
        &&& self.path.len() == PATH_FIELD_LEN
        &&& self.bus_id.len() == BUS_ID_FIELD_LEN
    }

    /// The record on the wire: path, bus id, bus number, device number,
    /// speed, vendor, product, device version, class, subclass, protocol,
    /// configuration value, number of configurations, number of interfaces.
    pub open spec fn encode(self) -> Seq<u8> {
        self.path + self.bus_id + be32(self.bus_num) + be32(self.dev_num) + be32(self.speed)
            + be16(self.vendor_id) + be16(self.product_id) + be16(self.device_bcd) + seq![
            self.device_class,
            self.device_subclass,
            self.device_protocol,
            self.configuration_value,
            self.num_configurations,
            self.num_interfaces,
        ]
    }

    /// The record held in the first 0x138 bytes of `b`.
    pub open spec fn decode(b: Seq<u8>) -> RecordModel {
        RecordModel {
            path: b.subrange(0, 256),
            bus_id: b.subrange(256, 288),
            bus_num: be32_at(b, 288),
            dev_num: be32_at(b, 292),
            speed: be32_at(b, 296),
            vendor_id: be16_at(b, 300),
            product_id: be16_at(b, 302),
            device_bcd: be16_at(b, 304),
            device_class: b[306],
            device_subclass: b[307],
            device_protocol: b[308],
            configuration_value: b[309],
            num_configurations: b[310],
            num_interfaces: b[311],
        }
    }

    /// The record that describes the device `d`: its path and bus id as
    /// zero-padded UTF-8, its number of interfaces modulo 256.
    pub open spec fn of(d: DeviceModel) -> RecordModel {
        RecordModel {
            path: padded(encode_utf8(d.path), PATH_FIELD_LEN as nat),
            bus_id: padded(encode_utf8(d.bus_id), BUS_ID_FIELD_LEN as nat),
            bus_num: d.bus_num,
            dev_num: d.dev_num,
            speed: d.speed,
            vendor_id: d.vendor_id,
            product_id: d.product_id,
            device_bcd: d.device_bcd,
            device_class: d.device_class,
            device_subclass: d.device_subclass,
            device_protocol: d.device_protocol,
            configuration_value: d.configuration_value,
            num_configurations: d.num_configurations,
            num_interfaces: (d.interfaces.len() % 256) as u8,
        }
    }

    /// A well-formed record takes 0x138 bytes, and decoding them gives the
    /// record back.
    pub proof fn lemma_decode_encode(r: RecordModel)
        requires
            r.wf(),
        ensures
            r.encode().len() == DEVICE_RECORD_LEN,
            Self::decode(r.encode()) == r,
    {
        let b = r.encode();
        let d = Self::decode(b);
        assert(b.len() == DEVICE_RECORD_LEN);
        assert(d.path =~= r.path);
        assert(d.bus_id =~= r.bus_id);
        assert(d.bus_num == r.bus_num) by {
            assert(b.subrange(288, 292) =~= be32(r.bus_num));
            lemma_read_back(b, 288, 0, r.bus_num);
        }
        assert(d.dev_num == r.dev_num) by {
            assert(b.subrange(292, 296) =~= be32(r.dev_num));
            lemma_read_back(b, 292, 0, r.dev_num);
        }
        assert(d.speed == r.speed) by {
            assert(b.subrange(296, 300) =~= be32(r.speed));
            lemma_read_back(b, 296, 0, r.speed);
        }
        assert(d.vendor_id == r.vendor_id) by {
            assert(b.subrange(300, 302) =~= be16(r.vendor_id));
            lemma_read_back(b, 300, r.vendor_id, 0);
        }
        assert(d.product_id == r.product_id) by {
            assert(b.subrange(302, 304) =~= be16(r.product_id));
            lemma_read_back(b, 302, r.product_id, 0);
        }
        assert(d.device_bcd == r.device_bcd) by {
            assert(b.subrange(304, 306) =~= be16(r.device_bcd));
            lemma_read_back(b, 304, r.device_bcd, 0);
        }
    }

    /// Decoding any 0x138 bytes gives a well-formed record, and encoding it
    /// gives the same bytes back.
    pub proof fn lemma_encode_decode(b: Seq<u8>)
        requires
            b.len() == DEVICE_RECORD_LEN,
        ensures
            Self::decode(b).wf(),
            Self::decode(b).encode() == b,
    {
        let r = Self::decode(b);
        assert(be32(r.bus_num) == b.subrange(288, 292)) by {
            lemma_bytes_round_trip(b, 288);
        }
        assert(be32(r.dev_num) == b.subrange(292, 296)) by {
            lemma_bytes_round_trip(b, 292);
        }
        assert(be32(r.speed) == b.subrange(296, 300)) by {
            lemma_bytes_round_trip(b, 296);
        }
        assert(be16(r.vendor_id) == b.subrange(300, 302)) by {
            lemma_bytes_round_trip(b, 300);
        }
        assert(be16(r.product_id) == b.subrange(302, 304)) by {
            lemma_bytes_round_trip(b, 302);
        }
        assert(be16(r.device_bcd) == b.subrange(304, 306)) by {
            lemma_bytes_round_trip(b, 304);
        }
        let tail = seq![
            r.device_class,
            r.device_subclass,
            r.device_protocol,
            r.configuration_value,
            r.num_configurations,
            r.num_interfaces,
        ];
        assert(tail =~= b.subrange(306, 312));
        lemma_subrange_join(b, 0, 256, 288);
        lemma_subrange_join(b, 0, 288, 292);
        lemma_subrange_join(b, 0, 292, 296);
        lemma_subrange_join(b, 0, 296, 300);
        lemma_subrange_join(b, 0, 300, 302);
        lemma_subrange_join(b, 0, 302, 304);
        lemma_subrange_join(b, 0, 304, 306);
        lemma_subrange_join(b, 0, 306, 312);
        assert(b.subrange(0, 312) =~= b);
    }
}

/// The record of `d` as bytes.
pub open spec fn device_record(d: DeviceModel) -> Seq<u8> {
    RecordModel::of(d).encode()
}

/// `<class> <subclass> <protocol> 00`: what a device list says of one
/// interface.
pub open spec fn interface_quad(intf: InterfaceModel) -> Seq<u8> {
    seq![intf.interface_class, intf.interface_subclass, intf.interface_protocol, 0u8]
}

/// The quads of `intfs`, in order.
pub open spec fn interface_quads(intfs: Seq<InterfaceModel>) -> Seq<u8>
    decreases intfs.len(),
{
    if intfs.len() == 0 {
        Seq::empty()
    } else {
        interface_quads(intfs.drop_last()) + interface_quad(intfs.last())
    }
}

/// The record of `d` followed by the quad of each of its interfaces.
pub open spec fn device_record_with_interfaces(d: DeviceModel) -> Seq<u8> {
    device_record(d) + interface_quads(d.interfaces)
}

/// The quads take four bytes per interface.
pub proof fn lemma_interface_quads_len(intfs: Seq<InterfaceModel>)
    ensures
        interface_quads(intfs).len() == 4 * intfs.len(),
    decreases intfs.len(),
{
    if intfs.len() > 0 {
        lemma_interface_quads_len(intfs.drop_last());
    }
}

/// The record of a device whose names fit is well formed, so it takes
/// 0x138 bytes; with the interfaces it takes four more for each.
pub proof fn lemma_device_record_len(d: DeviceModel)
    requires
        d.names_fit(),
    ensures
        RecordModel::of(d).wf(),
        device_record(d).len() == DEVICE_RECORD_LEN,
        device_record_with_interfaces(d).len() == DEVICE_RECORD_LEN + 4 * d.interfaces.len(),
{
    RecordModel::lemma_decode_encode(RecordModel::of(d));
    lemma_interface_quads_len(d.interfaces);
}

impl DeviceRecord {
    /// Reads a record from exactly 0x138 bytes; any other length is refused.
    pub fn parse(bytes: &[u8]) -> (r: Option<DeviceRecord>)
        ensures
            r is Some <==> bytes@.len() == DEVICE_RECORD_LEN,
            r matches Some(rec) ==> rec@ == RecordModel::decode(bytes@) && rec@.wf(),
    {
        if bytes.len() != DEVICE_RECORD_LEN {
            return None;
        }
        Some(
            DeviceRecord {
                path: copy_range(bytes, 0, 256),
                bus_id: copy_range(bytes, 256, 288),
                bus_num: read_be32(bytes, 288),
                dev_num: read_be32(bytes, 292),
                speed: read_be32(bytes, 296),
                vendor_id: read_be16(bytes, 300),
                product_id: read_be16(bytes, 302),
                device_bcd: read_be16(bytes, 304),
                device_class: bytes[306],
                device_subclass: bytes[307],
                device_protocol: bytes[308],
                configuration_value: bytes[309],
                num_configurations: bytes[310],
                num_interfaces: bytes[311],
            },
        )
    }

    /// Appends the record to `out`.
    pub fn write(&self, out: &mut Vec<u8>)
        ensures
            final(out)@ == old(out)@ + self@.encode(),
    {
        let ghost start = out@;
        push_all(out, self.path.as_slice());
        push_all(out, self.bus_id.as_slice());
        push_be32(out, self.bus_num);
        push_be32(out, self.dev_num);
        push_be32(out, self.speed);
        push_be16(out, self.vendor_id);
        push_be16(out, self.product_id);
        push_be16(out, self.device_bcd);
        out.push(self.device_class);
        out.push(self.device_subclass);
        out.push(self.device_protocol);
        out.push(self.configuration_value);
        out.push(self.num_configurations);
        out.push(self.num_interfaces);
        assert(out@ =~= start + self@.encode());
    }

    /// The record as bytes.
    pub fn to_bytes(&self) -> (out: Vec<u8>)
        ensures
            out@ == self@.encode(),
    {
        let mut out: Vec<u8> = Vec::new();
        self.write(&mut out);
        assert(out@ =~= self@.encode());
        out
    }
}

impl<H, D> UsbDevice<H, D> {
    /// Whether the path and the bus id fit their fields in a device record.
    pub fn names_fit(&self) -> (ok: bool)
        ensures
            ok == self@.names_fit(),
    {
        self.path.as_str().as_bytes().len() <= PATH_MAX && self.bus_id.as_str().as_bytes().len()
            <= BUS_ID_MAX
    }

    /// The device record of this device.
    pub fn record(&self) -> (r: DeviceRecord)
        requires
            self@.names_fit(),
        ensures
            r@ == RecordModel::of(self@),
            r@.wf(),
    {
        DeviceRecord {
            path: fixed_string(self.path.as_str(), PATH_FIELD_LEN),
            bus_id: fixed_string(self.bus_id.as_str(), BUS_ID_FIELD_LEN),
            bus_num: self.bus_num,
            dev_num: self.dev_num,
            speed: self.speed,
            vendor_id: self.vendor_id,
            product_id: self.product_id,
            device_bcd: self.device_bcd,
            device_class: self.device_class,
            device_subclass: self.device_subclass,
            device_protocol: self.device_protocol,
            configuration_value: self.configuration_value,
            num_configurations: self.num_configurations,
            num_interfaces: (self.interfaces.len() % 256) as u8,
        }
    }

    /// Appends the device record to `out`.
    pub fn write_dev(&self, out: &mut Vec<u8>)
        requires
            self@.names_fit(),
        ensures
            final(out)@ == old(out)@ + device_record(self@),
            final(out)@.len() == old(out)@.len() + DEVICE_RECORD_LEN,
    {
        proof {
            lemma_device_record_len(self@);
        }
        self.record().write(out);
    }

    /// Appends the device record and, for each interface, its class,
    /// subclass, protocol and a padding byte.
    pub fn write_dev_with_interfaces(&self, out: &mut Vec<u8>)
        requires
            self@.names_fit(),
        ensures
            final(out)@ == old(out)@ + device_record_with_interfaces(self@),
            final(out)@.len() == old(out)@.len() + DEVICE_RECORD_LEN + 4 * self@.interfaces.len(),
    {
        let ghost start = out@;
        proof {
            lemma_device_record_len(self@);
        }
        self.write_dev(out);
        let ghost head = out@;
        let mut i: usize = 0;
        while i < self.interfaces.len()
            invariant
                i <= self.interfaces@.len(),
                out@ == head + interface_quads(self@.interfaces.take(i as int)),
            decreases self.interfaces@.len() - i,
        {
            out.push(self.interfaces[i].interface_class);
            out.push(self.interfaces[i].interface_subclass);
            out.push(self.interfaces[i].interface_protocol);
            out.push(0);
            proof {
                let next = self@.interfaces.take(i + 1);
                assert(next.drop_last() =~= self@.interfaces.take(i as int));
                assert(next.last() == self.interfaces@[i as int]@);
                assert(out@ =~= head + interface_quads(next));
            }
            i += 1;
        }
        assert(self@.interfaces.take(i as int) =~= self@.interfaces);
        assert(out@ =~= start + device_record_with_interfaces(self@));
    }
}

} // verus!
