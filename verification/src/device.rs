//! The emulated USB device: its identity, its endpoints and interfaces, its
//! string table and the handlers plugged into it.

use crate::descriptor::{interface_blocks, HEADER_LEN};
use crate::endpoint::UsbEndpoint;
use crate::interface::{InterfaceModel, UsbInterface};
use crate::util::descriptor_chain;
use vstd::prelude::*;
use vstd::utf8::encode_utf8;

verus! {

/// Longest bus id, in bytes, that fits the 32-byte field of a device record
/// together with its terminating zero.
pub const BUS_ID_MAX: usize = 31;

/// Longest path, in bytes, that fits the 256-byte field of a device record
/// together with its terminating zero.
pub const PATH_MAX: usize = 255;

/// A USB device served over USB/IP.
///
/// `H` is the type of the interface handlers, one per interface and in the
/// same order as `interfaces`; `D` is the type of the optional device handler.
/// String descriptor `i`, for `i >= 1`, is `strings[i - 1]`; index zero is the
/// table of language ids.
pub struct UsbDevice<H, D> {
    pub path: String,
    pub bus_id: String,
    pub bus_num: u32,
    pub dev_num: u32,
    pub speed: u32,
    pub vendor_id: u16,
    pub product_id: u16,
    pub device_class: u8,
    pub device_subclass: u8,
    pub device_protocol: u8,
    /// bcdDevice, binary-coded decimal.
    pub device_bcd: u16,
    /// bcdUSB, binary-coded decimal.
    pub usb_version: u16,
    pub configuration_value: u8,
    pub num_configurations: u8,
    pub ep0_in: UsbEndpoint,
    pub ep0_out: UsbEndpoint,
    pub interfaces: Vec<UsbInterface>,
    pub handlers: Vec<H>,
    pub device_handler: Option<D>,
    pub strings: Vec<String>,
    pub string_manufacturer: u8,
    pub string_product: u8,
    pub string_serial: u8,
}

/// The mathematical content of a [`UsbDevice`]: everything but the handlers
/// themselves.
pub struct DeviceModel {
    pub path: Seq<char>,
    pub bus_id: Seq<char>,
    pub bus_num: u32,
    pub dev_num: u32,
    pub speed: u32,
    pub vendor_id: u16,
    pub product_id: u16,
    pub device_class: u8,
    pub device_subclass: u8,
    pub device_protocol: u8,
    pub device_bcd: u16,
    pub usb_version: u16,
    pub configuration_value: u8,
    pub num_configurations: u8,
    pub ep0_in: UsbEndpoint,
    pub ep0_out: UsbEndpoint,
    pub interfaces: Seq<InterfaceModel>,
    pub strings: Seq<Seq<char>>,
    pub string_manufacturer: u8,
    pub string_product: u8,
    pub string_serial: u8,
    /// How many interface handlers are plugged in.
    pub handlers: nat,
    pub has_device_handler: bool,
}

/// The models of a sequence of interfaces.
pub open spec fn interface_models(s: Seq<UsbInterface>) -> Seq<InterfaceModel> {
    Seq::new(s.len(), |i: int| s[i]@)
}

/// The contents of a sequence of strings.
pub open spec fn string_models(s: Seq<String>) -> Seq<Seq<char>> {
    Seq::new(s.len(), |i: int| s[i]@)
}

impl<H, D> View for UsbDevice<H, D> {
    type V = DeviceModel;

    open spec fn view(&self) -> DeviceModel {
        DeviceModel {
            path: self.path@,
            bus_id: self.bus_id@,
            bus_num: self.bus_num,
            dev_num: self.dev_num,
            speed: self.speed,
            vendor_id: self.vendor_id,
            product_id: self.product_id,
            device_class: self.device_class,
            device_subclass: self.device_subclass,
            device_protocol: self.device_protocol,
            device_bcd: self.device_bcd,
            usb_version: self.usb_version,
            configuration_value: self.configuration_value,
            num_configurations: self.num_configurations,
            ep0_in: self.ep0_in,
            ep0_out: self.ep0_out,
            interfaces: interface_models(self.interfaces@),
            strings: string_models(self.strings@),
            string_manufacturer: self.string_manufacturer,
            string_product: self.string_product,
            string_serial: self.string_serial,
            handlers: self.handlers@.len(),
            has_device_handler: self.device_handler is Some,
        }
    }
}

impl DeviceModel {
    /// The two halves of endpoint zero are control endpoints at the addresses
    /// 0x80 and 0x00, with one packet size that fits `bMaxPacketSize0`.
    pub open spec fn ep0_ok(self) -> bool {
        &&& self.ep0_in == UsbEndpoint::control(0x80, self.ep0_in.max_packet_size)
        &&& self.ep0_out == UsbEndpoint::control(0x00, self.ep0_in.max_packet_size)
        &&& self.ep0_in.max_packet_size <= 255
    }

    /// The path and the bus id fit their fields in a device record.
    pub open spec fn names_fit(self) -> bool {
        &&& encode_utf8(self.path).len() <= PATH_MAX
        &&& encode_utf8(self.bus_id).len() <= BUS_ID_MAX
    }

    /// The configuration descriptor can be built as a chain: at most 255
    /// interfaces with at most 255 endpoints each, class-specific descriptors
    /// that are chains themselves, and a total length that fits 16 bits.
    pub open spec fn descriptors_ok(self) -> bool {
        &&& self.interfaces.len() <= 255
        &&& forall|i: int|
            0 <= i < self.interfaces.len() ==> (#[trigger] self.interfaces[i]).endpoints.len()
                <= 255
        &&& forall|i: int|
            0 <= i < self.interfaces.len() ==> descriptor_chain(
                (#[trigger] self.interfaces[i]).class_specific_descriptor,
            )
        &&& HEADER_LEN + interface_blocks(self.interfaces).len() <= 0xFFFF
    }

    /// The active configuration is one of the configurations of the device.
    pub open spec fn configured(self) -> bool {
        1 <= self.configuration_value <= self.num_configurations
    }

    /// `(i, j)` is the first place, interface by interface, where an endpoint
    /// with the address `address` is found.
    pub open spec fn first_endpoint_at(self, address: u8, i: int, j: int) -> bool {
        &&& 0 <= i < self.interfaces.len()
        &&& self.interfaces[i].first_endpoint_at(address, j)
        &&& forall|k: int| 0 <= k < i ==> !(#[trigger] self.interfaces[k]).has_endpoint(address)
    }

    /// Some interface has an endpoint with the address `address`.
    pub open spec fn has_interface_endpoint(self, address: u8) -> bool {
        exists|i: int|
            0 <= i < self.interfaces.len() && (#[trigger] self.interfaces[i]).has_endpoint(address)
    }

    /// The first place where an endpoint with the address `address` is
    /// found, where there is one.
    pub open spec fn first_endpoint(self, address: u8) -> (int, int) {
        choose|i: int, j: int| self.first_endpoint_at(address, i, j)
    }

    /// The endpoint with the address `address` and the interface that owns
    /// it, or no interface for the two halves of endpoint zero, which belong
    /// to the device itself. Endpoint zero is looked at first, in before
    /// out, then the interfaces in order.
    pub open spec fn find_ep(self, address: u8) -> Option<(UsbEndpoint, Option<usize>)> {
        if address == self.ep0_in.address {
            Some((self.ep0_in, None))
        } else if address == self.ep0_out.address {
            Some((self.ep0_out, None))
        } else if self.has_interface_endpoint(address) {
            let (i, j) = self.first_endpoint(address);
            Some((self.interfaces[i].endpoints[j], Some(i as usize)))
        } else {
            None
        }
    }

    /// There is at most one first place for an address.
    pub proof fn lemma_first_endpoint_unique(self, address: u8, i: int, j: int, k: int, l: int)
        requires
            self.first_endpoint_at(address, i, j),
            self.first_endpoint_at(address, k, l),
        ensures
            i == k,
            j == l,
    {
        if i < k {
            assert(self.interfaces[i].has_endpoint(address));
        }
        if k < i {
            assert(self.interfaces[k].has_endpoint(address));
        }
    }

    /// The same device with another active configuration.
    pub open spec fn with_configuration(self, value: u8) -> DeviceModel {
        DeviceModel { configuration_value: value, ..self }
    }
}

impl<H, D> UsbDevice<H, D> {
    /// Looks an endpoint up by its address, direction bit included.
    pub fn find_ep(&self, address: u8) -> (r: Option<(UsbEndpoint, Option<usize>)>)
        ensures
            r == self@.find_ep(address),
            r matches Some((ep, Some(i))) ==> i < self.interfaces@.len()
                && self.interfaces@[i as int]@.has_endpoint(address) && ep.address == address,
    {
        if address == self.ep0_in.address {
            return Some((self.ep0_in, None));
        }
        if address == self.ep0_out.address {
            return Some((self.ep0_out, None));
        }
        let mut i: usize = 0;
        while i < self.interfaces.len()
            invariant
                i <= self.interfaces@.len(),
                address != self.ep0_in.address,
                address != self.ep0_out.address,
                forall|k: int|
                    0 <= k < i ==> !(#[trigger] self@.interfaces[k]).has_endpoint(address),
            decreases self.interfaces@.len() - i,
        {
            match self.interfaces[i].endpoint_index(address) {
                Some(j) => {
                    proof {
                        let d = self@;
                        assert(d.interfaces[i as int] == self.interfaces@[i as int]@);
                        assert(d.first_endpoint_at(address, i as int, j as int));
                        assert(d.interfaces[i as int].has_endpoint(address));
                        assert(d.has_interface_endpoint(address));
                        let (k, l) = d.first_endpoint(address);
                        d.lemma_first_endpoint_unique(address, i as int, j as int, k, l);
                        let found = self.interfaces@[i as int].endpoints@[j as int];
                        assert(d.interfaces[k].endpoints[l] == found);

                    }
                    return Some((self.interfaces[i].endpoints[j], Some(i)));
                },
                None => {
                    assert(self@.interfaces[i as int] == self.interfaces@[i as int]@);
                },
            }
            i += 1;
        }
        None
    }
}

} // verus!
