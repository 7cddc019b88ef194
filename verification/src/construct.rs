//! Construction of devices: an emulated device with default identity, and
//! the interfaces and strings added to it one by one. Everything built here
//! is well formed.

use crate::consts::{UsbSpeed, EP0_MAX_PACKET_SIZE};
use crate::descriptor::{
    interface_blocks, lemma_interface_block_chain, ENDPOINT_DESCRIPTOR_LEN, HEADER_LEN,
};
use crate::device::{string_models, DeviceModel, UsbDevice};
use crate::endpoint::UsbEndpoint;
use crate::interface::{InterfaceModel, UsbInterface, UsbInterfaceHandler};
use crate::util::{descriptor_chain, verify_descriptor};
use vstd::prelude::*;
use vstd::string::StringExecFns;
use vstd::utf8::{encode_utf8, is_ascii_chars, is_ascii_chars_concat, is_ascii_chars_encode_utf8};

verus! {

/// Most strings a device can hold: string indices are bytes, and index zero
/// is taken.
pub const STRINGS_MAX: usize = 255;

/// Most interfaces a device can hold.
pub const INTERFACES_MAX: usize = 255;

/// Most endpoints an interface can hold.
pub const ENDPOINTS_MAX: usize = 255;

/// Longest configuration descriptor, children included.
pub const TOTAL_LENGTH_MAX: usize = 0xFFFF;

/// Why a device cannot be built as asked.
#[derive(Clone, Copy, Debug, PartialEq, Eq, Structural)]
pub enum DeviceError {
    /// The device already holds 255 strings.
    StringsExhausted,
    /// The device already holds 255 interfaces.
    TooManyInterfaces,
    /// The interface has more than 255 endpoints.
    TooManyEndpoints,
    /// An endpoint of the interface is endpoint zero.
    EndpointZero,
    /// The class-specific descriptors of the interface are not a chain.
    BadClassDescriptor,
    /// The configuration descriptor would be longer than 65535 bytes.
    DescriptorTooLong,
}

/// The decimal digit `d`.
pub open spec fn digit(d: nat) -> char {
    (48 + d) as char
}

/// `n` in decimal, without leading zeros.
pub open spec fn decimal(n: nat) -> Seq<char>
    decreases n,
{
    if n < 10 {
        seq![digit(n)]
    } else {
        decimal(n / 10).push(digit(n % 10))
    }
}

/// Ten to the power `k`.
pub open spec fn pow10(k: nat) -> nat
    decreases k,
{
    if k == 0 {
        1
    } else {
        10 * pow10((k - 1) as nat)
    }
}

/// A number below `10^k` has at most `k` digits, all of them ASCII.
pub proof fn lemma_decimal(n: nat, k: nat)
    requires
        k >= 1,
        n < pow10(k),
    ensures
        1 <= decimal(n).len() <= k,
        is_ascii_chars(decimal(n)),
    decreases k,
{
    if n >= 10 {
        assert(pow10(1) == 10) by {
            reveal_with_fuel(pow10, 2);
        }
        assert(k >= 2);
        assert(n / 10 < pow10((k - 1) as nat));
        lemma_decimal(n / 10, (k - 1) as nat);
        let front = decimal(n / 10);
        assert forall|i: int| 0 <= i < decimal(n).len() implies '\0' <= #[trigger] decimal(n)[i]
            <= '\u{7f}' by {
            if i < front.len() {
                assert(decimal(n)[i] == front[i]);
            }
        }
    }
}

/// A 32-bit number has at most ten digits; its decimal form is ASCII, so it
/// takes as many bytes as it has digits.
pub proof fn lemma_decimal_u32(n: u32)
    ensures
        1 <= decimal(n as nat).len() <= 10,
        is_ascii_chars(decimal(n as nat)),
        encode_utf8(decimal(n as nat)).len() == decimal(n as nat).len(),
{
    assert(pow10(10) == 10_000_000_000) by {
        reveal_with_fuel(pow10, 11);
    }
    lemma_decimal(n as nat, 10);
    is_ascii_chars_encode_utf8(decimal(n as nat));
}

/// The decimal digit `d` as a string.
fn digit_str(d: u32) -> (s: &'static str)
    requires
        d < 10,
    ensures
        s@ == seq![digit(d as nat)],
{
    proof {
        reveal_strlit("0");
        reveal_strlit("1");
        reveal_strlit("2");
        reveal_strlit("3");
        reveal_strlit("4");
        reveal_strlit("5");
        reveal_strlit("6");
        reveal_strlit("7");
        reveal_strlit("8");
        reveal_strlit("9");
    }
    let s = match d {
        0 => "0",
        1 => "1",
        2 => "2",
        3 => "3",
        4 => "4",
        5 => "5",
        6 => "6",
        7 => "7",
        8 => "8",
        _ => "9",
    };
    assert(s@ =~= seq![digit(d as nat)]);
    s
}

/// `n` in decimal, without leading zeros.
pub fn decimal_string(n: u32) -> (s: String)
    ensures
        s@ == decimal(n as nat),
    decreases n,
{
    if n < 10 {
        String::from_str(digit_str(n))
    } else {
        let front = decimal_string(n / 10);
        let s = front.concat(digit_str(n % 10));
        assert(s@ =~= decimal((n / 10) as nat).push(digit((n % 10) as nat)));
        s
    }
}

/// The model of the emulated device number `index`, as `UsbDevice::new`
/// makes it: a high-speed USB 2.0 device with one configuration, active, a
/// 64-byte endpoint zero, three strings and nothing plugged in.
pub open spec fn simulated(index: u32) -> DeviceModel {
    DeviceModel {
        path: "/sys/device/usbip/"@ + decimal(index as nat),
        bus_id: decimal(index as nat),
        bus_num: 0,
        dev_num: index,
        speed: UsbSpeed::High.value(),
        vendor_id: 0,
        product_id: 0,
        device_class: 0,
        device_subclass: 0,
        device_protocol: 0,
        device_bcd: 0,
        usb_version: 0x0200,
        configuration_value: 1,
        num_configurations: 1,
        ep0_in: UsbEndpoint::control(0x80, EP0_MAX_PACKET_SIZE),
        ep0_out: UsbEndpoint::control(0x00, EP0_MAX_PACKET_SIZE),
        interfaces: Seq::empty(),
        strings: seq!["Manufacturer"@, "Product"@, "Serial"@],
        string_manufacturer: 1,
        string_product: 2,
        string_serial: 3,
        handlers: 0,
        has_device_handler: false,
    }
}

impl InterfaceModel {
    /// The interface can be part of a device: at most 255 endpoints, none
    /// of them endpoint zero, and class-specific descriptors that form a
    /// chain.
    pub open spec fn wf(self) -> bool {
        &&& self.endpoints.len() <= ENDPOINTS_MAX
        &&& self.no_ep0()
        &&& descriptor_chain(self.class_specific_descriptor)
    }
}

impl DeviceModel {
    /// The device is well formed: its names fit a device record, its
    /// endpoint zero is in order, it holds at most 255 strings, each
    /// interface is well formed and has its handler, and the configuration
    /// descriptor fits its own length field.
    pub open spec fn wf(self) -> bool {
        &&& self.names_fit()
        &&& self.ep0_ok()
        &&& self.strings.len() <= STRINGS_MAX
        &&& self.handlers == self.interfaces.len()
        &&& self.interfaces.len() <= INTERFACES_MAX
        &&& forall|i: int| 0 <= i < self.interfaces.len() ==> (#[trigger] self.interfaces[i]).wf()
        &&& HEADER_LEN + interface_blocks(self.interfaces).len() <= TOTAL_LENGTH_MAX
    }

    /// Why `intf` cannot become the next interface of the device, if it
    /// cannot.
    pub open spec fn interface_error(self, intf: InterfaceModel) -> Option<DeviceError> {
        if self.interfaces.len() >= INTERFACES_MAX {
            Some(DeviceError::TooManyInterfaces)
        } else if intf.endpoints.len() > ENDPOINTS_MAX {
            Some(DeviceError::TooManyEndpoints)
        } else if !intf.no_ep0() {
            Some(DeviceError::EndpointZero)
        } else if !descriptor_chain(intf.class_specific_descriptor) {
            Some(DeviceError::BadClassDescriptor)
        } else if HEADER_LEN + interface_blocks(self.interfaces.push(intf)).len()
            > TOTAL_LENGTH_MAX {
            Some(DeviceError::DescriptorTooLong)
        } else {
            None
        }
    }

    /// The device with one more interface and one more handler.
    pub open spec fn with_interface(self, intf: InterfaceModel) -> DeviceModel {
        DeviceModel {
            interfaces: self.interfaces.push(intf),
            handlers: self.handlers + 1,
            ..self
        }
    }

    /// The device with one more string.
    pub open spec fn with_string(self, text: Seq<char>) -> DeviceModel {
        DeviceModel { strings: self.strings.push(text), ..self }
    }

    /// A well-formed device has descriptors in order.
    pub proof fn lemma_wf_descriptors(self)
        requires
            self.wf(),
        ensures
            self.descriptors_ok(),
    {
        assert forall|i: int| 0 <= i < self.interfaces.len() implies (#[trigger] self.interfaces[i])
            .endpoints.len() <= 255 by {
            assert(self.interfaces[i].wf());
        }
        assert forall|i: int| 0 <= i < self.interfaces.len() implies descriptor_chain(
            (#[trigger] self.interfaces[i]).class_specific_descriptor,
        ) by {
            assert(self.interfaces[i].wf());
        }
    }

    /// Adding an interface that raises no objection to a well-formed device
    /// leaves it well formed.
    pub proof fn lemma_with_interface_wf(self, intf: InterfaceModel)
        requires
            self.wf(),
            self.interface_error(intf) is None,
        ensures
            self.with_interface(intf).wf(),
    {
        let after = self.with_interface(intf);
        assert forall|i: int| 0 <= i < after.interfaces.len() implies (#[trigger] after.interfaces[
            i
        ]).wf() by {
            if i < self.interfaces.len() {
                assert(after.interfaces[i] == self.interfaces[i]);
            }
        }
    }

    /// Changing the active configuration leaves a well-formed device well
    /// formed.
    pub proof fn lemma_with_configuration_wf(self, value: u8)
        requires
            self.wf(),
        ensures
            self.with_configuration(value).wf(),
    {
    }
}

/// The emulated device number `index` is well formed and configured.
pub proof fn lemma_simulated_wf(index: u32)
    ensures
        simulated(index).wf(),
        simulated(index).configured(),
{
    let d = simulated(index);
    lemma_decimal_u32(index);
    reveal_strlit("/sys/device/usbip/");
    let prefix = "/sys/device/usbip/"@;
    assert(prefix.len() == 18);
    assert(is_ascii_chars(prefix));
    is_ascii_chars_concat(d.path, prefix, decimal(index as nat));
    is_ascii_chars_encode_utf8(d.path);
    assert(interface_blocks(d.interfaces).len() == 0);
}

/// Whether any of `endpoints` is endpoint zero.
pub fn has_ep0(endpoints: &Vec<UsbEndpoint>) -> (found: bool)
    ensures
        found == exists|i: int| 0 <= i < endpoints@.len() && (#[trigger] endpoints@[i]).is_ep0(),
{
    let mut i: usize = 0;
    while i < endpoints.len()
        invariant
            i <= endpoints@.len(),
            forall|j: int| 0 <= j < i ==> !(#[trigger] endpoints@[j]).is_ep0(),
        decreases endpoints@.len() - i,
    {
        if endpoints[i].is_ep0() {
            return true;
        }
        i += 1;
    }
    false
}

impl UsbInterface {
    /// Whether the interface can be part of a device.
    pub fn is_well_formed(&self) -> (ok: bool)
        ensures
            ok == self@.wf(),
    {
        self.endpoints.len() <= ENDPOINTS_MAX && !has_ep0(&self.endpoints) && verify_descriptor(
            self.class_specific_descriptor.as_slice(),
        )
    }
}

impl<H, D> UsbDevice<H, D> {
    /// Whether the device is well formed. A device built by `new` or
    /// `from_host` and extended by the methods of this module always is;
    /// one whose fields were set by hand may not be.
    pub fn is_well_formed(&self) -> (ok: bool)
        ensures
            ok == self@.wf(),
    {
        if !self.names_fit() {
            return false;
        }
        let size: u16 = self.ep0_in.max_packet_size;
        let ep0_ok = self.ep0_in.address == 0x80 && self.ep0_in.attributes == 0
            && self.ep0_in.interval == 0 && self.ep0_out.address == 0x00
            && self.ep0_out.attributes == 0 && self.ep0_out.interval == 0
            && self.ep0_out.max_packet_size == size && size <= 255;
        if !ep0_ok {
            return false;
        }
        if self.strings.len() > STRINGS_MAX || self.handlers.len() != self.interfaces.len()
            || self.interfaces.len() > INTERFACES_MAX {
            return false;
        }
        let mut i: usize = 0;
        while i < self.interfaces.len()
            invariant
                i <= self.interfaces@.len(),
                forall|j: int| 0 <= j < i ==> (#[trigger] self@.interfaces[j]).wf(),
            decreases self.interfaces@.len() - i,
        {
            assert(self@.interfaces[i as int] == self.interfaces@[i as int]@);
            if !self.interfaces[i].is_well_formed() {
                return false;
            }
            i += 1;
        }
        HEADER_LEN as u128 + self.interface_blocks_len() as u128 <= TOTAL_LENGTH_MAX as u128
    }

    /// The emulated device number `index`, with default identity and
    /// nothing plugged in.
    pub fn new(index: u32) -> (dev: Self)
        ensures
            dev@ == simulated(index),
            dev@.wf(),
            dev@.configured(),
    {
        let digits = decimal_string(index);
        let path = String::from_str("/sys/device/usbip/").concat(digits.as_str());
        let mut strings: Vec<String> = Vec::new();
        strings.push(String::from_str("Manufacturer"));
        strings.push(String::from_str("Product"));
        strings.push(String::from_str("Serial"));
        let dev = UsbDevice {
            path,
            bus_id: digits,
            bus_num: 0,
            dev_num: index,
            speed: UsbSpeed::High.code(),
            vendor_id: 0,
            product_id: 0,
            device_class: 0,
            device_subclass: 0,
            device_protocol: 0,
            device_bcd: 0,
            usb_version: 0x0200,
            configuration_value: 1,
            num_configurations: 1,
            ep0_in: UsbEndpoint {
                address: 0x80,
                attributes: 0,
                max_packet_size: EP0_MAX_PACKET_SIZE,
                interval: 0,
            },
            ep0_out: UsbEndpoint {
                address: 0x00,
                attributes: 0,
                max_packet_size: EP0_MAX_PACKET_SIZE,
                interval: 0,
            },
            interfaces: Vec::new(),
            handlers: Vec::new(),
            device_handler: None,
            strings,
            string_manufacturer: 1,
            string_product: 2,
            string_serial: 3,
        };
        proof {
            lemma_simulated_wf(index);
            assert(dev@.interfaces =~= Seq::<InterfaceModel>::empty());
            assert(dev@.strings =~= seq!["Manufacturer"@, "Product"@, "Serial"@]);
        }
        dev
    }

    /// Stores `text` as a new string and returns its index, or nothing if
    /// the device already holds 255 strings.
    pub fn new_string(&mut self, text: &str) -> (index: Option<u8>)
        ensures
            match index {
                Some(i) => {
                    &&& old(self)@.strings.len() < STRINGS_MAX
                    &&& i == old(self)@.strings.len() + 1
                    &&& final(self)@ == old(self)@.with_string(text@)
                },
                None => old(self)@.strings.len() >= STRINGS_MAX && *final(self) == *old(self),
            },
            final(self).handlers == old(self).handlers,
            final(self).device_handler == old(self).device_handler,
            old(self)@.wf() ==> final(self)@.wf(),
    {
        if self.strings.len() >= STRINGS_MAX {
            return None;
        }
        self.strings.push(String::from_str(text));
        assert(self@.strings =~= old(self)@.strings.push(text@));
        Some(self.strings.len() as u8)
    }

    /// Whether `interface` can become the next interface of the device.
    pub fn check_interface(&self, interface: &UsbInterface) -> (r: Option<DeviceError>)
        ensures
            r == self@.interface_error(interface@),
    {
        if self.interfaces.len() >= INTERFACES_MAX {
            return Some(DeviceError::TooManyInterfaces);
        }
        if interface.endpoints.len() > ENDPOINTS_MAX {
            return Some(DeviceError::TooManyEndpoints);
        }
        if has_ep0(&interface.endpoints) {
            return Some(DeviceError::EndpointZero);
        }
        if !verify_descriptor(interface.class_specific_descriptor.as_slice()) {
            return Some(DeviceError::BadClassDescriptor);
        }
        let current: u128 = self.interface_blocks_len() as u128;
        let added: u128 = HEADER_LEN as u128 + interface.class_specific_descriptor.len() as u128
            + ENDPOINT_DESCRIPTOR_LEN as u128 * interface.endpoints.len() as u128;
        proof {
            let next = self@.interfaces.push(interface@);
            assert(next.drop_last() =~= self@.interfaces);
            lemma_interface_block_chain(interface@, ((next.len() - 1) % 256) as u8);
        }
        if HEADER_LEN as u128 + current + added > TOTAL_LENGTH_MAX as u128 {
            return Some(DeviceError::DescriptorTooLong);
        }
        None
    }

    /// Adds an interface and its handler, unless the interface cannot be
    /// part of the device as `interface_error` says; the device comes back
    /// unchanged then, with the reason.
    pub fn add_interface(&mut self, interface: UsbInterface, handler: H) -> (r: Result<
        (),
        DeviceError,
    >)
        ensures
            match old(self)@.interface_error(interface@) {
                Some(e) => r == Err::<(), DeviceError>(e) && *final(self) == *old(self),
                None => {
                    &&& r is Ok
                    &&& final(self)@ == old(self)@.with_interface(interface@)
                    &&& final(self).handlers@ == old(self).handlers@.push(handler)
                    &&& final(self).device_handler == old(self).device_handler
                    &&& old(self)@.wf() ==> final(self)@.wf()
                },
            },
    {
        match self.check_interface(&interface) {
            Some(e) => Err(e),
            None => {
                self.interfaces.push(interface);
                self.handlers.push(handler);
                proof {
                    assert(self@.interfaces =~= old(self)@.interfaces.push(interface@));
                    if old(self)@.wf() {
                        old(self)@.lemma_with_interface_wf(interface@);
                    }
                }
                Ok(())
            },
        }
    }
}

impl<H, D> UsbDevice<H, D> {
    /// Plugs in the device handler, replacing the one that was there.
    pub fn with_device_handler(self, handler: D) -> (dev: Self)
        ensures
            dev@ == (DeviceModel { has_device_handler: true, ..self@ }),
            dev.device_handler == Some(handler),
            dev.handlers == self.handlers,
            self@.wf() ==> dev@.wf(),
    {
        let mut dev = self;
        dev.device_handler = Some(handler);
        dev
    }
}

impl<H: UsbInterfaceHandler, D> UsbDevice<H, D> {
    /// Adds an interface named `name`, served by `handler`, whose
    /// class-specific descriptors are those that the handler reports.
    ///
    /// The name becomes a new string of the device. The call fails where the
    /// device has no room for the string, and where the interface, with the
    /// descriptors that the handler reported, cannot be part of the device.
    /// Which of the first four errors comes, if any, is decided by the
    /// arguments; the last two depend on what the handler reports.
    pub fn with_interface(
        self,
        interface_class: u8,
        interface_subclass: u8,
        interface_protocol: u8,
        name: &str,
        endpoints: Vec<UsbEndpoint>,
        handler: H,
    ) -> (r: Result<Self, DeviceError>)
        ensures
            r == Err::<Self, DeviceError>(DeviceError::StringsExhausted) <==> self@.strings.len()
                >= STRINGS_MAX,
            r == Err::<Self, DeviceError>(DeviceError::TooManyInterfaces) <==> self@.strings.len()
                < STRINGS_MAX && self@.interfaces.len() >= INTERFACES_MAX,
            r == Err::<Self, DeviceError>(DeviceError::TooManyEndpoints) <==> self@.strings.len()
                < STRINGS_MAX && self@.interfaces.len() < INTERFACES_MAX && endpoints@.len()
                > ENDPOINTS_MAX,
            r == Err::<Self, DeviceError>(DeviceError::EndpointZero) <==> self@.strings.len()
                < STRINGS_MAX && self@.interfaces.len() < INTERFACES_MAX && endpoints@.len()
                <= ENDPOINTS_MAX && exists|i: int|
                0 <= i < endpoints@.len() && (#[trigger] endpoints@[i]).is_ep0(),
            r matches Ok(dev) ==> {
                let named = self@.with_string(name@);
                let added = dev@.interfaces.last();
                &&& self@.strings.len() < STRINGS_MAX
                &&& dev@.interfaces.len() == self@.interfaces.len() + 1
                &&& added.interface_class == interface_class
                &&& added.interface_subclass == interface_subclass
                &&& added.interface_protocol == interface_protocol
                &&& added.endpoints == endpoints@
                &&& added.string_interface == self@.strings.len() + 1
                &&& named.interface_error(added) is None
                &&& dev@ == named.with_interface(added)
                &&& dev.handlers@ == self.handlers@.push(handler)
                &&& dev.device_handler == self.device_handler
                &&& self@.wf() ==> dev@.wf()
            },
    {
        let mut dev = self;
        let string_interface = match dev.new_string(name) {
            Some(i) => i,
            None => {
                return Err(DeviceError::StringsExhausted);
            },
        };
        let class_specific_descriptor = handler.get_class_specific_descriptor();
        let interface = UsbInterface {
            interface_class,
            interface_subclass,
            interface_protocol,
            endpoints,
            string_interface,
            class_specific_descriptor,
        };
        let ghost named = dev@;
        let ghost added = interface@;
        match dev.add_interface(interface, handler) {
            Ok(()) => {
                proof {
                    assert(dev@.interfaces.last() == added);
                    if self@.wf() {
                        assert(named.wf());
                    }
                }
                Ok(dev)
            },
            Err(e) => Err(e),
        }
    }
}

/// What is read from a device of the host before it is exported: its place
/// on the bus and the fields of its device descriptor, with the texts of the
/// strings that the descriptor names.
#[derive(Clone, Debug)]
pub struct HostDevice {
    pub bus_number: u8,
    pub address: u8,
    pub port_number: u8,
    pub speed: u32,
    pub vendor_id: u16,
    pub product_id: u16,
    pub device_class: u8,
    pub device_subclass: u8,
    pub device_protocol: u8,
    /// bcdDevice
    pub device_bcd: u16,
    /// bcdUSB
    pub usb_version: u16,
    pub configuration_value: u8,
    pub num_configurations: u8,
    pub max_packet_size: u8,
    pub manufacturer: Option<String>,
    pub product: Option<String>,
    pub serial: Option<String>,
}

/// The text of an optional string.
pub open spec fn text_of(s: Option<String>) -> Option<Seq<char>> {
    match s {
        Some(t) => Some(t@),
        None => None,
    }
}

/// The strings of a device with the given manufacturer, product and serial
/// number, those that there are, in this order.
pub open spec fn host_strings(
    manufacturer: Option<Seq<char>>,
    product: Option<Seq<char>>,
    serial: Option<Seq<char>>,
) -> Seq<Seq<char>> {
    let m = match manufacturer {
        Some(t) => seq![t],
        None => Seq::empty(),
    };
    let p = match product {
        Some(t) => m.push(t),
        None => m,
    };
    match serial {
        Some(t) => p.push(t),
        None => p,
    }
}

/// The version `major.minor.sub_minor` in binary-coded decimal: two digits
/// for the major number, one each for the other two. Numbers that do not fit
/// their digits are reduced modulo 100 and modulo 16.
pub open spec fn bcd(major: u8, minor: u8, sub_minor: u8) -> u16 {
    let digits = (major % 100) / 10 * 0x1000 + (major % 10) * 0x100 + (minor % 16) * 0x10
        + sub_minor % 16;
    digits as u16
}

/// The version `major.minor.sub_minor` in binary-coded decimal.
pub fn bcd_version(major: u8, minor: u8, sub_minor: u8) -> (v: u16)
    ensures
        v == bcd(major, minor, sub_minor),
{
    let tens: u16 = ((major % 100) / 10) as u16;
    let ones: u16 = (major % 10) as u16;
    tens * 0x1000 + ones * 0x100 + ((minor % 16) as u16) * 0x10 + (sub_minor % 16) as u16
}

impl HostDevice {
    /// The model of the device that exports this host device, before any
    /// interface is added: it is found at `/sys/bus/<bus>/<address>/<port>`
    /// under the bus id `<bus>-<address>-<port>`, and the manufacturer,
    /// product and serial number that it has become its strings.
    pub open spec fn exported(self) -> DeviceModel {
        let bus = decimal(self.bus_number as nat);
        let address = decimal(self.address as nat);
        let port = decimal(self.port_number as nat);
        let m = text_of(self.manufacturer);
        let p = text_of(self.product);
        let s = text_of(self.serial);
        DeviceModel {
            path: "/sys/bus/"@ + bus + "/"@ + address + "/"@ + port,
            bus_id: bus + "-"@ + address + "-"@ + port,
            bus_num: self.bus_number as u32,
            dev_num: self.port_number as u32,
            speed: self.speed,
            vendor_id: self.vendor_id,
            product_id: self.product_id,
            device_class: self.device_class,
            device_subclass: self.device_subclass,
            device_protocol: self.device_protocol,
            device_bcd: self.device_bcd,
            usb_version: self.usb_version,
            configuration_value: self.configuration_value,
            num_configurations: self.num_configurations,
            ep0_in: UsbEndpoint::control(0x80, self.max_packet_size as u16),
            ep0_out: UsbEndpoint::control(0x00, self.max_packet_size as u16),
            interfaces: Seq::empty(),
            strings: host_strings(m, p, s),
            string_manufacturer: if m is Some {
                1
            } else {
                0
            },
            string_product: if p is Some {
                host_strings(m, p, None).len() as u8
            } else {
                0
            },
            string_serial: if s is Some {
                host_strings(m, p, s).len() as u8
            } else {
                0
            },
            handlers: 0,
            has_device_handler: true,
        }
    }

    /// The device that exports a host device is well formed.
    pub proof fn lemma_exported_wf(self)
        ensures
            self.exported().wf(),
    {
        let d = self.exported();
        let bus = decimal(self.bus_number as nat);
        let address = decimal(self.address as nat);
        let port = decimal(self.port_number as nat);
        assert(pow10(3) == 1000) by {
            reveal_with_fuel(pow10, 4);
        }
        lemma_decimal(self.bus_number as nat, 3);
        lemma_decimal(self.address as nat, 3);
        lemma_decimal(self.port_number as nat, 3);
        reveal_strlit("/sys/bus/");
        reveal_strlit("/");
        reveal_strlit("-");
        assert(is_ascii_chars("/sys/bus/"@));
        assert(is_ascii_chars("/"@));
        assert(is_ascii_chars("-"@));
        assert(is_ascii_chars(d.path)) by {
            assert forall|i: int| 0 <= i < d.path.len() implies '\0' <= #[trigger] d.path[i]
                <= '\u{7f}' by {
                lemma_concat5_index("/sys/bus/"@, bus, "/"@, address, "/"@ + port, i);
            }
        }
        assert(is_ascii_chars(d.bus_id)) by {
            assert forall|i: int| 0 <= i < d.bus_id.len() implies '\0' <= #[trigger] d.bus_id[i]
                <= '\u{7f}' by {
                lemma_concat5_index(bus, "-"@, address, "-"@, port, i);
            }
        }
        is_ascii_chars_encode_utf8(d.path);
        is_ascii_chars_encode_utf8(d.bus_id);
        assert(interface_blocks(d.interfaces).len() == 0);
    }
}

/// An element of five sequences laid end to end is an element of one of
/// them.
pub proof fn lemma_concat5_index(
    a: Seq<char>,
    b: Seq<char>,
    c: Seq<char>,
    d: Seq<char>,
    e: Seq<char>,
    i: int,
)
    requires
        0 <= i < (a + b + c + d + e).len(),
    ensures
        ({
            let s = a + b + c + d + e;
            ||| (i < a.len() && s[i] == a[i])
            ||| (exists|k: int| 0 <= k < b.len() && s[i] == b[k])
            ||| (exists|k: int| 0 <= k < c.len() && s[i] == c[k])
            ||| (exists|k: int| 0 <= k < d.len() && s[i] == d[k])
            ||| (exists|k: int| 0 <= k < e.len() && s[i] == e[k])
        }),
{
    let s = a + b + c + d + e;
    if i < a.len() {
    } else if i < a.len() + b.len() {
        assert(s[i] == b[i - a.len()]);
    } else if i < a.len() + b.len() + c.len() {
        assert(s[i] == c[i - a.len() - b.len()]);
    } else if i < a.len() + b.len() + c.len() + d.len() {
        assert(s[i] == d[i - a.len() - b.len() - c.len()]);
    } else {
        assert(s[i] == e[i - a.len() - b.len() - c.len() - d.len()]);
    }
}

impl<H, D> UsbDevice<H, D> {
    /// The device that exports a device of the host, before its interfaces
    /// are added, with `handler` as its device handler.
    pub fn from_host(host: HostDevice, handler: D) -> (dev: Self)
        ensures
            dev@ == host.exported(),
            dev@.wf(),
            dev.device_handler == Some(handler),
            dev.handlers@.len() == 0,
    {
        let bus = decimal_string(host.bus_number as u32);
        let address = decimal_string(host.address as u32);
        let port = decimal_string(host.port_number as u32);
        let path = String::from_str("/sys/bus/").concat(bus.as_str()).concat("/").concat(
            address.as_str(),
        ).concat("/").concat(port.as_str());
        let bus_id = bus.concat("-").concat(address.as_str()).concat("-").concat(port.as_str());
        let ghost m = text_of(host.manufacturer);
        let ghost p = text_of(host.product);
        let ghost s = text_of(host.serial);
        let mut strings: Vec<String> = Vec::new();
        let mut string_manufacturer: u8 = 0;
        let mut string_product: u8 = 0;
        let mut string_serial: u8 = 0;
        if let Some(text) = host.manufacturer {
            strings.push(text);
            string_manufacturer = 1;
        }
        assert(string_models(strings@) =~= host_strings(m, None, None));
        if let Some(text) = host.product {
            strings.push(text);
            string_product = strings.len() as u8;
        }
        assert(string_models(strings@) =~= host_strings(m, p, None));
        if let Some(text) = host.serial {
            strings.push(text);
            string_serial = strings.len() as u8;
        }
        assert(string_models(strings@) =~= host_strings(m, p, s));
        let dev = UsbDevice {
            path,
            bus_id,
            bus_num: host.bus_number as u32,
            dev_num: host.port_number as u32,
            speed: host.speed,
            vendor_id: host.vendor_id,
            product_id: host.product_id,
            device_class: host.device_class,
            device_subclass: host.device_subclass,
            device_protocol: host.device_protocol,
            device_bcd: host.device_bcd,
            usb_version: host.usb_version,
            configuration_value: host.configuration_value,
            num_configurations: host.num_configurations,
            ep0_in: UsbEndpoint {
                address: 0x80,
                attributes: 0,
                max_packet_size: host.max_packet_size as u16,
                interval: 0,
            },
            ep0_out: UsbEndpoint {
                address: 0x00,
                attributes: 0,
                max_packet_size: host.max_packet_size as u16,
                interval: 0,
            },
            interfaces: Vec::new(),
            handlers: Vec::new(),
            device_handler: Some(handler),
            strings,
            string_manufacturer,
            string_product,
            string_serial,
        };
        proof {
            host.lemma_exported_wf();
            assert(dev@.interfaces =~= Seq::<InterfaceModel>::empty());
            assert(dev@.path =~= host.exported().path);
            assert(dev@.bus_id =~= host.exported().bus_id);
        }
        dev
    }
}

} // verus!
