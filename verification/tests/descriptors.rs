//! The descriptors, byte for byte, and the chain check.

use usbip::descriptor::{bos, string_descriptor_of, truncate_to};
use usbip::{
    verify_descriptor, ClassCode, DescriptorType, EndpointAttributes, HandlerError,
    NullDeviceHandler, SetupPacket, StandardRequest, UsbDevice, UsbEndpoint, UsbInterface,
    UsbInterfaceHandler,
};

struct Blob(Vec<u8>);

impl UsbInterfaceHandler for Blob {
    fn handle_urb(
        &mut self,
        _interface: &UsbInterface,
        _ep: UsbEndpoint,
        _setup: SetupPacket,
        _req: &[u8],
    ) -> Result<Vec<u8>, HandlerError> {
        Ok(vec![])
    }

    fn get_class_specific_descriptor(&self) -> Vec<u8> {
        self.0.clone()
    }
}

type Device = UsbDevice<Blob, NullDeviceHandler>;

fn endpoint(address: u8, attributes: EndpointAttributes, size: u16, interval: u8) -> UsbEndpoint {
    UsbEndpoint { address, attributes: attributes.code(), max_packet_size: size, interval }
}

fn sample() -> Device {
    let mut device = Device::new(0)
        .with_interface(
            ClassCode::HID.code(),
            0x01,
            0x02,
            "Mouse",
            vec![endpoint(0x81, EndpointAttributes::Interrupt, 8, 10)],
            Blob(vec![0x09, 0x21, 0x10, 0x01, 0x00, 0x01, 0x22, 0x34, 0x00]),
        )
        .unwrap()
        .with_interface(
            ClassCode::CDCData.code(),
            0x00,
            0x00,
            "Data",
            vec![
                endpoint(0x82, EndpointAttributes::Bulk, 512, 0),
                endpoint(0x02, EndpointAttributes::Bulk, 0x1234, 0),
            ],
            Blob(vec![]),
        )
        .unwrap();
    device.vendor_id = 0x1234;
    device.product_id = 0xABCD;
    device.device_bcd = 0x0102;
    device.device_class = 0xEF;
    device.device_subclass = 0x02;
    device.device_protocol = 0x01;
    device
}

fn get_descriptor(kind: DescriptorType, index: u8, length: u16) -> SetupPacket {
    SetupPacket {
        request_type: 0x80,
        request: StandardRequest::GetDescriptor.code(),
        value: (kind.code() as u16) << 8 | index as u16,
        index: 0,
        length,
    }
}

#[test]
fn device_descriptor_bytes() {
    assert_eq!(
        sample().device_descriptor(),
        [
            0x12, 0x01, // length, type
            0x00, 0x02, // USB 2.0
            0xEF, 0x02, 0x01, // class, subclass, protocol
            0x40, // endpoint zero packet size
            0x34, 0x12, // vendor
            0xCD, 0xAB, // product
            0x02, 0x01, // device version
            0x01, 0x02, 0x03, // manufacturer, product, serial
            0x01, // configurations
        ]
    );
}

#[test]
fn configuration_descriptor_bytes() {
    let descriptor = sample().configuration_descriptor();
    assert_eq!(
        descriptor,
        [
            0x09, 0x02, 0x39, 0x00, 0x02, 0x01, 0x00, 0x80, 0x32, // configuration
            0x09, 0x04, 0x00, 0x00, 0x01, 0x03, 0x01, 0x02, 0x04, // interface 0
            0x09, 0x21, 0x10, 0x01, 0x00, 0x01, 0x22, 0x34, 0x00, // class specific
            0x07, 0x05, 0x81, 0x03, 0x08, 0x00, 0x0A, // endpoint 1 in
            0x09, 0x04, 0x01, 0x00, 0x02, 0x0A, 0x00, 0x00, 0x05, // interface 1
            0x07, 0x05, 0x82, 0x02, 0x00, 0x02, 0x00, // endpoint 2 in
            0x07, 0x05, 0x02, 0x02, 0x34, 0x12, 0x00, // endpoint 2 out
        ]
    );
}

#[test]
fn total_length_is_the_length_of_the_configuration_descriptor() {
    for device in [Device::new(0), sample()] {
        let descriptor = device.configuration_descriptor();
        let total = u16::from_le_bytes([descriptor[2], descriptor[3]]);
        assert_eq!(total as usize, descriptor.len());
    }
    assert_eq!(Device::new(0).configuration_descriptor().len(), 9);
}

#[test]
fn every_descriptor_is_a_chain() {
    let device = sample();
    assert!(verify_descriptor(&device.device_descriptor()));
    assert!(verify_descriptor(&device.configuration_descriptor()));
    assert!(verify_descriptor(&device.device_qualifier()));
    assert!(verify_descriptor(&bos()));
    for index in 0..=5u8 {
        assert!(verify_descriptor(&device.string_descriptor(index)));
    }
}

#[test]
fn endpoint_and_interface_descriptors() {
    assert_eq!(
        endpoint(0x85, EndpointAttributes::Isochronous, 0x0201, 7).descriptor(),
        [0x07, 0x05, 0x85, 0x01, 0x01, 0x02, 0x07]
    );
    let interface = UsbInterface {
        interface_class: 0xFF,
        interface_subclass: 0x11,
        interface_protocol: 0x22,
        endpoints: vec![],
        string_interface: 9,
        class_specific_descriptor: vec![0x03, 0x24, 0x77],
    };
    assert_eq!(
        interface.descriptor_block(6),
        [0x09, 0x04, 0x06, 0x00, 0x00, 0xFF, 0x11, 0x22, 0x09, 0x03, 0x24, 0x77]
    );
}

#[test]
fn string_descriptors() {
    let device = sample();
    assert_eq!(device.string_descriptor(0), [0x04, 0x03, 0x09, 0x04]);
    assert_eq!(
        device.string_descriptor(2),
        [16, 0x03, b'P', 0, b'r', 0, b'o', 0, b'd', 0, b'u', 0, b'c', 0, b't', 0]
    );
    assert_eq!(
        device.string_descriptor(4),
        [12, 0x03, b'M', 0, b'o', 0, b'u', 0, b's', 0, b'e', 0]
    );
    // There are five strings; the sixth slot is empty.
    assert_eq!(device.string_descriptor(5).len(), 2 + 2 * 4);
    assert!(device.string_descriptor(6).is_empty());
    assert!(device.string_descriptor(255).is_empty());
}

#[test]
fn string_descriptor_is_utf16_little_endian() {
    // One byte, two bytes and three bytes in UTF-8 are one unit each; a
    // character beyond the basic plane is a surrogate pair.
    assert_eq!(
        string_descriptor_of("a\u{e9}\u{20ac}\u{1d11e}"),
        [12, 0x03, 0x61, 0x00, 0xE9, 0x00, 0xAC, 0x20, 0x34, 0xD8, 0x1E, 0xDD]
    );
    assert_eq!(string_descriptor_of(""), [2, 0x03]);
}

#[test]
fn string_descriptor_length_byte_wraps_beyond_126_units() {
    let longest = "x".repeat(126);
    let descriptor = string_descriptor_of(&longest);
    assert_eq!(descriptor.len(), 254);
    assert_eq!(descriptor[0], 254);
    assert!(verify_descriptor(&descriptor));

    let too_long = "x".repeat(127);
    let descriptor = string_descriptor_of(&too_long);
    assert_eq!(descriptor.len(), 256);
    assert_eq!(descriptor[0], 0);
    assert!(!verify_descriptor(&descriptor));
}

#[test]
fn device_qualifier_and_bos() {
    assert_eq!(
        sample().device_qualifier(),
        [0x0A, 0x06, 0x00, 0x02, 0xEF, 0x02, 0x01, 0x40, 0x01, 0x00]
    );
    assert_eq!(bos(), [0x05, 0x0F, 0x05, 0x00, 0x00]);
}

#[test]
fn get_descriptor_truncates_to_the_requested_length() {
    let mut device = sample();
    let full = device.configuration_descriptor();
    let head = device.standard_request(&get_descriptor(DescriptorType::Configuration, 0, 9));
    assert_eq!(head, &full[..9]);
    let all = device.standard_request(&get_descriptor(DescriptorType::Configuration, 0, 0xFF));
    assert_eq!(all, full);
    let exact = device.standard_request(&get_descriptor(DescriptorType::Device, 0, 18));
    assert_eq!(exact.len(), 18);
    let short = device.standard_request(&get_descriptor(DescriptorType::Device, 0, 8));
    assert_eq!(short, [0x12, 0x01, 0x00, 0x02, 0xEF, 0x02, 0x01, 0x40]);
    let none = device.standard_request(&get_descriptor(DescriptorType::Device, 0, 0));
    assert!(none.is_empty());
    let length_only = device.standard_request(&get_descriptor(DescriptorType::String, 1, 2));
    assert_eq!(length_only, [26, 0x03]);

    assert_eq!(truncate_to(vec![1, 2, 3], 2), [1, 2]);
    assert_eq!(truncate_to(vec![1, 2, 3], 3), [1, 2, 3]);
    assert_eq!(truncate_to(vec![1, 2, 3], 4), [1, 2, 3]);
}

#[test]
fn get_descriptor_by_type() {
    let mut device = sample();
    let string = device.standard_request(&SetupPacket {
        request_type: 0x80,
        request: 0x06,
        value: 0x0303,
        index: 0x0409,
        length: 0xFF,
    });
    assert_eq!(string, device.string_descriptor(3));
    let qualifier =
        device.standard_request(&get_descriptor(DescriptorType::DeviceQualifier, 0, 0xFF));
    assert_eq!(qualifier, device.device_qualifier());
    let capabilities = device.standard_request(&get_descriptor(DescriptorType::BOS, 0, 0xFF));
    assert_eq!(capabilities, bos());
    let unserved = device.standard_request(&get_descriptor(DescriptorType::Interface, 0, 0xFF));
    assert!(unserved.is_empty());
    let unknown = device.standard_request(&SetupPacket {
        request_type: 0x80,
        request: 0x06,
        value: 0x2200,
        index: 0,
        length: 0xFF,
    });
    assert!(unknown.is_empty());
}

#[test]
fn standard_requests_without_data() {
    let mut device = sample();
    let request = |request: StandardRequest, value: u16| SetupPacket {
        request_type: 0x00,
        request: request.code(),
        value,
        index: 0,
        length: 0,
    };
    assert_eq!(device.standard_request(&request(StandardRequest::GetStatus, 0)), [0, 0]);
    assert_eq!(device.standard_request(&request(StandardRequest::GetConfiguration, 0)), [1]);
    for other in [
        StandardRequest::ClearFeature,
        StandardRequest::SetFeature,
        StandardRequest::SetInterface,
        StandardRequest::SetDescriptor,
        StandardRequest::GetInterface,
        StandardRequest::SynthFrame,
    ] {
        assert!(device.standard_request(&request(other, 3)).is_empty());
        assert_eq!(device.configuration_value, 1);
    }
    // Only the low byte of the value counts.
    let set = device.standard_request(&request(StandardRequest::SetConfiguration, 0x0705));
    assert!(set.is_empty());
    assert_eq!(device.configuration_value, 5);
    assert_eq!(device.standard_request(&request(StandardRequest::GetConfiguration, 0)), [5]);
    let unknown = SetupPacket { request_type: 0, request: 0x42, value: 9, index: 0, length: 0 };
    assert!(device.standard_request(&unknown).is_empty());
    assert_eq!(device.configuration_value, 5);
}

#[test]
fn verify_descriptor_walks_by_length_bytes() {
    assert!(verify_descriptor(&[]));
    assert!(verify_descriptor(&[1]));
    assert!(verify_descriptor(&[2, 0]));
    assert!(verify_descriptor(&[3, 9, 9, 2, 9, 1]));
    // Runs past the end.
    assert!(!verify_descriptor(&[3, 9]));
    assert!(!verify_descriptor(&[2, 9, 4, 9, 9]));
    // A zero length never advances.
    assert!(!verify_descriptor(&[0]));
    assert!(!verify_descriptor(&[2, 9, 0, 9]));
    // 255 is the longest descriptor.
    let mut longest = vec![0u8; 255];
    longest[0] = 255;
    assert!(verify_descriptor(&longest));
    longest.pop();
    assert!(!verify_descriptor(&longest));
}
