//! The device model: codes, SETUP packets, endpoints, construction and the
//! device record.

use usbip::construct::HostDevice;
use usbip::{
    bcd_version, ClassCode, DescriptorType, DeviceError, DeviceRecord, Direction,
    EndpointAttributes, HandlerError, NullDeviceHandler, NullHandler, Recipient, RequestKind,
    SetupPacket, StandardRequest, UrbRoute, UsbDevice, UsbEndpoint, UsbInterface,
    UsbInterfaceHandler, UsbSpeed, EP0_MAX_PACKET_SIZE,
};

struct Blob(Vec<u8>);

impl UsbInterfaceHandler for Blob {
    fn handle_urb(
        &mut self,
        _interface: &UsbInterface,
        _ep: UsbEndpoint,
        _setup: SetupPacket,
        _req: &[u8],
    ) -> Result<Vec<u8>, HandlerError> {
        Ok(vec![])
    }

    fn get_class_specific_descriptor(&self) -> Vec<u8> {
        self.0.clone()
    }
}

type Device = UsbDevice<Blob, NullDeviceHandler>;

fn bulk(address: u8) -> UsbEndpoint {
    UsbEndpoint {
        address,
        attributes: EndpointAttributes::Bulk.code(),
        max_packet_size: 64,
        interval: 0,
    }
}

#[test]
fn codes_of_the_enums() {
    assert_eq!(UsbSpeed::Unknown.code(), 0);
    assert_eq!(UsbSpeed::High.code(), 3);
    assert_eq!(UsbSpeed::SuperPlus.code(), 6);
    assert_eq!(ClassCode::SeeInterface.code(), 0x00);
    assert_eq!(ClassCode::HID.code(), 0x03);
    assert_eq!(ClassCode::Physical.code(), 0x05);
    assert_eq!(ClassCode::SmartCard.code(), 0x0B);
    assert_eq!(ClassCode::ContentSecurity.code(), 0x0D);
    assert_eq!(ClassCode::TypeCBridge.code(), 0x12);
    assert_eq!(ClassCode::Diagnostic.code(), 0xDC);
    assert_eq!(ClassCode::VendorSpecific.code(), 0xFF);
    assert_eq!(EndpointAttributes::Interrupt.code(), 3);
    assert_eq!(StandardRequest::SetFeature.code(), 3);
    assert_eq!(StandardRequest::SetInterface.code(), 0x11);
    assert_eq!(DescriptorType::BOS.code(), 0x0F);
    assert_eq!(EP0_MAX_PACKET_SIZE, 64);
}

#[test]
fn codes_convert_back() {
    for v in 0..=255u8 {
        if let Some(a) = EndpointAttributes::from_u8(v) {
            assert_eq!(a.code(), v);
        } else {
            assert!(v >= 4);
        }
        if let Some(r) = StandardRequest::from_u8(v) {
            assert_eq!(r.code(), v);
        }
        if let Some(t) = DescriptorType::from_u8(v) {
            assert_eq!(t.code(), v);
        }
    }
    assert_eq!(StandardRequest::from_u8(6), Some(StandardRequest::GetDescriptor));
    assert_eq!(StandardRequest::from_u8(2), None);
    assert_eq!(StandardRequest::from_u8(0x0B), None);
    assert_eq!(DescriptorType::from_u8(0x0F), Some(DescriptorType::BOS));
    assert_eq!(DescriptorType::from_u8(0), None);
    assert_eq!(DescriptorType::from_u8(0x0C), None);
    assert_eq!(EndpointAttributes::from_u8(2), Some(EndpointAttributes::Bulk));
}

#[test]
fn setup_packet_is_little_endian() {
    let setup = SetupPacket::parse(&[0x80, 0x06, 0x00, 0x01, 0x09, 0x04, 0x40, 0x00]);
    assert_eq!(
        setup,
        SetupPacket {
            request_type: 0x80,
            request: 0x06,
            value: 0x0100,
            index: 0x0409,
            length: 0x40
        }
    );
    assert_eq!(setup.to_bytes(), [0x80, 0x06, 0x00, 0x01, 0x09, 0x04, 0x40, 0x00]);
    let odd = [0xA5, 0xFF, 0x34, 0x12, 0xCD, 0xAB, 0xFF, 0xFF];
    let parsed = SetupPacket::parse(&odd);
    assert_eq!((parsed.value, parsed.index, parsed.length), (0x1234, 0xABCD, 0xFFFF));
    assert_eq!(parsed.to_bytes(), odd);
}

#[test]
fn setup_packet_fields_of_the_request_type() {
    let with =
        |request_type: u8| SetupPacket { request_type, request: 0, value: 0, index: 0, length: 0 };
    assert_eq!(with(0x80).direction(), Direction::In);
    assert_eq!(with(0x7F).direction(), Direction::Out);
    assert_eq!(with(0x00).recipient(), Recipient::Device);
    assert_eq!(with(0x81).recipient(), Recipient::Interface);
    assert_eq!(with(0x22).recipient(), Recipient::Endpoint);
    assert_eq!(with(0x03).recipient(), Recipient::Other);
    assert_eq!(with(0x1F).recipient(), Recipient::Other);
    assert_eq!(with(0x9F).kind(), RequestKind::Standard);
    assert_eq!(with(0x21).kind(), RequestKind::Class);
    assert_eq!(with(0xC0).kind(), RequestKind::Vendor);
    assert_eq!(with(0x60).kind(), RequestKind::Reserved);
}

#[test]
fn endpoint_address_parts() {
    assert_eq!(bulk(0x81).direction(), Direction::In);
    assert_eq!(bulk(0x01).direction(), Direction::Out);
    assert_eq!(bulk(0x8F).number(), 15);
    assert!(bulk(0x80).is_ep0());
    assert!(bulk(0x00).is_ep0());
    assert!(!bulk(0x01).is_ep0());
    assert_eq!(bulk(0x01).transfer_type(), EndpointAttributes::Bulk);
    let iso = UsbEndpoint { address: 1, attributes: 0x0D, max_packet_size: 1, interval: 1 };
    assert_eq!(iso.transfer_type(), EndpointAttributes::Isochronous);
}

#[test]
fn new_device_defaults() {
    let device = Device::new(12);
    assert_eq!(device.path, "/sys/device/usbip/12");
    assert_eq!(device.bus_id, "12");
    assert_eq!(device.bus_num, 0);
    assert_eq!(device.dev_num, 12);
    assert_eq!(device.speed, UsbSpeed::High.code());
    assert_eq!(device.usb_version, 0x0200);
    assert_eq!((device.configuration_value, device.num_configurations), (1, 1));
    assert_eq!(
        device.ep0_in,
        UsbEndpoint { address: 0x80, attributes: 0, max_packet_size: 64, interval: 0 }
    );
    assert_eq!(
        device.ep0_out,
        UsbEndpoint { address: 0x00, attributes: 0, max_packet_size: 64, interval: 0 }
    );
    assert_eq!(device.strings, ["Manufacturer", "Product", "Serial"]);
    assert_eq!(
        (device.string_manufacturer, device.string_product, device.string_serial),
        (1, 2, 3)
    );
    assert!(device.interfaces.is_empty());
    assert!(device.handlers.is_empty());
    assert!(device.device_handler.is_none());
    assert!(device.names_fit());

    assert_eq!(Device::new(0).bus_id, "0");
    assert_eq!(Device::new(u32::MAX).path, "/sys/device/usbip/4294967295");
    assert_eq!(Device::new(1000).bus_id, "1000");
}

#[test]
fn with_interface_adds_the_interface_and_its_name() {
    let device = Device::new(0)
        .with_interface(0xFF, 1, 2, "First", vec![bulk(0x81), bulk(0x01)], Blob(vec![2, 0x24]))
        .unwrap()
        .with_interface(0x03, 0, 0, "Second", vec![], Blob(vec![]))
        .unwrap();
    assert_eq!(device.interfaces.len(), 2);
    assert_eq!(device.handlers.len(), 2);
    let first = &device.interfaces[0];
    assert_eq!(
        (first.interface_class, first.interface_subclass, first.interface_protocol),
        (0xFF, 1, 2)
    );
    assert_eq!(first.endpoints, [bulk(0x81), bulk(0x01)]);
    assert_eq!(first.string_interface, 4);
    assert_eq!(first.class_specific_descriptor, [2, 0x24]);
    assert_eq!(device.interfaces[1].string_interface, 5);
    assert_eq!(device.strings[3], "First");
    assert_eq!(device.strings[4], "Second");
}

#[test]
fn with_interface_refuses_what_cannot_be_described() {
    let refused = |endpoints: Vec<UsbEndpoint>, blob: Vec<u8>| {
        Device::new(0).with_interface(0, 0, 0, "x", endpoints, Blob(blob)).err()
    };
    assert_eq!(refused(vec![bulk(0x80)], vec![]), Some(DeviceError::EndpointZero));
    assert_eq!(refused(vec![bulk(0x01), bulk(0x00)], vec![]), Some(DeviceError::EndpointZero));
    assert_eq!(refused(vec![], vec![3, 0x24]), Some(DeviceError::BadClassDescriptor));
    assert_eq!(refused(vec![], vec![0]), Some(DeviceError::BadClassDescriptor));
    assert_eq!(refused(vec![bulk(1); 256], vec![]), Some(DeviceError::TooManyEndpoints));
    assert_eq!(refused(vec![bulk(1); 255], vec![]), None);
    // 9 + 9 + 255 * 257 = 65553 bytes do not fit the total length.
    let mut blob = vec![0u8; 255 * 257];
    for chunk in blob.chunks_mut(255) {
        chunk[0] = 255;
    }
    assert_eq!(refused(vec![], blob.clone()), Some(DeviceError::DescriptorTooLong));
    // 9 + 9 + 255 * 256 + 237 = 65535 bytes just do.
    blob.truncate(255 * 256 + 237);
    blob[255 * 256] = 237;
    let device = Device::new(0).with_interface(0, 0, 0, "x", vec![], Blob(blob)).unwrap();
    let descriptor = device.configuration_descriptor();
    assert_eq!(descriptor.len(), 0xFFFF);
    assert_eq!(&descriptor[2..4], [0xFF, 0xFF]);
}

#[test]
fn strings_run_out_after_255() {
    let mut device = Device::new(0);
    for expected in 4..=255u8 {
        assert_eq!(device.new_string("s"), Some(expected));
    }
    assert_eq!(device.new_string("s"), None);
    assert_eq!(device.strings.len(), 255);
    assert_eq!(
        device.with_interface(0, 0, 0, "x", vec![], Blob(vec![])).err(),
        Some(DeviceError::StringsExhausted)
    );
}

#[test]
fn interfaces_run_out_after_255() {
    let mut device: UsbDevice<NullHandler, NullDeviceHandler> = UsbDevice::new(0);
    let interface = || UsbInterface {
        interface_class: 0,
        interface_subclass: 0,
        interface_protocol: 0,
        endpoints: vec![],
        string_interface: 0,
        class_specific_descriptor: vec![],
    };
    for _ in 0..255 {
        assert_eq!(device.add_interface(interface(), NullHandler), Ok(()));
    }
    assert_eq!(device.check_interface(&interface()), Some(DeviceError::TooManyInterfaces));
    assert_eq!(
        device.add_interface(interface(), NullHandler),
        Err(DeviceError::TooManyInterfaces)
    );
    assert_eq!(device.interfaces.len(), 255);
    assert_eq!(device.handlers.len(), 255);
    let descriptor = device.configuration_descriptor();
    assert_eq!(descriptor[4], 255);
    assert_eq!(descriptor.len(), 9 + 255 * 9);
    assert_eq!(descriptor[descriptor.len() - 9 + 2], 254);
}

#[test]
fn find_ep_matches_the_whole_address() {
    let device = Device::new(0)
        .with_interface(0, 0, 0, "a", vec![bulk(0x81), bulk(0x02)], Blob(vec![]))
        .unwrap()
        .with_interface(0, 0, 0, "b", vec![bulk(0x83), bulk(0x02), bulk(0x04)], Blob(vec![]))
        .unwrap();
    assert_eq!(device.find_ep(0x80), Some((device.ep0_in, None)));
    assert_eq!(device.find_ep(0x00), Some((device.ep0_out, None)));
    assert_eq!(device.find_ep(0x81), Some((bulk(0x81), Some(0))));
    assert_eq!(device.find_ep(0x83), Some((bulk(0x83), Some(1))));
    assert_eq!(device.find_ep(0x04), Some((bulk(0x04), Some(1))));
    // The first interface that has the address owns it.
    assert_eq!(device.find_ep(0x02), Some((bulk(0x02), Some(0))));
    // The direction bit is part of the address.
    assert_eq!(device.find_ep(0x01), None);
    assert_eq!(device.find_ep(0x82), None);
    assert_eq!(device.find_ep(0x84), None);
    assert_eq!(device.interfaces[1].endpoint_index(0x02), Some(1));
    assert_eq!(device.interfaces[1].endpoint_index(0x05), None);
}

#[test]
fn routes_of_a_transfer() {
    let device = Device::new(0)
        .with_interface(0, 0, 0, "a", vec![bulk(0x81)], Blob(vec![]))
        .unwrap();
    let with = |request_type: u8, index: u16| SetupPacket {
        request_type,
        request: 0,
        value: 0,
        index,
        length: 0,
    };
    assert_eq!(device.route(Some(0), &with(0x00, 0)), UrbRoute::Interface(0));
    assert_eq!(device.route(Some(1), &with(0x00, 0)), UrbRoute::Nothing);
    assert_eq!(device.route(None, &with(0x80, 0)), UrbRoute::Standard);
    assert_eq!(device.route(None, &with(0x81, 7)), UrbRoute::Standard);
    assert_eq!(device.route(None, &with(0x21, 0x0700)), UrbRoute::Interface(0));
    assert_eq!(device.route(None, &with(0x21, 0x0001)), UrbRoute::Nothing);
    assert_eq!(device.route(None, &with(0x40, 0)), UrbRoute::Nothing);
    assert_eq!(device.route(None, &with(0x60, 0)), UrbRoute::Nothing);
    let device = device.with_device_handler(NullDeviceHandler);
    assert_eq!(device.route(None, &with(0x40, 0)), UrbRoute::Device);
    assert_eq!(device.route(None, &with(0xC1, 0)), UrbRoute::Device);
}

#[test]
fn device_record_round_trip() {
    let mut device = Device::new(7)
        .with_interface(0, 0, 0, "a", vec![], Blob(vec![]))
        .unwrap();
    device.bus_num = 0x01020304;
    device.speed = 2;
    device.vendor_id = 0x1234;
    device.product_id = 0x5678;
    device.device_bcd = 0x9ABC;
    device.device_class = 0xDE;
    device.device_subclass = 0xF0;
    device.device_protocol = 0x11;
    device.num_configurations = 4;
    device.configuration_value = 3;
    let mut bytes = vec![];
    device.write_dev(&mut bytes);
    assert_eq!(bytes.len(), 0x138);
    assert_eq!(
        &bytes[288..],
        [
            1, 2, 3, 4, 0, 0, 0, 7, 0, 0, 0, 2, 0x12, 0x34, 0x56, 0x78, 0x9A, 0xBC, 0xDE, 0xF0,
            0x11, 3, 4, 1
        ]
    );
    let record = DeviceRecord::parse(&bytes).unwrap();
    assert_eq!(record.path.len(), 256);
    assert_eq!(&record.path[..19], b"/sys/device/usbip/7");
    assert_eq!(record.bus_id.len(), 32);
    assert_eq!(record.bus_id[0], b'7');
    assert_eq!(record.bus_num, 0x01020304);
    assert_eq!(record.dev_num, 7);
    assert_eq!(record.speed, 2);
    assert_eq!((record.vendor_id, record.product_id, record.device_bcd), (0x1234, 0x5678, 0x9ABC));
    assert_eq!(
        (record.device_class, record.device_subclass, record.device_protocol),
        (0xDE, 0xF0, 0x11)
    );
    assert_eq!(
        (record.configuration_value, record.num_configurations, record.num_interfaces),
        (3, 4, 1)
    );
    assert_eq!(record.to_bytes(), bytes);
    assert_eq!(device.record().to_bytes(), bytes);

    let mut with_interfaces = vec![0xEE];
    device.write_dev_with_interfaces(&mut with_interfaces);
    assert_eq!(with_interfaces.len(), 1 + 0x138 + 4);
    assert_eq!(with_interfaces[0], 0xEE);
    assert_eq!(&with_interfaces[1..1 + 0x138], bytes);
}

#[test]
fn any_record_bytes_survive_parsing() {
    let bytes: Vec<u8> = (0..0x138u32).map(|i| (i * 7 + 3) as u8).collect();
    let record = DeviceRecord::parse(&bytes).unwrap();
    assert_eq!(record.to_bytes(), bytes);
    assert!(DeviceRecord::parse(&bytes[..0x137]).is_none());
    let mut longer = bytes.clone();
    longer.push(0);
    assert!(DeviceRecord::parse(&longer).is_none());
    assert!(DeviceRecord::parse(&[]).is_none());
}

#[test]
fn names_must_fit_the_record() {
    let mut device = Device::new(0);
    device.bus_id = "x".repeat(31);
    device.path = "p".repeat(255);
    assert!(device.names_fit());
    device.bus_id = "x".repeat(32);
    assert!(!device.names_fit());
    device.bus_id = "x".repeat(31);
    device.path = "p".repeat(256);
    assert!(!device.names_fit());
    // Bytes count, not characters.
    device.path = "p".to_string();
    device.bus_id = "\u{e9}".repeat(16);
    assert!(!device.names_fit());
}

#[test]
fn well_formedness_is_checked_field_by_field() {
    let good = || {
        Device::new(0)
            .with_interface(0, 0, 0, "a", vec![bulk(0x81)], Blob(vec![2, 0x24]))
            .unwrap()
    };
    assert!(Device::new(0).is_well_formed());
    assert!(good().is_well_formed());
    assert!(good().interfaces[0].is_well_formed());

    let mut device = good();
    device.bus_id = "x".repeat(32);
    assert!(!device.is_well_formed());

    let mut device = good();
    device.ep0_in.max_packet_size = 256;
    device.ep0_out.max_packet_size = 256;
    assert!(!device.is_well_formed());

    let mut device = good();
    device.ep0_out.max_packet_size = 8;
    assert!(!device.is_well_formed());

    let mut device = good();
    device.ep0_in.address = 0x81;
    assert!(!device.is_well_formed());

    let mut device = good();
    device.interfaces[0].endpoints.push(bulk(0x80));
    assert!(!device.interfaces[0].is_well_formed());
    assert!(!device.is_well_formed());

    let mut device = good();
    device.interfaces[0].class_specific_descriptor = vec![3, 0x24];
    assert!(!device.is_well_formed());

    let mut device = good();
    device.handlers.pop();
    assert!(!device.is_well_formed());

    let mut device = good();
    device.strings = vec![String::new(); 256];
    assert!(!device.is_well_formed());

    // Changing the configuration keeps a device well formed.
    let mut device = good();
    device.configuration_value = 9;
    assert!(device.is_well_formed());
}

#[test]
fn host_device_is_exported_under_its_bus_position() {
    let host = HostDevice {
        bus_number: 3,
        address: 17,
        port_number: 255,
        speed: 4,
        vendor_id: 0x0483,
        product_id: 0x5740,
        device_class: 2,
        device_subclass: 0,
        device_protocol: 0,
        device_bcd: bcd_version(2, 0, 0),
        usb_version: bcd_version(1, 1, 0),
        configuration_value: 1,
        num_configurations: 1,
        max_packet_size: 8,
        manufacturer: None,
        product: Some("Port".to_string()),
        serial: Some("0001".to_string()),
    };
    let device: UsbDevice<NullHandler, NullDeviceHandler> =
        UsbDevice::from_host(host, NullDeviceHandler);
    assert_eq!(device.path, "/sys/bus/3/17/255");
    assert_eq!(device.bus_id, "3-17-255");
    assert_eq!(device.bus_num, 3);
    assert_eq!(device.dev_num, 255);
    assert_eq!(device.speed, 4);
    assert_eq!((device.vendor_id, device.product_id), (0x0483, 0x5740));
    assert_eq!(device.device_bcd, 0x0200);
    assert_eq!(device.usb_version, 0x0110);
    assert_eq!(device.ep0_in.max_packet_size, 8);
    assert_eq!(device.ep0_out.max_packet_size, 8);
    assert_eq!((device.ep0_in.address, device.ep0_out.address), (0x80, 0x00));
    assert_eq!(device.strings, ["Port", "0001"]);
    assert_eq!(
        (device.string_manufacturer, device.string_product, device.string_serial),
        (0, 1, 2)
    );
    assert!(device.device_handler.is_some());
    assert!(device.names_fit());
    assert!(device.is_well_formed());
}

#[test]
fn versions_in_binary_coded_decimal() {
    assert_eq!(bcd_version(2, 0, 0), 0x0200);
    assert_eq!(bcd_version(1, 1, 0), 0x0110);
    assert_eq!(bcd_version(12, 3, 4), 0x1234);
    assert_eq!(bcd_version(99, 15, 15), 0x99FF);
    assert_eq!(bcd_version(100, 16, 17), 0x0001);
}
