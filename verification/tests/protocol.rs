//! Whole conversations: the bytes a peer sends against the bytes it gets
//! back.

use usbip::{
    ClassCode, Connection, ConnectionError, ConnectionState, EndpointAttributes, HandlerError,
    NullDeviceHandler, Reader, ReaderEvent, SetupPacket, UsbDevice, UsbDeviceHandler, UsbEndpoint,
    UsbInterface, UsbInterfaceHandler, UsbIpPacket, UsbIpServer,
};

const CDC_ACM_SUBCLASS: u8 = 0x02;

/// A serial line that answers every read with the bytes it was last sent.
struct CdcAcm {
    last: Vec<u8>,
    calls: usize,
    fail: bool,
}

impl CdcAcm {
    fn new() -> Self {
        CdcAcm { last: vec![], calls: 0, fail: false }
    }

    fn endpoints() -> Vec<UsbEndpoint> {
        vec![
            UsbEndpoint {
                address: 0x81,
                attributes: EndpointAttributes::Interrupt.code(),
                max_packet_size: 8,
                interval: 10,
            },
            UsbEndpoint {
                address: 0x82,
                attributes: EndpointAttributes::Bulk.code(),
                max_packet_size: 512,
                interval: 0,
            },
            UsbEndpoint {
                address: 0x02,
                attributes: EndpointAttributes::Bulk.code(),
                max_packet_size: 512,
                interval: 0,
            },
            UsbEndpoint {
                address: 0x03,
                attributes: EndpointAttributes::Bulk.code(),
                max_packet_size: 512,
                interval: 0,
            },
        ]
    }
}

impl UsbInterfaceHandler for CdcAcm {
    fn handle_urb(
        &mut self,
        _interface: &UsbInterface,
        ep: UsbEndpoint,
        _setup: SetupPacket,
        req: &[u8],
    ) -> Result<Vec<u8>, HandlerError> {
        self.calls += 1;
        if self.fail {
            return Err(HandlerError::Failed);
        }
        if ep.address >= 0x80 {
            Ok(self.last.clone())
        } else {
            self.last = req.to_vec();
            Ok(vec![])
        }
    }

    fn get_class_specific_descriptor(&self) -> Vec<u8> {
        vec![
            0x05, 0x24, 0x00, 0x10, 0x01, // header
            0x05, 0x24, 0x01, 0x00, 0x01, // call management
            0x04, 0x24, 0x02, 0x00, // abstract control
            0x05, 0x24, 0x06, 0x00, 0x01, // union
        ]
    }
}

/// A device handler that answers every vendor request with one byte.
struct Vendor;

impl UsbDeviceHandler for Vendor {
    fn handle_urb(&mut self, setup: SetupPacket, _req: &[u8]) -> Result<Vec<u8>, HandlerError> {
        Ok(vec![setup.request])
    }
}

type Server = UsbIpServer<CdcAcm, NullDeviceHandler>;

fn sample_server() -> Server {
    UsbIpServer::new_simulated(vec![UsbDevice::new(0)
        .with_interface(
            ClassCode::CDC.code(),
            CDC_ACM_SUBCLASS,
            0x00,
            "Test CDC ACM",
            CdcAcm::endpoints(),
            CdcAcm::new(),
        )
        .unwrap()])
}

/// Reads the whole input, queues what it holds, and lets the writer run
/// until the queue is empty or the connection is given up.
fn converse<H: UsbInterfaceHandler, D: UsbDeviceHandler>(
    server: &mut UsbIpServer<H, D>,
    conn: &mut Connection,
    input: &[u8],
) -> (Vec<u8>, Option<ConnectionError>) {
    assert!(server.names_fit());
    let mut reader = Reader::new();
    let mut queue: Vec<UsbIpPacket> = vec![];
    for event in reader.feed(input) {
        if let ReaderEvent::Packet(packet) = event {
            queue.push(packet);
        }
    }
    let mut output = vec![];
    loop {
        let round = server.round(conn, &mut queue);
        output.extend(round.output);
        if round.failure.is_some() {
            return (output, round.failure);
        }
        if queue.is_empty() {
            return (output, None);
        }
    }
}

fn handler<H: UsbInterfaceHandler, D: UsbDeviceHandler>(
    server: &mut UsbIpServer<H, D>,
    input: &[u8],
) -> Vec<u8> {
    converse(server, &mut Connection::new(), input).0
}

fn import_request(bus_id: &str) -> Vec<u8> {
    let mut req = vec![0x01, 0x11, 0x80, 0x03, 0x00, 0x00, 0x00, 0x00];
    let mut path = bus_id.as_bytes().to_vec();
    path.resize(32, 0);
    req.extend(path);
    req
}

fn submit(
    seq: u32,
    direction: u32,
    ep: u32,
    length: u32,
    setup: [u8; 8],
    payload: &[u8],
) -> Vec<u8> {
    let mut req = vec![0x00, 0x00, 0x00, 0x01];
    req.extend(seq.to_be_bytes());
    req.extend(0u32.to_be_bytes()); // dev id
    req.extend(direction.to_be_bytes());
    req.extend(ep.to_be_bytes());
    req.extend(0u32.to_be_bytes()); // transfer flags
    req.extend(length.to_be_bytes());
    req.extend(0u32.to_be_bytes()); // start frame
    req.extend(0u32.to_be_bytes()); // number of packets
    req.extend(0u32.to_be_bytes()); // interval
    req.extend(setup);
    req.extend(payload);
    req
}

fn unlink(seq: u32, direction: u32, ep: u32, target: u32) -> Vec<u8> {
    let mut req = vec![0x00, 0x00, 0x00, 0x02];
    req.extend(seq.to_be_bytes());
    req.extend(0u32.to_be_bytes()); // dev id
    req.extend(direction.to_be_bytes());
    req.extend(ep.to_be_bytes());
    req.extend(target.to_be_bytes());
    req.extend([0u8; 24]);
    req
}

fn word(bytes: &[u8], at: usize) -> u32 {
    u32::from_be_bytes([bytes[at], bytes[at + 1], bytes[at + 2], bytes[at + 3]])
}

#[test]
fn req_empty_devlist() {
    let mut server: Server = UsbIpServer { devices: vec![] };

    // OP_REQ_DEVLIST
    let output = handler(&mut server, &[0x01, 0x11, 0x80, 0x05, 0x00, 0x00, 0x00, 0x00]);
    // OP_REP_DEVLIST
    assert_eq!(
        output,
        [0x01, 0x11, 0x00, 0x05, 0x00, 0x00, 0x00, 0x00, 0x00, 0x00, 0x00, 0x00]
    );
}

#[test]
fn req_sample_devlist() {
    let mut server = sample_server();

    // OP_REQ_DEVLIST
    let output = handler(&mut server, &[0x01, 0x11, 0x80, 0x05, 0x00, 0x00, 0x00, 0x00]);
    // OP_REP_DEVLIST
    // header: 0xC
    // device: 0x138
    // interface: 4 * 0x1
    assert_eq!(output.len(), 0xC + 0x138 + 4 * 0x1);
}

#[test]
fn req_import() {
    let mut server = sample_server();

    // OP_REQ_IMPORT
    let output = handler(&mut server, &import_request("0"));
    // OP_REP_IMPORT
    assert_eq!(output.len(), 0x140);
}

#[test]
fn req_import_get_device_desc() {
    let mut server = sample_server();

    // OP_REQ_IMPORT
    let mut req = import_request("0");
    // USBIP_CMD_SUBMIT
    req.extend(vec![
        0x00, 0x00, 0x00, 0x01, // command
        0x00, 0x00, 0x00, 0x01, // seq num
        0x00, 0x00, 0x00, 0x00, // dev id
        0x00, 0x00, 0x00, 0x01, // IN
        0x00, 0x00, 0x00, 0x00, // ep 0
        0x00, 0x00, 0x00, 0x00, // transfer flags
        0x00, 0x00, 0x00, 0x00, // transfer buffer length
        0x00, 0x00, 0x00, 0x00, // start frame
        0x00, 0x00, 0x00, 0x00, // number of packets
        0x00, 0x00, 0x00, 0x00, // interval
        0x80, 0x06, 0x00, 0x01, 0x00, 0x00, 0x40, 0x00, // GetDescriptor to Device
    ]);
    let output = handler(&mut server, &req);
    // OP_REP_IMPORT + USBIP_RET_SUBMIT + Device Descriptor
    assert_eq!(output.len(), 0x140 + 0x30 + 0x12);
}

#[test]
fn devlist_reply_names_the_device_and_its_interface() {
    let mut server = sample_server();
    let output = handler(&mut server, &[0x01, 0x11, 0x80, 0x05, 0x00, 0x00, 0x00, 0x00]);
    assert_eq!(&output[..12], [0x01, 0x11, 0x00, 0x05, 0, 0, 0, 0, 0, 0, 0, 1]);
    let record = &output[12..12 + 0x138];
    assert_eq!(&record[..19], b"/sys/device/usbip/0");
    assert!(record[19..256].iter().all(|b| *b == 0));
    assert_eq!(record[256], b'0');
    assert!(record[257..288].iter().all(|b| *b == 0));
    assert_eq!(
        &record[288..],
        [
            0, 0, 0, 0, // bus number
            0, 0, 0, 0, // device number
            0, 0, 0, 3, // high speed
            0, 0, // vendor
            0, 0, // product
            0, 0, // device version
            0, 0, 0, // class, subclass, protocol
            1, // configuration value
            1, // configurations
            1, // interfaces
        ]
    );
    assert_eq!(&output[12 + 0x138..], [0x02, 0x02, 0x00, 0x00]);
}

#[test]
fn import_match_attaches_and_sends_the_record() {
    let mut server = sample_server();
    let mut conn = Connection::new();
    let (output, failure) = converse(&mut server, &mut conn, &import_request("0"));
    assert_eq!(failure, None);
    assert_eq!(&output[..8], [0x01, 0x11, 0x00, 0x03, 0, 0, 0, 0]);
    assert_eq!(output.len(), 0x140);
    assert_eq!(&output[8..8 + 19], b"/sys/device/usbip/0");
    assert_eq!(conn.state, ConnectionState::Attached(0));
}

#[test]
fn import_miss_answers_status_one_and_stays_listing() {
    let mut server = sample_server();
    let mut conn = Connection::new();
    let (output, failure) = converse(&mut server, &mut conn, &import_request("1"));
    assert_eq!(failure, None);
    assert_eq!(output, [0x01, 0x11, 0x00, 0x03, 0, 0, 0, 1]);
    assert_eq!(conn.state, ConnectionState::Listing);
}

#[test]
fn import_picks_the_first_device_with_the_bus_id() {
    let mut server: Server = UsbIpServer::new_simulated(vec![
        UsbDevice::new(7),
        UsbDevice::new(3),
        UsbDevice::new(3),
    ]);
    server.devices[2].vendor_id = 0xBEEF;
    let mut conn = Connection::new();
    let (output, _) = converse(&mut server, &mut conn, &import_request("3"));
    assert_eq!(conn.state, ConnectionState::Attached(1));
    assert_eq!(&output[8 + 300..8 + 302], [0, 0]);
}

#[test]
fn get_device_descriptor_reply_is_framed_as_ret_submit() {
    let mut server = sample_server();
    let mut req = import_request("0");
    req.extend(submit(1, 1, 0, 0, [0x80, 0x06, 0x00, 0x01, 0x00, 0x00, 0x40, 0x00], &[]));
    let output = handler(&mut server, &req);
    let reply = &output[0x140..];
    assert_eq!(
        &reply[..0x30],
        [
            0, 0, 0, 3, // USBIP_RET_SUBMIT
            0, 0, 0, 1, // seq
            0, 0, 0, 0, // dev id
            0, 0, 0, 1, // direction
            0, 0, 0, 0, // endpoint
            0, 0, 0, 0, // status
            0, 0, 0, 0x12, // actual length
            0, 0, 0, 0, // start frame
            0, 0, 0, 0, // number of packets
            0, 0, 0, 0, // error count
            0x80, 0x06, 0x00, 0x01, 0x00, 0x00, 0x40, 0x00, // setup
        ]
    );
    assert_eq!(
        &reply[0x30..],
        [
            0x12, 0x01, 0x00, 0x02, 0x00, 0x00, 0x00, 0x40, 0x00, 0x00, 0x00, 0x00, 0x00, 0x00,
            0x01, 0x02, 0x03, 0x01
        ]
    );
}

#[test]
fn unlink_of_queued_submit_cancels_it() {
    let mut server = sample_server();
    let mut conn = Connection::new();
    converse(&mut server, &mut conn, &import_request("0"));

    let mut req = submit(42, 1, 2, 512, [0; 8], &[]);
    req.extend(unlink(43, 1, 2, 42));
    let (output, failure) = converse(&mut server, &mut conn, &req);
    assert_eq!(failure, None);

    let mut expected = vec![0, 0, 0, 4];
    expected.extend(43u32.to_be_bytes());
    expected.extend(0u32.to_be_bytes());
    expected.extend(1u32.to_be_bytes());
    expected.extend(2u32.to_be_bytes());
    expected.extend((-libc::ECONNRESET).to_be_bytes());
    expected.extend([0u8; 24]);
    assert_eq!(output, expected);
    // The handler never saw the submit.
    assert_eq!(server.devices[0].handlers[0].calls, 0);
}

#[test]
fn unlink_after_dispatch_reports_status_zero() {
    let mut server = sample_server();
    let mut conn = Connection::new();
    converse(&mut server, &mut conn, &import_request("0"));

    let (first, _) = converse(&mut server, &mut conn, &submit(42, 1, 2, 512, [0; 8], &[]));
    assert_eq!(word(&first, 0), 3);
    assert_eq!(word(&first, 4), 42);
    assert_eq!(server.devices[0].handlers[0].calls, 1);

    let (second, _) = converse(&mut server, &mut conn, &unlink(43, 1, 2, 42));
    assert_eq!(second.len(), 0x30);
    assert_eq!(word(&second, 0), 4);
    assert_eq!(word(&second, 4), 43);
    assert_eq!(word(&second, 20), 0);
}

#[test]
fn unlinks_are_served_before_any_submit() {
    let mut server = sample_server();
    let mut conn = Connection::new();
    converse(&mut server, &mut conn, &import_request("0"));

    let mut req = submit(1, 1, 2, 0, [0; 8], &[]);
    req.extend(submit(2, 1, 2, 0, [0; 8], &[]));
    req.extend(unlink(3, 1, 2, 2));
    req.extend(unlink(4, 1, 2, 9));
    let (output, _) = converse(&mut server, &mut conn, &req);
    assert_eq!(output.len(), 3 * 0x30);
    // The two unlinks, in their order, then the one submit that is left.
    assert_eq!((word(&output, 0), word(&output, 4)), (4, 3));
    assert_eq!(word(&output, 20) as i32, -libc::ECONNRESET);
    assert_eq!((word(&output, 0x30), word(&output, 0x34)), (4, 4));
    assert_eq!(word(&output, 0x30 + 20), 0);
    assert_eq!((word(&output, 0x60), word(&output, 0x64)), (3, 1));
    assert_eq!(server.devices[0].handlers[0].calls, 1);
}

#[test]
fn set_configuration_is_stored_and_read_back() {
    let mut server = sample_server();
    server.devices[0].num_configurations = 2;
    let mut conn = Connection::new();
    converse(&mut server, &mut conn, &import_request("0"));
    assert_eq!(server.devices[0].configuration_value, 1);

    let set = submit(5, 0, 0, 0, [0x00, 0x09, 0x02, 0x00, 0x00, 0x00, 0x00, 0x00], &[]);
    let (output, _) = converse(&mut server, &mut conn, &set);
    assert_eq!(output.len(), 0x30);
    assert_eq!(word(&output, 24), 0);
    assert_eq!(server.devices[0].configuration_value, 2);

    let get = submit(6, 1, 0, 1, [0x80, 0x08, 0x00, 0x00, 0x00, 0x00, 0x01, 0x00], &[]);
    let (output, _) = converse(&mut server, &mut conn, &get);
    assert_eq!(output.len(), 0x30 + 1);
    assert_eq!(word(&output, 4), 6);
    assert_eq!(word(&output, 24), 1);
    assert_eq!(output[0x30], 0x02);
}

#[test]
fn bulk_out_payload_reaches_the_handler_and_comes_back() {
    let mut server = sample_server();
    let mut conn = Connection::new();
    converse(&mut server, &mut conn, &import_request("0"));

    let (output, _) = converse(&mut server, &mut conn, &submit(1, 0, 2, 3, [0; 8], b"abc"));
    assert_eq!(output.len(), 0x30);
    assert_eq!(word(&output, 24), 0);
    assert_eq!(server.devices[0].handlers[0].last, b"abc");

    let (output, _) = converse(&mut server, &mut conn, &submit(2, 1, 2, 512, [0; 8], &[]));
    assert_eq!(word(&output, 4), 2);
    assert_eq!(word(&output, 12), 1);
    assert_eq!(word(&output, 16), 2);
    assert_eq!(word(&output, 24), 3);
    assert_eq!(&output[0x30..], b"abc");
}

#[test]
fn handler_error_counts_as_empty_answer() {
    let mut server = sample_server();
    server.devices[0].handlers[0].fail = true;
    let mut conn = Connection::new();
    converse(&mut server, &mut conn, &import_request("0"));
    let (output, failure) = converse(&mut server, &mut conn, &submit(9, 1, 2, 512, [0; 8], &[]));
    assert_eq!(failure, None);
    assert_eq!(output.len(), 0x30);
    assert_eq!(word(&output, 4), 9);
    assert_eq!(word(&output, 20), 0);
    assert_eq!(word(&output, 24), 0);
}

#[test]
fn submit_before_import_gives_the_connection_up() {
    let mut server = sample_server();
    let mut conn = Connection::new();
    let (output, failure) = converse(&mut server, &mut conn, &submit(1, 1, 0, 0, [0; 8], &[]));
    assert_eq!(failure, Some(ConnectionError::NotAttached));
    assert!(output.is_empty());
}

#[test]
fn submit_to_unknown_endpoint_gives_the_connection_up() {
    let mut server = sample_server();
    let mut conn = Connection::new();
    converse(&mut server, &mut conn, &import_request("0"));
    // Endpoint 2 exists out and in; endpoint 3 only out.
    let (_, failure) = converse(&mut server, &mut conn, &submit(1, 0, 3, 0, [0; 8], &[]));
    assert_eq!(failure, None);
    let (output, failure) = converse(&mut server, &mut conn, &submit(2, 1, 3, 0, [0; 8], &[]));
    assert_eq!(failure, Some(ConnectionError::UnknownEndpoint));
    assert!(output.is_empty());
}

#[test]
fn short_submit_in_the_queue_is_malformed() {
    let mut server = sample_server();
    let mut conn = Connection { state: ConnectionState::Attached(0), idle: 0, reset_code: 104 };
    let mut queue = vec![UsbIpPacket {
        status: 0,
        sequence_number: 1,
        command: vec![0, 0, 0, 1],
        enum_command: usbip::UsbIpCommand::CmdSubmit,
        data: vec![0; 39],
    }];
    let round = server.round(&mut conn, &mut queue);
    assert_eq!(round.failure, Some(ConnectionError::Malformed));
    assert!(round.output.is_empty());
}

#[test]
fn failure_keeps_the_unlink_replies() {
    let mut server = sample_server();
    let mut conn = Connection::new();
    let mut req = submit(1, 1, 0, 0, [0; 8], &[]);
    req.extend(unlink(2, 1, 0, 77));
    let (output, failure) = converse(&mut server, &mut conn, &req);
    assert_eq!(failure, Some(ConnectionError::NotAttached));
    assert_eq!(output.len(), 0x30);
    assert_eq!((word(&output, 0), word(&output, 4), word(&output, 20)), (4, 2, 0));
}

#[test]
fn class_request_goes_to_the_interface_named_by_index() {
    let mut server = sample_server();
    let mut conn = Connection::new();
    converse(&mut server, &mut conn, &import_request("0"));
    // SET_LINE_CODING to interface 0, seven bytes out.
    let set = submit(1, 0, 0, 7, [0x21, 0x20, 0, 0, 0, 0, 7, 0], &[1, 2, 3, 4, 5, 6, 7]);
    converse(&mut server, &mut conn, &set);
    assert_eq!(server.devices[0].handlers[0].calls, 1);
    assert_eq!(server.devices[0].handlers[0].last, [1, 2, 3, 4, 5, 6, 7]);
    // The same to interface 5, which does not exist: answered, not served.
    let set = submit(2, 0, 0, 1, [0x21, 0x20, 0, 0, 5, 0, 1, 0], &[9]);
    let (output, failure) = converse(&mut server, &mut conn, &set);
    assert_eq!(failure, None);
    assert_eq!(output.len(), 0x30);
    assert_eq!(server.devices[0].handlers[0].calls, 1);
}

#[test]
fn vendor_request_goes_to_the_device_handler_if_there_is_one() {
    let request = submit(1, 1, 0, 1, [0xC0, 0x55, 0, 0, 0, 0, 1, 0], &[]);

    let mut without = sample_server();
    let mut conn = Connection::new();
    converse(&mut without, &mut conn, &import_request("0"));
    let (output, _) = converse(&mut without, &mut conn, &request);
    assert_eq!(output.len(), 0x30);

    let device: UsbDevice<CdcAcm, Vendor> = UsbDevice::new(0).with_device_handler(Vendor);
    let mut with = UsbIpServer::new_simulated(vec![device]);
    let mut conn = Connection::new();
    converse(&mut with, &mut conn, &import_request("0"));
    let (output, _) = converse(&mut with, &mut conn, &request);
    assert_eq!(output.len(), 0x30 + 1);
    assert_eq!(output[0x30], 0x55);
}

#[test]
fn idle_rounds_lengthen_the_pause() {
    let mut server = sample_server();
    let mut conn = Connection::new();
    let mut queue: Vec<UsbIpPacket> = vec![];
    for round_number in 1..=9u32 {
        let round = server.round(&mut conn, &mut queue);
        assert!(round.output.is_empty());
        assert_eq!(conn.idle, round_number);
        assert_eq!(round.pause_micros, 250);
    }
    let round = server.round(&mut conn, &mut queue);
    assert_eq!(conn.idle, 10);
    assert_eq!(round.pause_micros, 1000);

    let mut reader = Reader::new();
    for event in reader.feed(&[0x01, 0x11, 0x80, 0x05, 0, 0, 0, 0]) {
        if let ReaderEvent::Packet(packet) = event {
            queue.push(packet);
        }
    }
    let round = server.round(&mut conn, &mut queue);
    assert_eq!(conn.idle, 0);
    assert_eq!(round.pause_micros, 250);
    assert_eq!(usbip::pause_after(9), 250);
    assert_eq!(usbip::pause_after(10), 1000);
    assert_eq!(usbip::pause_after(u32::MAX), 1000);
}

#[test]
fn connection_starts_listing_with_the_platform_reset_code() {
    let conn = Connection::new();
    assert_eq!(conn.state, ConnectionState::Listing);
    assert_eq!(conn.idle, 0);
    assert_eq!(conn.reset_code, libc::ECONNRESET);
    // The status of a cancelling unlink is its negation, and is not zero.
    assert_ne!(conn.reset_code, 0);
    assert_ne!(conn.reset_code, i32::MIN);
    assert_eq!(usbip::packet::status_of_unlink(true, conn.reset_code), -libc::ECONNRESET);
    assert_ne!(usbip::packet::status_of_unlink(true, conn.reset_code), 0);
}

#[test]
fn connection_with_a_given_reset_code() {
    let conn = Connection::with_reset_code(54);
    assert_eq!(conn.state, ConnectionState::Listing);
    assert_eq!(conn.idle, 0);
    assert_eq!(conn.reset_code, 54);

    let mut server = sample_server();
    let mut conn = Connection::with_reset_code(54);
    converse(&mut server, &mut conn, &import_request("0"));
    let mut req = submit(42, 1, 2, 512, [0; 8], &[]);
    req.extend(unlink(43, 1, 2, 42));
    let (output, _) = converse(&mut server, &mut conn, &req);
    assert_eq!(output.len(), 0x30);
    assert_eq!(word(&output, 20) as i32, -54);
}

#[test]
fn take_work_and_process_are_the_two_halves_of_a_round() {
    let mut server = sample_server();
    let mut conn = Connection::new();
    let mut reader = Reader::new();
    let mut queue: Vec<UsbIpPacket> = vec![];
    let mut input = import_request("0");
    input.extend(unlink(8, 0, 0, 1234));
    for event in reader.feed(&input) {
        if let ReaderEvent::Packet(packet) = event {
            queue.push(packet);
        }
    }
    let (replies, work) = conn.take_work(&mut queue);
    assert_eq!(replies.len(), 0x30);
    assert!(queue.is_empty());
    let packet = work.unwrap();
    let reply = server.process(&mut conn, &packet).unwrap();
    assert_eq!(reply.len(), 0x140);
    assert_eq!(conn.state, ConnectionState::Attached(0));
}
