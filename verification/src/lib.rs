//! A USB/IP server core: the emulated USB device model, its descriptors and
//! endpoint-zero request engine, and the framing and dispatch of the USB/IP
//! wire protocol, all as functions on plain values with proved contracts.
//!
//! Nothing here touches a socket. The reading side is [`Reader`], which cuts
//! the bytes received into packets; the writing side is
//! [`UsbIpServer::round`], or its two halves [`Connection::take_work`] and
//! [`UsbIpServer::process`], which turn queued packets into the bytes to
//! send.

pub mod consts;
pub mod construct;
pub mod control;
pub mod descriptor;
pub mod device;
pub mod endpoint;
pub mod host;
pub mod interface;
pub mod packet;
pub mod reader;
pub mod record;
pub mod search;
pub mod server;
pub mod setup;
pub mod unlink;
pub mod util;
pub mod wire;
pub mod writer;

pub use consts::{
    ClassCode, DescriptorType, Direction, EndpointAttributes, StandardRequest, UsbSpeed,
    EP0_MAX_PACKET_SIZE,
};
pub use construct::{bcd_version, DeviceError, HostDevice};
pub use control::{response_payload, UrbRoute};
pub use device::UsbDevice;
pub use endpoint::UsbEndpoint;
pub use host::{
    host_buffer_len, host_device_transfer, host_interface_transfer, host_response, HostTransfer,
};
pub use interface::{
    HandlerError, NullDeviceHandler, NullHandler, UsbDeviceHandler, UsbInterface,
    UsbInterfaceHandler,
};
pub use packet::{SubmitHeader, UnlinkHeader, UsbIpCommand, UsbIpPacket};
pub use reader::{Reader, ReaderEvent};
pub use record::DeviceRecord;
pub use server::UsbIpServer;
pub use setup::{Recipient, RequestKind, SetupPacket};
pub use unlink::process_unlinks;
pub use util::verify_descriptor;
pub use writer::{pause_after, Connection, ConnectionError, ConnectionState, Round};
