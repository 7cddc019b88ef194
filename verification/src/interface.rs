//! Interfaces of a device and the handlers that class drivers plug in.

use crate::consts::Direction;
use crate::endpoint::UsbEndpoint;
use crate::setup::SetupPacket;
use vstd::prelude::*;

verus! {

/// Why a handler could not serve a request.
#[derive(Clone, Copy, Debug, PartialEq, Eq, Structural)]
pub enum HandlerError {
    /// The transfer could not be carried out.
    Failed,
    /// The handler does not implement the request.
    Unsupported,
}

/// One interface of a device: its class triple, the index of the string that
/// names it, its endpoints (endpoint zero is never among them) and the
/// class-specific descriptors that follow its interface descriptor.
#[derive(Clone, Debug)]
pub struct UsbInterface {
    pub interface_class: u8,
    pub interface_subclass: u8,
    pub interface_protocol: u8,
    pub endpoints: Vec<UsbEndpoint>,
    pub string_interface: u8,
    pub class_specific_descriptor: Vec<u8>,
}

/// The mathematical content of a [`UsbInterface`].
pub struct InterfaceModel {
    pub interface_class: u8,
    pub interface_subclass: u8,
    pub interface_protocol: u8,
    pub endpoints: Seq<UsbEndpoint>,
    pub string_interface: u8,
    pub class_specific_descriptor: Seq<u8>,
}

impl View for UsbInterface {
    type V = InterfaceModel;

    open spec fn view(&self) -> InterfaceModel {
        InterfaceModel {
            interface_class: self.interface_class,
            interface_subclass: self.interface_subclass,
            interface_protocol: self.interface_protocol,
            endpoints: self.endpoints@,
            string_interface: self.string_interface,
            class_specific_descriptor: self.class_specific_descriptor@,
        }
    }
}

impl InterfaceModel {
    /// `i` is the position of the first endpoint with the address `address`.
    pub open spec fn first_endpoint_at(self, address: u8, i: int) -> bool {
        &&& 0 <= i < self.endpoints.len()
        &&& self.endpoints[i].address == address
        &&& forall|j: int| 0 <= j < i ==> (#[trigger] self.endpoints[j]).address != address
    }

    /// Some endpoint of the interface has the address `address`.
    pub open spec fn has_endpoint(self, address: u8) -> bool {
        exists|i: int|
            0 <= i < self.endpoints.len() && (#[trigger] self.endpoints[i]).address == address
    }

    /// No endpoint of the interface is endpoint zero.
    pub open spec fn no_ep0(self) -> bool {
        forall|i: int| 0 <= i < self.endpoints.len() ==> !(#[trigger] self.endpoints[i]).is_ep0()
    }
}

impl UsbInterface {
    /// The position of the first endpoint with the address `address`.
    pub fn endpoint_index(&self, address: u8) -> (r: Option<usize>)
        ensures
            match r {
                Some(i) => self@.first_endpoint_at(address, i as int),
                None => !self@.has_endpoint(address),
            },
    {
        let mut i: usize = 0;
        while i < self.endpoints.len()
            invariant
                i <= self.endpoints@.len(),
                forall|j: int| 0 <= j < i ==> (#[trigger] self.endpoints@[j]).address != address,
            decreases self.endpoints@.len() - i,
        {
            if self.endpoints[i].address == address {
                return Some(i);
            }
            i += 1;
        }
        None
    }
}

/// The class driver behind one interface.
///
/// `handle_urb` serves one transfer on an endpoint of the interface, or a
/// class request on endpoint zero addressed to it. For a transfer towards the
/// host, `req` is empty and the returned bytes are the data: up to the
/// maximum packet size of the endpoint, possibly fewer and possibly none,
/// which means that no data is available now. For a transfer towards the
/// device, `req` is the data and nothing is to be returned.
///
/// The handler is called with exclusive access to its state. That `req` is
/// empty on an endpoint towards the host is the caller's duty, which the
/// dispatch in this crate is proved to meet.
pub trait UsbInterfaceHandler {
    fn handle_urb(
        &mut self,
        interface: &UsbInterface,
        ep: UsbEndpoint,
        setup: SetupPacket,
        req: &[u8],
    ) -> Result<Vec<u8>, HandlerError>
        requires
            ep.direction() == Direction::In ==> req@.len() == 0,
    ;

    /// The class-specific descriptors of the interface, placed between its
    /// interface descriptor and its endpoint descriptors.
    fn get_class_specific_descriptor(&self) -> Vec<u8>;
}

/// The driver consulted for vendor requests on endpoint zero. As with an
/// interface handler, `req` is the data of a transfer towards the device and
/// the returned bytes are the data of a transfer towards the host.
pub trait UsbDeviceHandler {
    fn handle_urb(&mut self, setup: SetupPacket, req: &[u8]) -> Result<Vec<u8>, HandlerError>;
}

/// An interface handler that serves nothing: every transfer yields no data,
/// and the interface has no class-specific descriptors.
#[derive(Clone, Copy, Debug, Default)]
pub struct NullHandler;

impl UsbInterfaceHandler for NullHandler {
    fn handle_urb(
        &mut self,
        interface: &UsbInterface,
        ep: UsbEndpoint,
        setup: SetupPacket,
        req: &[u8],
    ) -> (r: Result<Vec<u8>, HandlerError>)
        ensures
            r matches Ok(data) && data@.len() == 0,
    {
        Ok(Vec::new())
    }

    fn get_class_specific_descriptor(&self) -> (blob: Vec<u8>)
        ensures
            blob@.len() == 0,
    {
        Vec::new()
    }
}

/// A device handler that serves nothing: every vendor request yields no data.
#[derive(Clone, Copy, Debug, Default)]
pub struct NullDeviceHandler;

impl UsbDeviceHandler for NullDeviceHandler {
    fn handle_urb(&mut self, setup: SetupPacket, req: &[u8]) -> (r: Result<Vec<u8>, HandlerError>)
        ensures
            r matches Ok(data) && data@.len() == 0,
    {
        Ok(Vec::new())
    }
}

} // verus!
