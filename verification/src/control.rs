//! Dispatch of one transfer: the standard requests on endpoint zero, which
//! the device answers itself, and the routes to the plugged-in handlers.

use crate::consts::{DescriptorType, Direction, StandardRequest};
use crate::descriptor::{
    bos, bos_descriptor, configuration_descriptor, device_descriptor, device_qualifier,
    string_at, truncate_to, truncated,
};
use crate::device::{DeviceModel, UsbDevice};
use crate::endpoint::UsbEndpoint;
use crate::interface::{HandlerError, UsbDeviceHandler, UsbInterfaceHandler};
use crate::setup::{RequestKind, SetupPacket};
use vstd::prelude::*;

verus! {

/// Who serves a transfer.
#[derive(Clone, Copy, Debug, PartialEq, Eq, Structural)]
pub enum UrbRoute {
    /// The device itself: a standard request on endpoint zero.
    Standard,
    /// The handler of the interface with this number.
    Interface(usize),
    /// The device handler.
    Device,
    /// Nobody: the transfer is answered with no data.
    Nothing,
}

impl DeviceModel {
    /// The interface with the number `i` exists and has a handler.
    pub open spec fn has_handler(self, i: usize) -> bool {
        i < self.interfaces.len() && i < self.handlers
    }

    /// Who serves a transfer on an endpoint owned by `owner` (no interface
    /// for endpoint zero).
    ///
    /// A transfer on an endpoint of an interface goes to the handler of that
    /// interface. On endpoint zero the category of the request decides: a
    /// standard request is answered by the device itself; a class request
    /// goes to the handler of the interface named by the low byte of
    /// `wIndex`; a vendor request goes to the device handler. Where the
    /// handler in question does not exist, and for the reserved category,
    /// nobody serves the transfer.
    pub open spec fn route(self, owner: Option<usize>, setup: SetupPacket) -> UrbRoute {
        match owner {
            Some(i) => if self.has_handler(i) {
                UrbRoute::Interface(i)
            } else {
                UrbRoute::Nothing
            },
            None => match setup.kind() {
                RequestKind::Standard => UrbRoute::Standard,
                RequestKind::Class => if self.has_handler((setup.index % 256) as usize) {
                    UrbRoute::Interface((setup.index % 256) as usize)
                } else {
                    UrbRoute::Nothing
                },
                RequestKind::Vendor => if self.has_device_handler {
                    UrbRoute::Device
                } else {
                    UrbRoute::Nothing
                },
                RequestKind::Reserved => UrbRoute::Nothing,
            },
        }
    }

    /// The descriptor that `GET_DESCRIPTOR` asks for: its type is the high
    /// byte of `wValue`, the string index is the low byte, and `wIndex` (the
    /// language of a string) is ignored. No more than `wLength` bytes are
    /// returned; a type that the device does not serve yields nothing.
    pub open spec fn get_descriptor(self, setup: SetupPacket) -> Seq<u8> {
        match DescriptorType::of((setup.value / 256) as u8) {
            Some(DescriptorType::Device) => truncated(device_descriptor(self), setup.length),
            Some(DescriptorType::Configuration) => truncated(
                configuration_descriptor(self),
                setup.length,
            ),
            Some(DescriptorType::String) => truncated(
                string_at(self, (setup.value % 256) as u8),
                setup.length,
            ),
            Some(DescriptorType::DeviceQualifier) => truncated(
                device_qualifier(self),
                setup.length,
            ),
            Some(DescriptorType::BOS) => truncated(bos_descriptor(), setup.length),
            _ => Seq::empty(),
        }
    }

    /// The data that answers a standard request on endpoint zero.
    ///
    /// `GET_DESCRIPTOR` yields the descriptor, `GET_CONFIGURATION` the one
    /// byte of the active configuration, `GET_STATUS` two zero bytes; every
    /// other request, known or not, yields nothing.
    pub open spec fn standard_response(self, setup: SetupPacket) -> Seq<u8> {
        match StandardRequest::of(setup.request) {
            Some(StandardRequest::GetDescriptor) => self.get_descriptor(setup),
            Some(StandardRequest::GetConfiguration) => seq![self.configuration_value],
            Some(StandardRequest::GetStatus) => seq![0u8, 0u8],
            _ => Seq::empty(),
        }
    }

    /// The device after a standard request on endpoint zero:
    /// `SET_CONFIGURATION` makes the low byte of `wValue` the active
    /// configuration, and no other request changes anything.
    pub open spec fn after_standard(self, setup: SetupPacket) -> DeviceModel {
        match StandardRequest::of(setup.request) {
            Some(StandardRequest::SetConfiguration) => self.with_configuration(
                (setup.value % 256) as u8,
            ),
            _ => self,
        }
    }
}

impl DeviceModel {
    /// A standard request leaves a well-formed device well formed. After
    /// `SET_CONFIGURATION`, `GET_CONFIGURATION` reads back the low byte of
    /// the value that was set, and the device is configured exactly if that
    /// byte names one of its configurations; after any other request the
    /// active configuration is what it was.
    pub proof fn lemma_after_standard(self, setup: SetupPacket)
        ensures
            self.wf() ==> self.after_standard(setup).wf(),
            StandardRequest::of(setup.request) == Some(StandardRequest::SetConfiguration) ==> {
                let after = self.after_standard(setup);
                &&& after.configuration_value == setup.value % 256
                &&& forall|get: SetupPacket|
                    StandardRequest::of(get.request) == Some(StandardRequest::GetConfiguration)
                        ==> #[trigger] after.standard_response(get) == seq![
                        (setup.value % 256) as u8,
                    ]
                &&& after.configured() <==> 1 <= setup.value % 256 <= self.num_configurations
            },
            StandardRequest::of(setup.request) != Some(StandardRequest::SetConfiguration)
                ==> self.after_standard(setup) == self,
    {
        if self.wf() {
            self.lemma_with_configuration_wf(self.after_standard(setup).configuration_value);
            assert(self.after_standard(setup) == self.with_configuration(
                self.after_standard(setup).configuration_value,
            ));
        }
    }
}

/// The answer to a standard request is never longer than `wLength` allows
/// a descriptor to be, and so fits any length field.
pub proof fn lemma_standard_response_len(d: DeviceModel, setup: SetupPacket)
    ensures
        d.standard_response(setup).len() <= 0xFFFF,
        d.get_descriptor(setup).len() <= setup.length,
{
}

/// The payload of the reply to a submit, given what the handler returned: its
/// data, or nothing where it failed or returned more than a length field can
/// count.
pub open spec fn payload_of(result: Result<Seq<u8>, HandlerError>) -> Seq<u8> {
    match result {
        Ok(data) => if data.len() <= u32::MAX {
            data
        } else {
            Seq::empty()
        },
        Err(_) => Seq::empty(),
    }
}

/// The view of a handler's result.
pub open spec fn result_model(result: Result<Vec<u8>, HandlerError>) -> Result<
    Seq<u8>,
    HandlerError,
> {
    match result {
        Ok(data) => Ok(data@),
        Err(e) => Err(e),
    }
}

/// Turns the result of a transfer into the payload of the reply: a failed
/// transfer, like an oversized answer, counts as an answer without data.
pub fn response_payload(result: Result<Vec<u8>, HandlerError>) -> (payload: Vec<u8>)
    ensures
        payload@ == payload_of(result_model(result)),
        payload@.len() <= u32::MAX,
{
    match result {
        Ok(data) => {
            if data.len() <= u32::MAX as usize {
                data
            } else {
                Vec::new()
            }
        },
        Err(_) => Vec::new(),
    }
}

impl<H, D> UsbDevice<H, D> {
    /// Who serves a transfer on an endpoint owned by `owner`.
    pub fn route(&self, owner: Option<usize>, setup: &SetupPacket) -> (r: UrbRoute)
        ensures
            r == self@.route(owner, *setup),
    {
        match owner {
            Some(i) => {
                if i < self.interfaces.len() && i < self.handlers.len() {
                    UrbRoute::Interface(i)
                } else {
                    UrbRoute::Nothing
                }
            },
            None => match setup.kind() {
                RequestKind::Standard => UrbRoute::Standard,
                RequestKind::Class => {
                    let i: usize = (setup.index % 256) as usize;
                    if i < self.interfaces.len() && i < self.handlers.len() {
                        UrbRoute::Interface(i)
                    } else {
                        UrbRoute::Nothing
                    }
                },
                RequestKind::Vendor => {
                    if self.device_handler.is_some() {
                        UrbRoute::Device
                    } else {
                        UrbRoute::Nothing
                    }
                },
                RequestKind::Reserved => UrbRoute::Nothing,
            },
        }
    }

    /// Serves `GET_DESCRIPTOR`.
    pub fn get_descriptor(&self, setup: &SetupPacket) -> (out: Vec<u8>)
        ensures
            out@ == self@.get_descriptor(*setup),
            out@.len() <= setup.length,
    {
        let kind: u8 = (setup.value / 256) as u8;
        match DescriptorType::from_u8(kind) {
            Some(DescriptorType::Device) => truncate_to(self.device_descriptor(), setup.length),
            Some(DescriptorType::Configuration) => truncate_to(
                self.configuration_descriptor(),
                setup.length,
            ),
            Some(DescriptorType::String) => truncate_to(
                self.string_descriptor((setup.value % 256) as u8),
                setup.length,
            ),
            Some(DescriptorType::DeviceQualifier) => truncate_to(
                self.device_qualifier(),
                setup.length,
            ),
            Some(DescriptorType::BOS) => truncate_to(bos(), setup.length),
            _ => Vec::new(),
        }
    }

    /// Serves a standard request on endpoint zero.
    pub fn standard_request(&mut self, setup: &SetupPacket) -> (out: Vec<u8>)
        ensures
            out@ == old(self)@.standard_response(*setup),
            final(self)@ == old(self)@.after_standard(*setup),
            final(self).handlers == old(self).handlers,
            final(self).device_handler == old(self).device_handler,
            out@.len() <= 0xFFFF,
            old(self)@.wf() ==> final(self)@.wf(),
    {
        proof {
            if self@.wf() {
                self@.lemma_after_standard(*setup);
            }
        }
        match StandardRequest::from_u8(setup.request) {
            Some(StandardRequest::GetDescriptor) => self.get_descriptor(setup),
            Some(StandardRequest::GetConfiguration) => {
                let mut out: Vec<u8> = Vec::new();
                out.push(self.configuration_value);
                assert(out@ =~= seq![self.configuration_value]);
                out
            },
            Some(StandardRequest::GetStatus) => {
                let mut out: Vec<u8> = Vec::new();
                out.push(0);
                out.push(0);
                assert(out@ =~= seq![0u8, 0u8]);
                out
            },
            Some(StandardRequest::SetConfiguration) => {
                self.configuration_value = (setup.value % 256) as u8;
                Vec::new()
            },
            _ => Vec::new(),
        }
    }
}

impl<H: UsbInterfaceHandler, D: UsbDeviceHandler> UsbDevice<H, D> {
    /// Serves one transfer on the endpoint `ep`, owned by the interface
    /// `owner` or, for endpoint zero, by the device.
    ///
    /// A standard request on endpoint zero is answered by the device and
    /// cannot fail. A transfer that nobody serves is answered with no data.
    /// Everything else is the work of a handler, whose result is returned as
    /// it is; only that handler can have changed. The handler is given `req`
    /// on an endpoint towards the device and no data on one towards the
    /// host.
    pub fn handle_urb(
        &mut self,
        ep: UsbEndpoint,
        owner: Option<usize>,
        setup: SetupPacket,
        req: &[u8],
    ) -> (r: Result<Vec<u8>, HandlerError>)
        ensures
            final(self).handlers@.len() == old(self).handlers@.len(),
            old(self)@.wf() ==> final(self)@.wf(),
            match old(self)@.route(owner, setup) {
                UrbRoute::Standard => {
                    &&& r matches Ok(data) && data@ == old(self)@.standard_response(setup)
                    &&& final(self)@ == old(self)@.after_standard(setup)
                    &&& final(self).handlers == old(self).handlers
                    &&& final(self).device_handler == old(self).device_handler
                },
                UrbRoute::Nothing => {
                    &&& r matches Ok(data) && data@.len() == 0
                    &&& *final(self) == *old(self)
                },
                UrbRoute::Interface(i) => {
                    &&& final(self)@ == old(self)@
                    &&& final(self).device_handler == old(self).device_handler
                    &&& forall|k: int|
                        0 <= k < old(self).handlers@.len() && k != i ==> final(self).handlers@[k]
                            == old(self).handlers@[k]
                },
                UrbRoute::Device => {
                    &&& final(self)@ == old(self)@
                    &&& final(self).handlers == old(self).handlers
                },
            },
    {
        let nothing: Vec<u8> = Vec::new();
        let data: &[u8] = match ep.direction() {
            Direction::In => nothing.as_slice(),
            Direction::Out => req,
        };
        match self.route(owner, &setup) {
            UrbRoute::Standard => Ok(self.standard_request(&setup)),
            UrbRoute::Nothing => Ok(Vec::new()),
            UrbRoute::Interface(i) => {
                self.handlers[i].handle_urb(&self.interfaces[i], ep, setup, data)
            },
            UrbRoute::Device => {
                match &mut self.device_handler {
                    Some(handler) => handler.handle_urb(setup, data),
                    None => Ok(Vec::new()),
                }
            },
        }
    }
}

} // verus!
