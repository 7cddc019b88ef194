//! Passing transfers on to a device of the host: which host transfer a
//! request turns into, and what is made of its outcome. The transfers
//! themselves are carried out by the caller.

use crate::consts::{Direction, EndpointAttributes};
use crate::endpoint::UsbEndpoint;
use crate::setup::SetupPacket;
use crate::wire::copy_range;
use vstd::prelude::*;

verus! {

/// Time allowed for one transfer on the host, in seconds.
pub const HOST_TIMEOUT_SECS: u64 = 1;

/// Size of the buffer for a control read that the device handler passes on.
pub const HOST_CONTROL_BUFFER_LEN: usize = 1024;

/// The transfer to carry out on the host.
#[derive(Clone, Copy, Debug, PartialEq, Eq, Structural)]
pub enum HostTransfer {
    ControlIn,
    ControlOut,
    InterruptIn,
    InterruptOut,
    BulkIn,
    BulkOut,
    /// None: the endpoint is of a type that is not passed on.
    Unsupported,
}

impl HostTransfer {
    /// Whether the transfer brings data from the device.
    pub open spec fn spec_is_read(&self) -> bool {
        *self == HostTransfer::ControlIn || *self == HostTransfer::InterruptIn || *self
            == HostTransfer::BulkIn
    }

    /// Whether the transfer brings data from the device.
    #[verifier::when_used_as_spec(spec_is_read)]
    pub fn is_read(&self) -> (b: bool)
        ensures
            b == self.spec_is_read(),
    {
        match self {
            HostTransfer::ControlIn | HostTransfer::InterruptIn | HostTransfer::BulkIn => true,
            _ => false,
        }
    }
}

/// The host transfer for a request on the endpoint `ep`: control, interrupt
/// or bulk as the attributes of the endpoint say, in the direction of the
/// endpoint; none for any other attributes.
pub open spec fn interface_transfer(ep: UsbEndpoint) -> HostTransfer {
    let read = ep.direction() == Direction::In;
    if ep.attributes == EndpointAttributes::Control.value() {
        if read {
            HostTransfer::ControlIn
        } else {
            HostTransfer::ControlOut
        }
    } else if ep.attributes == EndpointAttributes::Interrupt.value() {
        if read {
            HostTransfer::InterruptIn
        } else {
            HostTransfer::InterruptOut
        }
    } else if ep.attributes == EndpointAttributes::Bulk.value() {
        if read {
            HostTransfer::BulkIn
        } else {
            HostTransfer::BulkOut
        }
    } else {
        HostTransfer::Unsupported
    }
}

/// The host transfer for a control request that the device handler passes
/// on: a read when bit 7 of `bmRequestType` is set, a write otherwise.
pub open spec fn device_transfer(setup: SetupPacket) -> HostTransfer {
    if setup.direction() == Direction::In {
        HostTransfer::ControlIn
    } else {
        HostTransfer::ControlOut
    }
}

/// What a passed-on transfer returns to the peer: for a read that brought
/// `n` bytes, the first `n` bytes of the buffer (all of it, should `n` be
/// larger); nothing for a read that failed, and nothing for a write.
pub open spec fn passed_on(
    transfer: HostTransfer,
    buffer: Seq<u8>,
    transferred: Option<usize>,
) -> Seq<u8> {
    match transferred {
        Some(n) => if !transfer.is_read() {
            Seq::empty()
        } else if n <= buffer.len() {
            buffer.take(n as int)
        } else {
            buffer
        },
        None => Seq::empty(),
    }
}

/// The host transfer for a request on the endpoint `ep`.
pub fn host_interface_transfer(ep: &UsbEndpoint) -> (t: HostTransfer)
    ensures
        t == interface_transfer(*ep),
{
    let read = ep.address >= 0x80;
    if ep.attributes == EndpointAttributes::Control.code() {
        if read {
            HostTransfer::ControlIn
        } else {
            HostTransfer::ControlOut
        }
    } else if ep.attributes == EndpointAttributes::Interrupt.code() {
        if read {
            HostTransfer::InterruptIn
        } else {
            HostTransfer::InterruptOut
        }
    } else if ep.attributes == EndpointAttributes::Bulk.code() {
        if read {
            HostTransfer::BulkIn
        } else {
            HostTransfer::BulkOut
        }
    } else {
        HostTransfer::Unsupported
    }
}

/// The host transfer for a control request that the device handler passes
/// on.
pub fn host_device_transfer(setup: &SetupPacket) -> (t: HostTransfer)
    ensures
        t == device_transfer(*setup),
{
    if setup.request_type >= 0x80 {
        HostTransfer::ControlIn
    } else {
        HostTransfer::ControlOut
    }
}

/// The size of the buffer for a read on the endpoint `ep`: its maximum
/// packet size.
pub fn host_buffer_len(ep: &UsbEndpoint) -> (n: usize)
    ensures
        n == ep.max_packet_size,
{
    ep.max_packet_size as usize
}

/// What a passed-on transfer returns to the peer, given the buffer it used
/// and the number of bytes it brought, or nothing where it failed.
pub fn host_response(transfer: HostTransfer, buffer: &[u8], transferred: Option<usize>) -> (out:
    Vec<u8>)
    ensures
        out@ == passed_on(transfer, buffer@, transferred),
{
    match transferred {
        Some(n) => {
            if !transfer.is_read() {
                Vec::new()
            } else if n <= buffer.len() {
                let out = copy_range(buffer, 0, n);
                assert(out@ =~= buffer@.take(n as int));
                out
            } else {
                let out = copy_range(buffer, 0, buffer.len());
                assert(out@ =~= buffer@);
                out
            }
        },
        None => Vec::new(),
    }
}

} // verus!
