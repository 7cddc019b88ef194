//! Endpoint metadata.

use crate::consts::{Direction, EndpointAttributes};
use vstd::prelude::*;

verus! {

/// One endpoint of a device: its address (bit 7 is the direction, bits 0 to 3
/// the number), its `bmAttributes`, its maximum packet size and its polling
/// interval.
#[derive(Clone, Copy, Debug, PartialEq, Eq, Structural)]
pub struct UsbEndpoint {
    pub address: u8,
    pub attributes: u8,
    pub max_packet_size: u16,
    pub interval: u8,
}

impl UsbEndpoint {
    /// In when bit 7 of the address is set, out otherwise.
    pub open spec fn spec_direction(&self) -> Direction {
        if self.address >= 0x80 {
            Direction::In
        } else {
            Direction::Out
        }
    }

    /// The endpoint number: the address without its direction bit and
    /// reserved bits.
    pub open spec fn spec_number(&self) -> u8 {
        self.address % 16
    }

    /// Whether this is endpoint zero, in either direction.
    pub open spec fn spec_is_ep0(&self) -> bool {
        self.address % 128 == 0
    }

    /// The transfer type held in the two low bits of the attributes.
    pub open spec fn spec_transfer_type(&self) -> EndpointAttributes {
        let low = self.attributes % 4;
        if low == 0 {
            EndpointAttributes::Control
        } else if low == 1 {
            EndpointAttributes::Isochronous
        } else if low == 2 {
            EndpointAttributes::Bulk
        } else {
            EndpointAttributes::Interrupt
        }
    }

    /// The control endpoint with the given address and packet size.
    pub open spec fn control(address: u8, max_packet_size: u16) -> UsbEndpoint {
        UsbEndpoint { address, attributes: 0, max_packet_size, interval: 0 }
    }

    /// The direction of the endpoint.
    #[verifier::when_used_as_spec(spec_direction)]
    pub fn direction(&self) -> (d: Direction)
        ensures
            d == self.spec_direction(),
    {
        if self.address >= 0x80 {
            Direction::In
        } else {
            Direction::Out
        }
    }

    /// The endpoint number.
    #[verifier::when_used_as_spec(spec_number)]
    pub fn number(&self) -> (n: u8)
        ensures
            n == self.spec_number(),
    {
        self.address % 16
    }

    /// Whether this is endpoint zero, in either direction.
    #[verifier::when_used_as_spec(spec_is_ep0)]
    pub fn is_ep0(&self) -> (b: bool)
        ensures
            b == self.spec_is_ep0(),
    {
        self.address % 128 == 0
    }

    /// The transfer type of the endpoint.
    #[verifier::when_used_as_spec(spec_transfer_type)]
    pub fn transfer_type(&self) -> (t: EndpointAttributes)
        ensures
            t == self.spec_transfer_type(),
            EndpointAttributes::of((self.attributes % 4) as u8) == Some(t),
    {
        let low: u8 = self.attributes % 4;
        if low == 0 {
            EndpointAttributes::Control
        } else if low == 1 {
            EndpointAttributes::Isochronous
        } else if low == 2 {
            EndpointAttributes::Bulk
        } else {
            EndpointAttributes::Interrupt
        }
    }
}

} // verus!
