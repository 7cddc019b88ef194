//! The eight-byte SETUP packet that opens a control transfer.

use crate::consts::Direction;
use crate::wire::{le16, le16_at, push_le16, read_le16};
use vstd::prelude::*;

verus! {

/// Who a control request is addressed to: bits 0 to 4 of `bmRequestType`.
#[derive(Clone, Copy, Debug, PartialEq, Eq, Structural)]
pub enum Recipient {
    Device,
    Interface,
    Endpoint,
    Other,
}

/// The category of a control request: bits 5 and 6 of `bmRequestType`.
#[derive(Clone, Copy, Debug, PartialEq, Eq, Structural)]
pub enum RequestKind {
    Standard,
    Class,
    Vendor,
    Reserved,
}

/// A parsed SETUP packet.
#[derive(Clone, Copy, Debug, PartialEq, Eq, Structural)]
pub struct SetupPacket {
    /// bmRequestType
    pub request_type: u8,
    /// bRequest
    pub request: u8,
    /// wValue
    pub value: u16,
    /// wIndex
    pub index: u16,
    /// wLength
    pub length: u16,
}

impl SetupPacket {
    /// The packet held in the first eight bytes of `b`: two single bytes, then
    /// three little-endian 16-bit numbers.
    pub open spec fn decode(b: Seq<u8>) -> SetupPacket {
        SetupPacket {
            request_type: b[0],
            request: b[1],
            value: le16_at(b, 2),
            index: le16_at(b, 4),
            length: le16_at(b, 6),
        }
    }

    /// The eight bytes of the packet.
    pub open spec fn encode(&self) -> Seq<u8> {
        seq![self.request_type, self.request] + le16(self.value) + le16(self.index) + le16(
            self.length,
        )
    }

    /// In (device to host) when bit 7 of `bmRequestType` is set.
    pub open spec fn spec_direction(&self) -> Direction {
        if self.request_type >= 0x80 {
            Direction::In
        } else {
            Direction::Out
        }
    }

    /// Bits 0 to 4 of `bmRequestType`; the values above 2 all mean "other".
    pub open spec fn spec_recipient(&self) -> Recipient {
        let low = self.request_type % 32;
        if low == 0 {
            Recipient::Device
        } else if low == 1 {
            Recipient::Interface
        } else if low == 2 {
            Recipient::Endpoint
        } else {
            Recipient::Other
        }
    }

    /// Bits 5 and 6 of `bmRequestType`.
    pub open spec fn spec_kind(&self) -> RequestKind {
        let bits = (self.request_type / 32) % 4;
        if bits == 0 {
            RequestKind::Standard
        } else if bits == 1 {
            RequestKind::Class
        } else if bits == 2 {
            RequestKind::Vendor
        } else {
            RequestKind::Reserved
        }
    }

    /// Parses the eight bytes of a SETUP packet.
    pub fn parse(setup: &[u8; 8]) -> (p: SetupPacket)
        ensures
            p == Self::decode(setup@),
    {
        let bytes: &[u8] = setup.as_slice();
        SetupPacket {
            request_type: bytes[0],
            request: bytes[1],
            value: read_le16(bytes, 2),
            index: read_le16(bytes, 4),
            length: read_le16(bytes, 6),
        }
    }

    /// The eight bytes that `parse` reads this packet from.
    pub fn to_bytes(&self) -> (out: Vec<u8>)
        ensures
            out@ == self.encode(),
            out@.len() == 8,
    {
        let mut out: Vec<u8> = Vec::new();
        out.push(self.request_type);
        out.push(self.request);
        assert(out@ =~= seq![self.request_type, self.request]);
        push_le16(&mut out, self.value);
        push_le16(&mut out, self.index);
        push_le16(&mut out, self.length);
        out
    }

    /// The direction of the data stage.
    #[verifier::when_used_as_spec(spec_direction)]
    pub fn direction(&self) -> (d: Direction)
        ensures
            d == self.spec_direction(),
    {
        if self.request_type >= 0x80 {
            Direction::In
        } else {
            Direction::Out
        }
    }

    /// Who the request is addressed to.
    #[verifier::when_used_as_spec(spec_recipient)]
    pub fn recipient(&self) -> (r: Recipient)
        ensures
            r == self.spec_recipient(),
    {
        let low: u8 = self.request_type % 32;
        if low == 0 {
            Recipient::Device
        } else if low == 1 {
            Recipient::Interface
        } else if low == 2 {
            Recipient::Endpoint
        } else {
            Recipient::Other
        }
    }

    /// The category of the request.
    #[verifier::when_used_as_spec(spec_kind)]
    pub fn kind(&self) -> (k: RequestKind)
        ensures
            k == self.spec_kind(),
    {
        let bits: u8 = (self.request_type / 32) % 4;
        if bits == 0 {
            RequestKind::Standard
        } else if bits == 1 {
            RequestKind::Class
        } else if bits == 2 {
            RequestKind::Vendor
        } else {
            RequestKind::Reserved
        }
    }

    /// Parsing the encoding of a packet gives the packet back, and encoding a
    /// parsed packet gives back the eight bytes it was parsed from.
    pub proof fn lemma_round_trip(p: SetupPacket, b: Seq<u8>)
        ensures
            p.encode().len() == 8,
            Self::decode(p.encode()) == p,
            b.len() == 8 ==> Self::decode(b).encode() == b,
    {
        if b.len() == 8 {
            assert(Self::decode(b).encode() =~= b);
        }
    }
}

} // verus!
