//! Numeric codes of the USB protocol: speeds, class codes, transfer types,
//! standard requests and descriptor types.
//!
//! Every enum comes with `code`, the number used on the wire, and, where the
//! protocol engine has to classify an incoming byte, with `from_u8`.

use vstd::prelude::*;

verus! {

/// Maximum packet size of the emulated endpoint zero.
pub const EP0_MAX_PACKET_SIZE: u16 = 64;

/// Known USB speeds.
#[derive(Copy, Clone, Debug, PartialEq, Eq, Structural)]
pub enum UsbSpeed {
    Unknown,
    Low,
    Full,
    High,
    Wireless,
    Super,
    SuperPlus,
}

impl UsbSpeed {
    /// The speed code carried in a device record.
    pub open spec fn value(self) -> u32 {
        match self {
            UsbSpeed::Unknown => 0,
            UsbSpeed::Low => 1,
            UsbSpeed::Full => 2,
            UsbSpeed::High => 3,
            UsbSpeed::Wireless => 4,
            UsbSpeed::Super => 5,
            UsbSpeed::SuperPlus => 6,
        }
    }

    /// The number that stands for this value on the wire.
    pub fn code(self) -> (c: u32)
        ensures
            c == self.value(),
    {
        match self {
            UsbSpeed::Unknown => 0,
            UsbSpeed::Low => 1,
            UsbSpeed::Full => 2,
            UsbSpeed::High => 3,
            UsbSpeed::Wireless => 4,
            UsbSpeed::Super => 5,
            UsbSpeed::SuperPlus => 6,
        }
    }
}

/// Defined USB class codes.
#[allow(clippy::upper_case_acronyms)]
#[derive(Copy, Clone, Debug, PartialEq, Eq, Structural)]
pub enum ClassCode {
    SeeInterface,
    Audio,
    CDC,
    HID,
    Physical,
    Image,
    Printer,
    MassStorage,
    Hub,
    CDCData,
    SmartCard,
    ContentSecurity,
    Video,
    PersonalHealthcare,
    AudioVideo,
    Billboard,
    TypeCBridge,
    Diagnostic,
    WirelessController,
    Misc,
    ApplicationSpecific,
    VendorSpecific,
}

impl ClassCode {
    /// The class code as it appears in descriptors.
    pub open spec fn value(self) -> u8 {
        match self {
            ClassCode::SeeInterface => 0x00,
            ClassCode::Audio => 0x01,
            ClassCode::CDC => 0x02,
            ClassCode::HID => 0x03,
            ClassCode::Physical => 0x05,
            ClassCode::Image => 0x06,
            ClassCode::Printer => 0x07,
            ClassCode::MassStorage => 0x08,
            ClassCode::Hub => 0x09,
            ClassCode::CDCData => 0x0A,
            ClassCode::SmartCard => 0x0B,
            ClassCode::ContentSecurity => 0x0D,
            ClassCode::Video => 0x0E,
            ClassCode::PersonalHealthcare => 0x0F,
            ClassCode::AudioVideo => 0x10,
            ClassCode::Billboard => 0x11,
            ClassCode::TypeCBridge => 0x12,
            ClassCode::Diagnostic => 0xDC,
            ClassCode::WirelessController => 0xE0,
            ClassCode::Misc => 0xEF,
            ClassCode::ApplicationSpecific => 0xFE,
            ClassCode::VendorSpecific => 0xFF,
        }
    }

    /// The number that stands for this value on the wire.
    pub fn code(self) -> (c: u8)
        ensures
            c == self.value(),
    {
        match self {
            ClassCode::SeeInterface => 0x00,
            ClassCode::Audio => 0x01,
            ClassCode::CDC => 0x02,
            ClassCode::HID => 0x03,
            ClassCode::Physical => 0x05,
            ClassCode::Image => 0x06,
            ClassCode::Printer => 0x07,
            ClassCode::MassStorage => 0x08,
            ClassCode::Hub => 0x09,
            ClassCode::CDCData => 0x0A,
            ClassCode::SmartCard => 0x0B,
            ClassCode::ContentSecurity => 0x0D,
            ClassCode::Video => 0x0E,
            ClassCode::PersonalHealthcare => 0x0F,
            ClassCode::AudioVideo => 0x10,
            ClassCode::Billboard => 0x11,
            ClassCode::TypeCBridge => 0x12,
            ClassCode::Diagnostic => 0xDC,
            ClassCode::WirelessController => 0xE0,
            ClassCode::Misc => 0xEF,
            ClassCode::ApplicationSpecific => 0xFE,
            ClassCode::VendorSpecific => 0xFF,
        }
    }
}

/// Transfer types of an endpoint, as held in the low bits of `bmAttributes`.
#[derive(Copy, Clone, Debug, PartialEq, Eq, Structural)]
pub enum EndpointAttributes {
    Control,
    Isochronous,
    Bulk,
    Interrupt,
}

impl EndpointAttributes {
    /// The number that stands for this value on the wire.
    pub open spec fn value(self) -> u8 {
        match self {
            EndpointAttributes::Control => 0,
            EndpointAttributes::Isochronous => 1,
            EndpointAttributes::Bulk => 2,
            EndpointAttributes::Interrupt => 3,
        }
    }

    /// The transfer type with code `v`, if there is one.
    pub open spec fn of(v: u8) -> Option<EndpointAttributes> {
        if v == 0 {
            Some(EndpointAttributes::Control)
        } else if v == 1 {
            Some(EndpointAttributes::Isochronous)
        } else if v == 2 {
            Some(EndpointAttributes::Bulk)
        } else if v == 3 {
            Some(EndpointAttributes::Interrupt)
        } else {
            None
        }
    }

    /// The number that stands for this value on the wire.
    pub fn code(self) -> (c: u8)
        ensures
            c == self.value(),
    {
        match self {
            EndpointAttributes::Control => 0,
            EndpointAttributes::Isochronous => 1,
            EndpointAttributes::Bulk => 2,
            EndpointAttributes::Interrupt => 3,
        }
    }

    /// The value that `v` stands for, if any.
    pub fn from_u8(v: u8) -> (r: Option<EndpointAttributes>)
        ensures
            r == Self::of(v),
    {
        match v {
            0 => Some(EndpointAttributes::Control),
            1 => Some(EndpointAttributes::Isochronous),
            2 => Some(EndpointAttributes::Bulk),
            3 => Some(EndpointAttributes::Interrupt),
            _ => None,
        }
    }

    /// `of` inverts `value`, and yields nothing for a number that is not the
    /// code of a transfer type.
    pub proof fn lemma_code_round_trip(a: EndpointAttributes, v: u8)
        ensures
            Self::of(a.value()) == Some(a),
            Self::of(v) matches Some(b) ==> b.value() == v,
            Self::of(v) is None <==> v >= 4,
    {
    }
}

/// Direction of a transfer, seen from the host.
#[derive(Copy, Clone, Debug, PartialEq, Eq, Structural)]
pub enum Direction {
    /// Device to host.
    In,
    /// Host to device.
    Out,
}

/// Standard control requests.
#[derive(Copy, Clone, Debug, PartialEq, Eq, Structural)]
pub enum StandardRequest {
    GetStatus,
    ClearFeature,
    SetFeature,
    GetDescriptor,
    SetDescriptor,
    GetConfiguration,
    SetConfiguration,
    GetInterface,
    SetInterface,
    SynthFrame,
}

impl StandardRequest {
    /// The number that stands for this value on the wire.
    pub open spec fn value(self) -> u8 {
        match self {
            StandardRequest::GetStatus => 0x00,
            StandardRequest::ClearFeature => 0x01,
            StandardRequest::SetFeature => 0x03,
            StandardRequest::GetDescriptor => 0x06,
            StandardRequest::SetDescriptor => 0x07,
            StandardRequest::GetConfiguration => 0x08,
            StandardRequest::SetConfiguration => 0x09,
            StandardRequest::GetInterface => 0x0A,
            StandardRequest::SetInterface => 0x11,
            StandardRequest::SynthFrame => 0x12,
        }
    }

    /// The standard request with code `v`, if there is one.
    pub open spec fn of(v: u8) -> Option<StandardRequest> {
        if v == 0x00 {
            Some(StandardRequest::GetStatus)
        } else if v == 0x01 {
            Some(StandardRequest::ClearFeature)
        } else if v == 0x03 {
            Some(StandardRequest::SetFeature)
        } else if v == 0x06 {
            Some(StandardRequest::GetDescriptor)
        } else if v == 0x07 {
            Some(StandardRequest::SetDescriptor)
        } else if v == 0x08 {
            Some(StandardRequest::GetConfiguration)
        } else if v == 0x09 {
            Some(StandardRequest::SetConfiguration)
        } else if v == 0x0A {
            Some(StandardRequest::GetInterface)
        } else if v == 0x11 {
            Some(StandardRequest::SetInterface)
        } else if v == 0x12 {
            Some(StandardRequest::SynthFrame)
        } else {
            None
        }
    }

    /// The number that stands for this value on the wire.
    pub fn code(self) -> (c: u8)
        ensures
            c == self.value(),
    {
        match self {
            StandardRequest::GetStatus => 0x00,
            StandardRequest::ClearFeature => 0x01,
            StandardRequest::SetFeature => 0x03,
            StandardRequest::GetDescriptor => 0x06,
            StandardRequest::SetDescriptor => 0x07,
            StandardRequest::GetConfiguration => 0x08,
            StandardRequest::SetConfiguration => 0x09,
            StandardRequest::GetInterface => 0x0A,
            StandardRequest::SetInterface => 0x11,
            StandardRequest::SynthFrame => 0x12,
        }
    }

    /// The value that `v` stands for, if any.
    pub fn from_u8(v: u8) -> (r: Option<StandardRequest>)
        ensures
            r == Self::of(v),
    {
        match v {
            0x00 => Some(StandardRequest::GetStatus),
            0x01 => Some(StandardRequest::ClearFeature),
            0x03 => Some(StandardRequest::SetFeature),
            0x06 => Some(StandardRequest::GetDescriptor),
            0x07 => Some(StandardRequest::SetDescriptor),
            0x08 => Some(StandardRequest::GetConfiguration),
            0x09 => Some(StandardRequest::SetConfiguration),
            0x0A => Some(StandardRequest::GetInterface),
            0x11 => Some(StandardRequest::SetInterface),
            0x12 => Some(StandardRequest::SynthFrame),
            _ => None,
        }
    }

    /// `of` inverts `value`.
    pub proof fn lemma_code_round_trip(r: StandardRequest, v: u8)
        ensures
            Self::of(r.value()) == Some(r),
            Self::of(v) matches Some(q) ==> q.value() == v,
    {
    }
}

/// Descriptor types.
#[allow(clippy::upper_case_acronyms)]
#[derive(Copy, Clone, Debug, PartialEq, Eq, Structural)]
pub enum DescriptorType {
    Device,
    Configuration,
    String,
    Interface,
    Endpoint,
    DeviceQualifier,
    OtherSpeedConfiguration,
    InterfacePower,
    OTG,
    Debug,
    InterfaceAssociation,
    BOS,
}

impl DescriptorType {
    /// The number that stands for this value on the wire.
    pub open spec fn value(self) -> u8 {
        match self {
            DescriptorType::Device => 0x01,
            DescriptorType::Configuration => 0x02,
            DescriptorType::String => 0x03,
            DescriptorType::Interface => 0x04,
            DescriptorType::Endpoint => 0x05,
            DescriptorType::DeviceQualifier => 0x06,
            DescriptorType::OtherSpeedConfiguration => 0x07,
            DescriptorType::InterfacePower => 0x08,
            DescriptorType::OTG => 0x09,
            DescriptorType::Debug => 0x0A,
            DescriptorType::InterfaceAssociation => 0x0B,
            DescriptorType::BOS => 0x0F,
        }
    }

    /// The descriptor type with code `v`, if there is one.
    pub open spec fn of(v: u8) -> Option<DescriptorType> {
        if v == 0x01 {
            Some(DescriptorType::Device)
        } else if v == 0x02 {
            Some(DescriptorType::Configuration)
        } else if v == 0x03 {
            Some(DescriptorType::String)
        } else if v == 0x04 {
            Some(DescriptorType::Interface)
        } else if v == 0x05 {
            Some(DescriptorType::Endpoint)
        } else if v == 0x06 {
            Some(DescriptorType::DeviceQualifier)
        } else if v == 0x07 {
            Some(DescriptorType::OtherSpeedConfiguration)
        } else if v == 0x08 {
            Some(DescriptorType::InterfacePower)
        } else if v == 0x09 {
            Some(DescriptorType::OTG)
        } else if v == 0x0A {
            Some(DescriptorType::Debug)
        } else if v == 0x0B {
            Some(DescriptorType::InterfaceAssociation)
        } else if v == 0x0F {
            Some(DescriptorType::BOS)
        } else {
            None
        }
    }

    /// The number that stands for this value on the wire.
    pub fn code(self) -> (c: u8)
        ensures
            c == self.value(),
    {
        match self {
            DescriptorType::Device => 0x01,
            DescriptorType::Configuration => 0x02,
            DescriptorType::String => 0x03,
            DescriptorType::Interface => 0x04,
            DescriptorType::Endpoint => 0x05,
            DescriptorType::DeviceQualifier => 0x06,
            DescriptorType::OtherSpeedConfiguration => 0x07,
            DescriptorType::InterfacePower => 0x08,
            DescriptorType::OTG => 0x09,
            DescriptorType::Debug => 0x0A,
            DescriptorType::InterfaceAssociation => 0x0B,
            DescriptorType::BOS => 0x0F,
        }
    }

    /// The value that `v` stands for, if any.
    pub fn from_u8(v: u8) -> (r: Option<DescriptorType>)
        ensures
            r == Self::of(v),
    {
        match v {
            0x01 => Some(DescriptorType::Device),
            0x02 => Some(DescriptorType::Configuration),
            0x03 => Some(DescriptorType::String),
            0x04 => Some(DescriptorType::Interface),
            0x05 => Some(DescriptorType::Endpoint),
            0x06 => Some(DescriptorType::DeviceQualifier),
            0x07 => Some(DescriptorType::OtherSpeedConfiguration),
            0x08 => Some(DescriptorType::InterfacePower),
            0x09 => Some(DescriptorType::OTG),
            0x0A => Some(DescriptorType::Debug),
            0x0B => Some(DescriptorType::InterfaceAssociation),
            0x0F => Some(DescriptorType::BOS),
            _ => None,
        }
    }

    /// `of` inverts `value`.
    pub proof fn lemma_code_round_trip(t: DescriptorType, v: u8)
        ensures
            Self::of(t.value()) == Some(t),
            Self::of(v) matches Some(u) ==> u.value() == v,
    {
    }
}

} // verus!
