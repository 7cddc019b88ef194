//! The USB/IP messages: the four commands a peer sends, the work items they
//! are decoded into, and the replies, all integers big-endian.

use crate::wire::{
    be32, be32_at, copy_range, push_all, push_be32, push_zeros, read_be32, to_unsigned,
    twos_complement, zeros,
};
use vstd::prelude::*;

verus! {

/// Command word of `OP_REQ_DEVLIST`.
pub const OP_REQ_DEVLIST: u32 = 0x0111_8005;

/// Command word of `OP_REQ_IMPORT`.
pub const OP_REQ_IMPORT: u32 = 0x0111_8003;

/// Command word of `OP_REP_DEVLIST`.
pub const OP_REP_DEVLIST: u32 = 0x0111_0005;

/// Command word of `OP_REP_IMPORT`.
pub const OP_REP_IMPORT: u32 = 0x0111_0003;

/// Command word of `USBIP_CMD_SUBMIT`.
pub const USBIP_CMD_SUBMIT: u32 = 0x0000_0001;

/// Command word of `USBIP_CMD_UNLINK`.
pub const USBIP_CMD_UNLINK: u32 = 0x0000_0002;

/// Command word of `USBIP_RET_SUBMIT`.
pub const USBIP_RET_SUBMIT: u32 = 0x0000_0003;

/// Command word of `USBIP_RET_UNLINK`.
pub const USBIP_RET_UNLINK: u32 = 0x0000_0004;

/// Bytes of a `USBIP_CMD_SUBMIT` between its sequence number and its
/// payload: eight 32-bit fields and the SETUP packet.
pub const SUBMIT_HEADER_LEN: usize = 40;

/// Bytes of a `USBIP_CMD_UNLINK` that carry information, after its sequence
/// number: four 32-bit fields.
pub const UNLINK_HEADER_LEN: usize = 16;

/// Padding that ends a `USBIP_CMD_UNLINK` and a `USBIP_RET_UNLINK`.
pub const UNLINK_PADDING_LEN: usize = 24;

/// Length of a `USBIP_RET_SUBMIT` without its payload, and of a
/// `USBIP_RET_UNLINK`.
pub const RET_HEADER_LEN: usize = 48;

/// The commands a peer can send.
#[derive(Clone, Copy, Debug, PartialEq, Eq, Structural)]
pub enum UsbIpCommand {
    ReqDevlist,
    ReqImport,
    CmdSubmit,
    CmdUnlink,
}

impl UsbIpCommand {
    /// The command word that announces the command.
    pub open spec fn word(self) -> u32 {
        match self {
            UsbIpCommand::ReqDevlist => OP_REQ_DEVLIST,
            UsbIpCommand::ReqImport => OP_REQ_IMPORT,
            UsbIpCommand::CmdSubmit => USBIP_CMD_SUBMIT,
            UsbIpCommand::CmdUnlink => USBIP_CMD_UNLINK,
        }
    }

    /// The command announced by the word `w`, if it is one of the four.
    pub open spec fn of(w: u32) -> Option<UsbIpCommand> {
        if w == OP_REQ_DEVLIST {
            Some(UsbIpCommand::ReqDevlist)
        } else if w == OP_REQ_IMPORT {
            Some(UsbIpCommand::ReqImport)
        } else if w == USBIP_CMD_SUBMIT {
            Some(UsbIpCommand::CmdSubmit)
        } else if w == USBIP_CMD_UNLINK {
            Some(UsbIpCommand::CmdUnlink)
        } else {
            None
        }
    }

    /// The command word that announces the command.
    pub fn code(self) -> (w: u32)
        ensures
            w == self.word(),
    {
        match self {
            UsbIpCommand::ReqDevlist => OP_REQ_DEVLIST,
            UsbIpCommand::ReqImport => OP_REQ_IMPORT,
            UsbIpCommand::CmdSubmit => USBIP_CMD_SUBMIT,
            UsbIpCommand::CmdUnlink => USBIP_CMD_UNLINK,
        }
    }

    /// Classifies a command word.
    pub fn from_word(w: u32) -> (r: Option<UsbIpCommand>)
        ensures
            r == Self::of(w),
    {
        if w == OP_REQ_DEVLIST {
            Some(UsbIpCommand::ReqDevlist)
        } else if w == OP_REQ_IMPORT {
            Some(UsbIpCommand::ReqImport)
        } else if w == USBIP_CMD_SUBMIT {
            Some(UsbIpCommand::CmdSubmit)
        } else if w == USBIP_CMD_UNLINK {
            Some(UsbIpCommand::CmdUnlink)
        } else {
            None
        }
    }

    /// `of` inverts `word`.
    pub proof fn lemma_word_round_trip(c: UsbIpCommand, w: u32)
        ensures
            Self::of(c.word()) == Some(c),
            Self::of(w) matches Some(d) ==> d.word() == w,
    {
    }
}

/// One decoded command, queued between the reader and the writer.
///
/// `data` holds what followed the command word, the status (of the two
/// requests) or the sequence number (of the two commands): nothing for a
/// device list request, the 32-byte bus id for an import, the 40-byte header
/// and the payload for a submit, the 16-byte header for an unlink.
#[derive(Clone, Debug)]
pub struct UsbIpPacket {
    pub status: u32,
    pub sequence_number: u32,
    pub command: Vec<u8>,
    pub enum_command: UsbIpCommand,
    pub data: Vec<u8>,
}

/// The mathematical content of a [`UsbIpPacket`].
pub struct PacketModel {
    pub status: u32,
    pub sequence_number: u32,
    pub command: Seq<u8>,
    pub enum_command: UsbIpCommand,
    pub data: Seq<u8>,
}

impl View for UsbIpPacket {
    type V = PacketModel;

    open spec fn view(&self) -> PacketModel {
        PacketModel {
            status: self.status,
            sequence_number: self.sequence_number,
            command: self.command@,
            enum_command: self.enum_command,
            data: self.data@,
        }
    }
}

/// The models of a queue of packets.
pub open spec fn packet_models(q: Seq<UsbIpPacket>) -> Seq<PacketModel> {
    Seq::new(q.len(), |i: int| q[i]@)
}

/// The number at offset `i` of `s`, or zero where `s` ends before it.
pub open spec fn be32_or_zero(s: Seq<u8>, i: int) -> u32 {
    if i + 4 <= s.len() {
        be32_at(s, i)
    } else {
        0
    }
}

/// Reads the number at `buf[at] .. buf[at + 3]`, or zero where `buf` ends
/// before it.
pub fn read_be32_or_zero(buf: &[u8], at: usize) -> (v: u32)
    ensures
        v == be32_or_zero(buf@, at as int),
{
    if buf.len() >= 4 && at <= buf.len() - 4 {
        read_be32(buf, at)
    } else {
        0
    }
}

/// The fields of a `USBIP_CMD_SUBMIT` after its sequence number.
#[derive(Clone, Copy, Debug, PartialEq, Eq)]
pub struct SubmitHeader {
    pub dev_id: u32,
    /// 0 for out, 1 for in.
    pub direction: u32,
    pub ep: u32,
    pub transfer_flags: u32,
    pub transfer_buffer_length: u32,
    pub start_frame: u32,
    pub number_of_packets: u32,
    pub interval: u32,
    pub setup: [u8; 8],
}

/// The mathematical content of a [`SubmitHeader`].
pub struct SubmitModel {
    pub dev_id: u32,
    pub direction: u32,
    pub ep: u32,
    pub transfer_flags: u32,
    pub transfer_buffer_length: u32,
    pub start_frame: u32,
    pub number_of_packets: u32,
    pub interval: u32,
    pub setup: Seq<u8>,
}

impl View for SubmitHeader {
    type V = SubmitModel;

    open spec fn view(&self) -> SubmitModel {
        SubmitModel {
            dev_id: self.dev_id,
            direction: self.direction,
            ep: self.ep,
            transfer_flags: self.transfer_flags,
            transfer_buffer_length: self.transfer_buffer_length,
            start_frame: self.start_frame,
            number_of_packets: self.number_of_packets,
            interval: self.interval,
            setup: self.setup@,
        }
    }
}

impl SubmitModel {
    /// The header held in the first 40 bytes of `data`.
    pub open spec fn decode(data: Seq<u8>) -> SubmitModel {
        SubmitModel {
            dev_id: be32_at(data, 0),
            direction: be32_at(data, 4),
            ep: be32_at(data, 8),
            transfer_flags: be32_at(data, 12),
            transfer_buffer_length: be32_at(data, 16),
            start_frame: be32_at(data, 20),
            number_of_packets: be32_at(data, 24),
            interval: be32_at(data, 28),
            setup: data.subrange(32, 40),
        }
    }

    /// The address of the endpoint the transfer is for: the endpoint number,
    /// reduced to a byte, with bit 7 set unless the direction is out.
    pub open spec fn endpoint_address(self) -> u8 {
        if self.direction == 0 {
            (self.ep % 256) as u8
        } else if self.ep % 256 >= 128 {
            (self.ep % 256) as u8
        } else {
            (self.ep % 256 + 128) as u8
        }
    }

    /// How many payload bytes follow the header on the wire: the transfer
    /// buffer for a transfer out, nothing for a transfer in.
    pub open spec fn payload_len(self) -> nat {
        if self.direction == 0 {
            self.transfer_buffer_length as nat
        } else {
            0
        }
    }
}

impl SubmitHeader {
    /// Reads the header from the data of a submit; data shorter than the
    /// header is refused.
    pub fn parse(data: &[u8]) -> (r: Option<SubmitHeader>)
        ensures
            r is Some <==> data@.len() >= SUBMIT_HEADER_LEN,
            r matches Some(h) ==> h@ == SubmitModel::decode(data@),
    {
        if data.len() < SUBMIT_HEADER_LEN {
            return None;
        }
        let setup: [u8; 8] = [
            data[32],
            data[33],
            data[34],
            data[35],
            data[36],
            data[37],
            data[38],
            data[39],
        ];
        assert(setup@ =~= data@.subrange(32, 40));
        Some(
            SubmitHeader {
                dev_id: read_be32(data, 0),
                direction: read_be32(data, 4),
                ep: read_be32(data, 8),
                transfer_flags: read_be32(data, 12),
                transfer_buffer_length: read_be32(data, 16),
                start_frame: read_be32(data, 20),
                number_of_packets: read_be32(data, 24),
                interval: read_be32(data, 28),
                setup,
            },
        )
    }

    /// The address of the endpoint the transfer is for.
    pub fn endpoint_address(&self) -> (a: u8)
        ensures
            a == self@.endpoint_address(),
    {
        let low: u8 = (self.ep % 256) as u8;
        if self.direction == 0 || low >= 128 {
            low
        } else {
            low + 128
        }
    }

    /// How many payload bytes follow the header on the wire.
    pub fn payload_len(&self) -> (n: u32)
        ensures
            n == self@.payload_len(),
    {
        if self.direction == 0 {
            self.transfer_buffer_length
        } else {
            0
        }
    }
}

/// The fields of a `USBIP_CMD_UNLINK` after its sequence number.
#[derive(Clone, Copy, Debug, PartialEq, Eq, Structural)]
pub struct UnlinkHeader {
    pub dev_id: u32,
    pub direction: u32,
    pub ep: u32,
    /// Sequence number of the submit to cancel.
    pub seq_num_to_unlink: u32,
}

impl UnlinkHeader {
    /// The header held in `data`; a field that `data` is too short for is
    /// zero.
    pub open spec fn decode(data: Seq<u8>) -> UnlinkHeader {
        UnlinkHeader {
            dev_id: be32_or_zero(data, 0),
            direction: be32_or_zero(data, 4),
            ep: be32_or_zero(data, 8),
            seq_num_to_unlink: be32_or_zero(data, 12),
        }
    }

    /// Reads the header from the data of an unlink.
    pub fn parse(data: &[u8]) -> (h: UnlinkHeader)
        ensures
            h == Self::decode(data@),
    {
        UnlinkHeader {
            dev_id: read_be32_or_zero(data, 0),
            direction: read_be32_or_zero(data, 4),
            ep: read_be32_or_zero(data, 8),
            seq_num_to_unlink: read_be32_or_zero(data, 12),
        }
    }
}

/// `USBIP_RET_SUBMIT`: command 3, the sequence number, device id, direction
/// and endpoint of the request, status 0, the length of the payload, three
/// zero words (start frame, number of packets, error count), the SETUP bytes
/// of the request, and the payload.
pub open spec fn ret_submit(seq: u32, h: SubmitModel, payload: Seq<u8>) -> Seq<u8> {
    be32(USBIP_RET_SUBMIT) + be32(seq) + be32(h.dev_id) + be32(h.direction) + be32(h.ep) + be32(0)
        + be32(payload.len() as u32) + be32(0) + be32(0) + be32(0) + h.setup + payload
}

/// `USBIP_RET_UNLINK`: command 4, the sequence number of the unlink, its
/// device id, direction and endpoint, the status, and 24 bytes of padding.
pub open spec fn ret_unlink(seq: u32, h: UnlinkHeader, status: i32) -> Seq<u8> {
    be32(USBIP_RET_UNLINK) + be32(seq) + be32(h.dev_id) + be32(h.direction) + be32(h.ep) + be32(
        twos_complement(status),
    ) + zeros(UNLINK_PADDING_LEN as nat)
}

/// The status of an unlink: minus the code for "connection reset" when its
/// target was found and cancelled, zero otherwise. Negating the least `i32`
/// leaves it as it is.
pub open spec fn unlink_status(cancelled: bool, reset_code: i32) -> i32 {
    if !cancelled {
        0
    } else if reset_code == i32::MIN {
        reset_code
    } else {
        (-reset_code) as i32
    }
}

/// In every reply to a submit the command word is 3, the sequence number is
/// that of the request, the length field holds the number of payload bytes
/// and exactly that many bytes follow the 48-byte header.
pub proof fn lemma_ret_submit_fields(seq: u32, h: SubmitModel, payload: Seq<u8>)
    requires
        h.setup.len() == 8,
        payload.len() <= u32::MAX,
    ensures
        ret_submit(seq, h, payload).len() == RET_HEADER_LEN + payload.len(),
        be32_at(ret_submit(seq, h, payload), 0) == USBIP_RET_SUBMIT,
        be32_at(ret_submit(seq, h, payload), 4) == seq,
        be32_at(ret_submit(seq, h, payload), 20) == 0,
        be32_at(ret_submit(seq, h, payload), 24) == payload.len(),
        ret_submit(seq, h, payload).subrange(40, 48) == h.setup,
        ret_submit(seq, h, payload).skip(RET_HEADER_LEN as int) == payload,
{
    let r = ret_submit(seq, h, payload);
    assert(r.len() == RET_HEADER_LEN + payload.len());
    assert(be32_at(r, 0) == USBIP_RET_SUBMIT) by {
        assert(r.subrange(0, 4) =~= be32(USBIP_RET_SUBMIT));
        crate::wire::lemma_read_back(r, 0, 0, USBIP_RET_SUBMIT);
    }
    assert(be32_at(r, 4) == seq) by {
        assert(r.subrange(4, 8) =~= be32(seq));
        crate::wire::lemma_read_back(r, 4, 0, seq);
    }
    assert(be32_at(r, 20) == 0) by {
        assert(r.subrange(20, 24) =~= be32(0));
        crate::wire::lemma_read_back(r, 20, 0, 0);
    }
    assert(be32_at(r, 24) == payload.len()) by {
        assert(r.subrange(24, 28) =~= be32(payload.len() as u32));
        crate::wire::lemma_read_back(r, 24, 0, payload.len() as u32);
    }
    assert(r.subrange(40, 48) =~= h.setup);
    assert(r.skip(RET_HEADER_LEN as int) =~= payload);
}

/// In every reply to an unlink the command word is 4, the sequence number is
/// that of the unlink, the status field holds the status and the reply is 48
/// bytes long.
pub proof fn lemma_ret_unlink_fields(seq: u32, h: UnlinkHeader, status: i32)
    ensures
        ret_unlink(seq, h, status).len() == RET_HEADER_LEN,
        be32_at(ret_unlink(seq, h, status), 0) == USBIP_RET_UNLINK,
        be32_at(ret_unlink(seq, h, status), 4) == seq,
        be32_at(ret_unlink(seq, h, status), 20) == twos_complement(status),
{
    let r = ret_unlink(seq, h, status);
    assert(r.len() == RET_HEADER_LEN);
    assert(be32_at(r, 0) == USBIP_RET_UNLINK) by {
        assert(r.subrange(0, 4) =~= be32(USBIP_RET_UNLINK));
        crate::wire::lemma_read_back(r, 0, 0, USBIP_RET_UNLINK);
    }
    assert(be32_at(r, 4) == seq) by {
        assert(r.subrange(4, 8) =~= be32(seq));
        crate::wire::lemma_read_back(r, 4, 0, seq);
    }
    assert(be32_at(r, 20) == twos_complement(status)) by {
        assert(r.subrange(20, 24) =~= be32(twos_complement(status)));
        crate::wire::lemma_read_back(r, 20, 0, twos_complement(status));
    }
}

/// Builds the reply to a submit.
pub fn write_ret_submit(seq: u32, h: &SubmitHeader, payload: &[u8]) -> (out: Vec<u8>)
    requires
        payload@.len() <= u32::MAX,
    ensures
        out@ == ret_submit(seq, h@, payload@),
        out@.len() == RET_HEADER_LEN + payload@.len(),
{
    let mut out: Vec<u8> = Vec::new();
    push_be32(&mut out, USBIP_RET_SUBMIT);
    assert(out@ =~= be32(USBIP_RET_SUBMIT));
    push_be32(&mut out, seq);
    push_be32(&mut out, h.dev_id);
    push_be32(&mut out, h.direction);
    push_be32(&mut out, h.ep);
    push_be32(&mut out, 0);
    push_be32(&mut out, payload.len() as u32);
    push_be32(&mut out, 0);
    push_be32(&mut out, 0);
    push_be32(&mut out, 0);
    push_all(&mut out, h.setup.as_slice());
    push_all(&mut out, payload);
    out
}

/// Builds the reply to an unlink.
pub fn write_ret_unlink(seq: u32, h: &UnlinkHeader, status: i32) -> (out: Vec<u8>)
    ensures
        out@ == ret_unlink(seq, *h, status),
        out@.len() == RET_HEADER_LEN,
{
    let mut out: Vec<u8> = Vec::new();
    push_be32(&mut out, USBIP_RET_UNLINK);
    assert(out@ =~= be32(USBIP_RET_UNLINK));
    push_be32(&mut out, seq);
    push_be32(&mut out, h.dev_id);
    push_be32(&mut out, h.direction);
    push_be32(&mut out, h.ep);
    push_be32(&mut out, to_unsigned(status));
    push_zeros(&mut out, UNLINK_PADDING_LEN);
    out
}

/// The status of an unlink whose target was or was not cancelled.
pub fn status_of_unlink(cancelled: bool, reset_code: i32) -> (status: i32)
    ensures
        status == unlink_status(cancelled, reset_code),
{
    if !cancelled {
        0
    } else if reset_code == i32::MIN {
        reset_code
    } else {
        -reset_code
    }
}

/// The payload of a submit with the data `data`: what follows the 40-byte
/// header, or nothing where the data is shorter than that.
pub open spec fn payload(data: Seq<u8>) -> Seq<u8> {
    if data.len() >= SUBMIT_HEADER_LEN {
        data.skip(SUBMIT_HEADER_LEN as int)
    } else {
        Seq::empty()
    }
}

/// The payload of a submit.
pub fn submit_payload(data: &[u8]) -> (out: Vec<u8>)
    ensures
        out@ == payload(data@),
{
    if data.len() >= SUBMIT_HEADER_LEN {
        let out = copy_range(data, SUBMIT_HEADER_LEN, data.len());
        assert(out@ =~= data@.skip(SUBMIT_HEADER_LEN as int));
        out
    } else {
        Vec::new()
    }
}

} // verus!
