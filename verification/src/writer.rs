//! The writing side of a connection: what to do with the queue of decoded
//! packets, and the reply to each of them.
//!
//! Each round first serves every queued unlink, cancelling the submit it
//! names if that submit is still queued, and then processes the packet at
//! the head of the queue.

use crate::control::{payload_of, response_payload, result_model, UrbRoute};
use crate::device::DeviceModel;
use crate::endpoint::UsbEndpoint;
use crate::interface::{HandlerError, UsbDeviceHandler, UsbInterfaceHandler};
use crate::packet::{
    lemma_ret_submit_fields, packet_models, ret_submit, ret_unlink, submit_payload, unlink_status,
    write_ret_submit, write_ret_unlink, PacketModel, SubmitHeader, SubmitModel, UnlinkHeader,
    UsbIpCommand, UsbIpPacket, RET_HEADER_LEN, SUBMIT_HEADER_LEN, USBIP_RET_SUBMIT,
};
use crate::server::{devlist_reply, import_reply_for, import_target, names_fit, UsbIpServer};
use crate::setup::SetupPacket;
use crate::unlink::{process_unlinks, unlink_pass};
use crate::wire::{be32_at, push_all};
use vstd::prelude::*;

verus! {

/// Rounds without work after which the writer sleeps longer.
pub const IDLE_ROUNDS: u32 = 10;

/// Pause, in microseconds, after a round while the connection is busy.
pub const SHORT_PAUSE_MICROS: u64 = 250;

/// Pause, in microseconds, after a round once the connection has been idle.
pub const LONG_PAUSE_MICROS: u64 = 1000;

/// The phase a connection is in.
#[derive(Clone, Copy, Debug, PartialEq, Eq, Structural)]
pub enum ConnectionState {
    /// No device is attached: the peer lists devices or imports one.
    Listing,
    /// The device with this index in the server is attached.
    Attached(usize),
}

/// Why a connection is given up.
#[derive(Clone, Copy, Debug, PartialEq, Eq, Structural)]
pub enum ConnectionError {
    /// A submit arrived while no device was attached.
    NotAttached,
    /// A submit names an endpoint that the attached device does not have.
    UnknownEndpoint,
    /// A queued submit is shorter than its header.
    Malformed,
}

/// The state of a connection between two rounds of the writer.
#[derive(Clone, Copy, Debug)]
pub struct Connection {
    pub state: ConnectionState,
    /// Consecutive rounds that found the queue empty.
    pub idle: u32,
    /// The error number for "connection reset by peer": its negation is the
    /// status of an unlink that cancelled its target.
    pub reset_code: i32,
}

/// What holds of the reset code on every platform: it is not zero, so that
/// the status of an unlink that cancelled its target differs from that of
/// one that missed, and it is not the least `i32`, so that it has a negation.
pub open spec fn valid_reset_code(code: i32) -> bool {
    code != 0 && code != i32::MIN
}

/// How long the writer pauses after a round: briefly while fewer than ten
/// rounds in a row found nothing to do, longer from then on.
pub open spec fn pause_micros(idle: u32) -> u64 {
    if idle >= IDLE_ROUNDS {
        LONG_PAUSE_MICROS
    } else {
        SHORT_PAUSE_MICROS
    }
}

/// The idle count after a round: zero after a round that processed a
/// packet, one more (up to the largest `u32`) after one that did not.
pub open spec fn next_idle(idle: u32, worked: bool) -> u32 {
    if worked {
        0
    } else if idle == u32::MAX {
        idle
    } else {
        (idle + 1) as u32
    }
}

/// The pause after a round.
pub fn pause_after(idle: u32) -> (micros: u64)
    ensures
        micros == pause_micros(idle),
{
    if idle >= IDLE_ROUNDS {
        LONG_PAUSE_MICROS
    } else {
        SHORT_PAUSE_MICROS
    }
}

/// The state of the connection after an import of `bus_id`: attached to
/// the device found, or listing where none was.
pub open spec fn state_after_import(devs: Seq<DeviceModel>, bus_id: Seq<u8>) -> ConnectionState {
    match import_target(devs, bus_id) {
        Some(i) => ConnectionState::Attached(i as usize),
        None => ConnectionState::Listing,
    }
}

/// The device that a submit is for: the attached one, if the server has it.
pub open spec fn attached_device(devs: Seq<DeviceModel>, state: ConnectionState) -> Option<int> {
    match state {
        ConnectionState::Attached(i) => if i < devs.len() {
            Some(i as int)
        } else {
            None
        },
        ConnectionState::Listing => None,
    }
}

/// Why a submit with the data `data` cannot be dispatched, if it cannot: it
/// is shorter than its header, or no device is attached, or the attached
/// device has no endpoint with the address that the submit names.
pub open spec fn submit_error(
    devs: Seq<DeviceModel>,
    state: ConnectionState,
    data: Seq<u8>,
) -> Option<ConnectionError> {
    if data.len() < SUBMIT_HEADER_LEN {
        Some(ConnectionError::Malformed)
    } else {
        match attached_device(devs, state) {
            None => Some(ConnectionError::NotAttached),
            Some(i) => if devs[i].find_ep(SubmitModel::decode(data).endpoint_address()) is None {
                Some(ConnectionError::UnknownEndpoint)
            } else {
                None
            },
        }
    }
}

/// Who serves a submit that can be dispatched to the device `d`.
pub open spec fn submit_route(d: DeviceModel, data: Seq<u8>) -> UrbRoute {
    let h = SubmitModel::decode(data);
    d.route(d.find_ep(h.endpoint_address()).unwrap().1, SetupPacket::decode(h.setup))
}

/// The reply to a submit whose transfer ended with `result`.
pub open spec fn submit_reply(
    p: PacketModel,
    result: Result<Seq<u8>, HandlerError>,
) -> Seq<u8> {
    ret_submit(p.sequence_number, SubmitModel::decode(p.data), payload_of(result))
}

/// What a dispatched submit may do: `r` is the outcome and `after` the
/// devices of the server afterwards, given the devices `before`.
///
/// The submit is refused exactly where `submit_error` says so. Otherwise
/// the reply is a `USBIP_RET_SUBMIT` with the sequence number and header
/// fields of the request, whose length field counts the payload that
/// follows. Where the device itself serves the transfer, the payload is the
/// answer to the standard request and the device is as that request leaves
/// it; where nobody serves it, the payload is empty; where a handler serves
/// it, the payload is up to the handler and no device model changes.
pub open spec fn submit_outcome(
    before: Seq<DeviceModel>,
    after: Seq<DeviceModel>,
    state: ConnectionState,
    p: PacketModel,
    r: Result<Seq<u8>, ConnectionError>,
) -> bool {
    match submit_error(before, state, p.data) {
        Some(e) => r == Err::<Seq<u8>, ConnectionError>(e) && after == before,
        None => {
            let i = attached_device(before, state).unwrap();
            let d = before[i];
            let h = SubmitModel::decode(p.data);
            let setup = SetupPacket::decode(h.setup);
            &&& r matches Ok(out)
            &&& out.len() >= RET_HEADER_LEN
            &&& out.len() - RET_HEADER_LEN <= u32::MAX
            &&& out == ret_submit(p.sequence_number, h, out.skip(RET_HEADER_LEN as int))
            &&& match submit_route(d, p.data) {
                UrbRoute::Standard => {
                    &&& out == ret_submit(p.sequence_number, h, d.standard_response(setup))
                    &&& after == before.update(i, d.after_standard(setup))
                },
                UrbRoute::Nothing => {
                    &&& out == ret_submit(p.sequence_number, h, Seq::empty())
                    &&& after == before
                },
                _ => after == before,
            }
        },
    }
}

/// Every reply to a dispatched submit has the command word 3, the sequence
/// number of the request and status 0, and its length field counts exactly
/// the payload bytes that follow its 48-byte header.
pub proof fn lemma_submit_reply_fields(
    before: Seq<DeviceModel>,
    after: Seq<DeviceModel>,
    state: ConnectionState,
    p: PacketModel,
    out: Seq<u8>,
)
    requires
        submit_outcome(before, after, state, p, Ok(out)),
    ensures
        out.len() >= RET_HEADER_LEN,
        be32_at(out, 0) == USBIP_RET_SUBMIT,
        be32_at(out, 4) == p.sequence_number,
        be32_at(out, 20) == 0,
        be32_at(out, 24) == out.len() - RET_HEADER_LEN,
        out.subrange(40, 48) == SubmitModel::decode(p.data).setup,
{
    let h = SubmitModel::decode(p.data);
    lemma_ret_submit_fields(p.sequence_number, h, out.skip(RET_HEADER_LEN as int));
}

/// What processing one packet may do: `r` is the outcome, `after` the
/// devices and `state_after` the state of the connection afterwards.
///
/// A device list request is answered with the device list. An import is
/// answered according to whether a device answers to the bus id, and leaves
/// the connection attached to that device, or listing where there is none.
/// A submit is dispatched. An unlink that reaches this point has nothing
/// left to cancel and is answered with status 0. Only a submit can fail, and
/// only a submit can change a device; only an import changes the state.
pub open spec fn process_outcome(
    before: Seq<DeviceModel>,
    after: Seq<DeviceModel>,
    state: ConnectionState,
    state_after: ConnectionState,
    p: PacketModel,
    r: Result<Seq<u8>, ConnectionError>,
) -> bool {
    match p.enum_command {
        UsbIpCommand::ReqDevlist => {
            &&& r == Ok::<Seq<u8>, ConnectionError>(devlist_reply(before))
            &&& after == before
            &&& state_after == state
        },
        UsbIpCommand::ReqImport => {
            &&& r == Ok::<Seq<u8>, ConnectionError>(import_reply_for(before, p.data))
            &&& after == before
            &&& state_after == state_after_import(before, p.data)
        },
        UsbIpCommand::CmdSubmit => {
            &&& submit_outcome(before, after, state, p, r)
            &&& state_after == state
        },
        UsbIpCommand::CmdUnlink => {
            &&& r == Ok::<Seq<u8>, ConnectionError>(
                ret_unlink(p.sequence_number, UnlinkHeader::decode(p.data), 0),
            )
            &&& after == before
            &&& state_after == state
        },
    }
}

/// The view of the outcome of processing a packet.
pub open spec fn outcome_model(r: Result<Vec<u8>, ConnectionError>) -> Result<
    Seq<u8>,
    ConnectionError,
> {
    match r {
        Ok(out) => Ok(out@),
        Err(e) => Err(e),
    }
}

/// Processing a packet leaves the number of devices as it was, and leaves
/// every device with names that fit, and every well-formed device well
/// formed.
pub proof fn lemma_process_keeps_devices(
    before: Seq<DeviceModel>,
    after: Seq<DeviceModel>,
    state: ConnectionState,
    state_after: ConnectionState,
    p: PacketModel,
    r: Result<Seq<u8>, ConnectionError>,
)
    requires
        process_outcome(before, after, state, state_after, p, r),
    ensures
        after.len() == before.len(),
        names_fit(before) ==> names_fit(after),
        forall|k: int| 0 <= k < before.len() && before[k].wf() ==> (#[trigger] after[k]).wf(),
{
    assert forall|k: int| 0 <= k < before.len() implies (before[k].names_fit()
        ==> after[k].names_fit()) && (before[k].wf() ==> (#[trigger] after[k]).wf()) by {
        if after[k] != before[k] {
            let setup = SetupPacket::decode(SubmitModel::decode(p.data).setup);
            assert(after[k] == before[k].after_standard(setup));
            before[k].lemma_after_standard(setup);
        }
    }
    if names_fit(before) {
        assert forall|k: int| 0 <= k < after.len() implies (#[trigger] after[k]).names_fit() by {
            assert(before[k].names_fit());
        }
    }
}

impl Connection {
    /// A connection in its initial state, listing, with the platform's
    /// error number for a reset connection, whose negation is not zero.
    pub fn new() -> (c: Connection)
        ensures
            c.state == ConnectionState::Listing,
            c.idle == 0,
            valid_reset_code(c.reset_code),
            unlink_status(true, c.reset_code) == -c.reset_code,
            unlink_status(true, c.reset_code) != unlink_status(false, c.reset_code),
    {
        Connection::with_reset_code(connection_reset_code())
    }

    /// A connection in its initial state, listing, that reports a cancelled
    /// submit with the negation of `reset_code`.
    pub fn with_reset_code(reset_code: i32) -> (c: Connection)
        ensures
            c.state == ConnectionState::Listing,
            c.idle == 0,
            c.reset_code == reset_code,
    {
        Connection { state: ConnectionState::Listing, idle: 0, reset_code }
    }

    /// The first half of a round, done while the queue is held: serves
    /// every queued unlink and takes the packet at the head of what is left.
    ///
    /// Returns the replies to the unlinks and the packet to process, if any.
    /// The idle count is reset when there is a packet and grows when there
    /// is none.
    pub fn take_work(&mut self, queue: &mut Vec<UsbIpPacket>) -> (work: (
        Vec<u8>,
        Option<UsbIpPacket>,
    ))
        ensures
            work.0@ == unlink_pass(packet_models(old(queue)@), old(self).reset_code).1,
            ({
                let left = unlink_pass(packet_models(old(queue)@), old(self).reset_code).0;
                if left.len() == 0 {
                    &&& work.1 is None
                    &&& final(queue)@.len() == 0
                } else {
                    &&& work.1 matches Some(p) && p@ == left[0]
                    &&& packet_models(final(queue)@) == left.skip(1)
                }
            }),
            final(self).idle == next_idle(old(self).idle, work.1 is Some),
            final(self).state == old(self).state,
            final(self).reset_code == old(self).reset_code,
    {
        let replies = process_unlinks(queue, self.reset_code);
        let ghost left = packet_models(queue@);
        if queue.len() > 0 {
            let head = queue.remove(0);
            assert(packet_models(queue@) =~= left.skip(1));
            self.idle = 0;
            (replies, Some(head))
        } else {
            if self.idle < u32::MAX {
                self.idle = self.idle + 1;
            }
            (replies, None)
        }
    }
}

/// `libc::ECONNRESET`: the platform's error number for a connection reset by
/// the peer. Its value differs between platforms; on each of them libc
/// defines it as a literal that is neither zero nor the least `i32`, and no
/// more than that is claimed.
#[verifier::external_body]
fn connection_reset_code() -> (code: i32)
    ensures
        valid_reset_code(code),
{
    libc::ECONNRESET
}

/// The reply to a submit, from the packet and the result of its transfer.
pub fn reply_to_submit(
    packet: &UsbIpPacket,
    header: &SubmitHeader,
    result: Result<Vec<u8>, HandlerError>,
) -> (out: Vec<u8>)
    requires
        packet.data@.len() >= SUBMIT_HEADER_LEN,
        header@ == SubmitModel::decode(packet.data@),
    ensures
        out@ == submit_reply(packet@, result_model(result)),
        out@.len() == RET_HEADER_LEN + payload_of(result_model(result)).len(),
{
    let payload = response_payload(result);
    write_ret_submit(packet.sequence_number, header, payload.as_slice())
}

/// A submit that can be dispatched: the device it is for, its header, and
/// the endpoint it names with the interface that owns it.
pub struct Dispatch {
    pub device: usize,
    pub header: SubmitHeader,
    pub ep: UsbEndpoint,
    pub owner: Option<usize>,
}

impl<H, D> UsbIpServer<H, D> {
    /// Decides whether a submit can be dispatched, and where to.
    pub fn check_submit(&self, state: ConnectionState, packet: &UsbIpPacket) -> (r: Result<
        Dispatch,
        ConnectionError,
    >)
        ensures
            match submit_error(self@, state, packet.data@) {
                Some(e) => r == Err::<Dispatch, ConnectionError>(e),
                None => {
                    &&& r matches Ok(t)
                    &&& attached_device(self@, state) == Some(t.device as int)
                    &&& t.device < self.devices@.len()
                    &&& t.header@ == SubmitModel::decode(packet.data@)
                    &&& self@[t.device as int].find_ep(t.header@.endpoint_address()) == Some(
                        (t.ep, t.owner),
                    )
                },
            },
    {
        let header = match SubmitHeader::parse(packet.data.as_slice()) {
            Some(h) => h,
            None => {
                return Err(ConnectionError::Malformed);
            },
        };
        let device: usize = match state {
            ConnectionState::Attached(i) => {
                if i < self.devices.len() {
                    i
                } else {
                    return Err(ConnectionError::NotAttached);
                }
            },
            ConnectionState::Listing => {
                return Err(ConnectionError::NotAttached);
            },
        };
        assert(self@[device as int] == self.devices@[device as int]@);
        match self.devices[device].find_ep(header.endpoint_address()) {
            Some((ep, owner)) => Ok(Dispatch { device, header, ep, owner }),
            None => Err(ConnectionError::UnknownEndpoint),
        }
    }
}

impl<H: UsbInterfaceHandler, D: UsbDeviceHandler> UsbIpServer<H, D> {
    /// Carries out the transfer of a submit on the attached device.
    ///
    /// The submit is refused, and the connection to be given up, exactly
    /// where `submit_error` says so; nothing has changed then. Where the
    /// device itself serves the transfer, the result is the answer to the
    /// standard request and the device is as that request leaves it; where
    /// nobody serves it, the result is empty; where a handler serves it, the
    /// result is the handler's and the device model is unchanged.
    pub fn transfer(&mut self, state: ConnectionState, packet: &UsbIpPacket) -> (r: Result<
        Result<Vec<u8>, HandlerError>,
        ConnectionError,
    >)
        ensures
            final(self).devices@.len() == old(self).devices@.len(),
            match submit_error(old(self)@, state, packet.data@) {
                Some(e) => r == Err::<Result<Vec<u8>, HandlerError>, ConnectionError>(e)
                    && *final(self) == *old(self),
                None => {
                    let i = attached_device(old(self)@, state).unwrap();
                    let d = old(self)@[i];
                    let setup = SetupPacket::decode(SubmitModel::decode(packet.data@).setup);
                    &&& r matches Ok(result)
                    &&& match submit_route(d, packet.data@) {
                        UrbRoute::Standard => {
                            &&& result_model(result) == Ok::<Seq<u8>, HandlerError>(
                                d.standard_response(setup),
                            )
                            &&& final(self)@ == old(self)@.update(i, d.after_standard(setup))
                        },
                        UrbRoute::Nothing => {
                            &&& result_model(result) == Ok::<Seq<u8>, HandlerError>(Seq::empty())
                            &&& final(self)@ == old(self)@
                        },
                        _ => final(self)@ == old(self)@,
                    }
                },
            },
    {
        let t = match self.check_submit(state, packet) {
            Ok(t) => t,
            Err(e) => {
                return Err(e);
            },
        };
        let ghost d = self@[t.device as int];
        assert(d == self.devices@[t.device as int]@);
        let setup = SetupPacket::parse(&t.header.setup);
        let request = submit_payload(packet.data.as_slice());
        let result = self.devices[t.device].handle_urb(t.ep, t.owner, setup, request.as_slice());
        proof {
            let after = self.devices@[t.device as int]@;
            assert(self@ =~= old(self)@.update(t.device as int, after));
            assert(old(self)@.update(t.device as int, d) =~= old(self)@);
            if d.route(t.owner, setup) == UrbRoute::Nothing {
                assert(result_model(result).unwrap() =~= Seq::<u8>::empty());
            }
        }
        Ok(result)
    }

    /// Dispatches a submit to the attached device and returns the reply: the
    /// `USBIP_RET_SUBMIT` for the result of `transfer`.
    pub fn submit(&mut self, state: ConnectionState, packet: &UsbIpPacket) -> (r: Result<
        Vec<u8>,
        ConnectionError,
    >)
        ensures
            final(self).devices@.len() == old(self).devices@.len(),
            submit_outcome(old(self)@, final(self)@, state, packet@, outcome_model(r)),
            r is Err ==> *final(self) == *old(self),
    {
        let result = match self.transfer(state, packet) {
            Ok(result) => result,
            Err(e) => {
                return Err(e);
            },
        };
        let header = SubmitHeader::parse(packet.data.as_slice()).unwrap();
        let out = reply_to_submit(packet, &header, result);
        proof {
            let h = SubmitModel::decode(packet.data@);
            let payload = payload_of(result_model(result));
            lemma_ret_submit_fields(packet.sequence_number, h, payload);
            crate::control::lemma_standard_response_len(
                old(self)@[attached_device(old(self)@, state).unwrap()],
                SetupPacket::decode(h.setup),
            );
        }
        Ok(out)
    }
}

/// What one round of the writer hands back: the bytes to send, the pause to
/// make before the next round, and the reason to give the connection up, if
/// there is one. The bytes are to be sent even then.
pub struct Round {
    pub output: Vec<u8>,
    pub pause_micros: u64,
    pub failure: Option<ConnectionError>,
}

impl<H: UsbInterfaceHandler, D: UsbDeviceHandler> UsbIpServer<H, D> {
    /// Processes one packet taken from the queue and returns the reply.
    pub fn process(&mut self, conn: &mut Connection, packet: &UsbIpPacket) -> (r: Result<
        Vec<u8>,
        ConnectionError,
    >)
        requires
            names_fit(old(self)@),
        ensures
            process_outcome(
                old(self)@,
                final(self)@,
                old(conn).state,
                final(conn).state,
                packet@,
                outcome_model(r),
            ),
            names_fit(final(self)@),
            final(self).devices@.len() == old(self).devices@.len(),
            forall|k: int|
                0 <= k < old(self)@.len() && old(self)@[k].wf() ==> (#[trigger] final(self)@[k])
                    .wf(),
            final(conn).idle == old(conn).idle,
            final(conn).reset_code == old(conn).reset_code,
    {
        let r = match packet.enum_command {
            UsbIpCommand::ReqDevlist => Ok(self.devlist()),
            UsbIpCommand::ReqImport => {
                let found = self.find_device(packet.data.as_slice());
                match found {
                    Some(i) => {
                        conn.state = ConnectionState::Attached(i);
                    },
                    None => {
                        conn.state = ConnectionState::Listing;
                    },
                }
                Ok(self.import(found))
            },
            UsbIpCommand::CmdSubmit => self.submit(conn.state, packet),
            UsbIpCommand::CmdUnlink => {
                let header = UnlinkHeader::parse(packet.data.as_slice());
                Ok(write_ret_unlink(packet.sequence_number, &header, 0))
            },
        };
        proof {
            lemma_process_keeps_devices(
                old(self)@,
                self@,
                old(conn).state,
                conn.state,
                packet@,
                outcome_model(r),
            );
        }
        r
    }

    /// One round of the writer: serves every queued unlink, then processes
    /// the packet at the head of what is left of the queue, if there is one.
    ///
    /// The output starts with the replies to the unlinks; the reply to the
    /// processed packet follows. A round that processed nothing counts as
    /// idle; the pause goes by the idle count after the round.
    pub fn round(&mut self, conn: &mut Connection, queue: &mut Vec<UsbIpPacket>) -> (round: Round)
        requires
            names_fit(old(self)@),
        ensures
            names_fit(final(self)@),
            final(self).devices@.len() == old(self).devices@.len(),
            final(conn).reset_code == old(conn).reset_code,
            round.pause_micros == pause_micros(final(conn).idle),
            ({
                let pass = unlink_pass(packet_models(old(queue)@), old(conn).reset_code);
                let left = pass.0;
                let replies = pass.1;
                if left.len() == 0 {
                    &&& round.output@ == replies
                    &&& round.failure is None
                    &&& final(queue)@.len() == 0
                    &&& final(self)@ == old(self)@
                    &&& final(conn).state == old(conn).state
                    &&& final(conn).idle == next_idle(old(conn).idle, false)
                } else {
                    &&& packet_models(final(queue)@) == left.skip(1)
                    &&& final(conn).idle == 0
                    &&& round.output@.len() >= replies.len()
                    &&& round.output@.take(replies.len() as int) == replies
                    &&& process_outcome(
                        old(self)@,
                        final(self)@,
                        old(conn).state,
                        final(conn).state,
                        left[0],
                        match round.failure {
                            Some(e) => Err(e),
                            None => Ok(round.output@.skip(replies.len() as int)),
                        },
                    )
                    &&& round.failure is Some ==> round.output@ == replies
                }
            }),
    {
        let (replies, work) = conn.take_work(queue);
        let mut output = replies;
        let ghost sent = output@;
        let failure = match work {
            Some(packet) => {
                match self.process(conn, &packet) {
                    Ok(reply) => {
                        push_all(&mut output, reply.as_slice());
                        assert(output@.take(sent.len() as int) =~= sent);
                        assert(output@.skip(sent.len() as int) =~= reply@);
                        None
                    },
                    Err(e) => {
                        assert(output@.take(sent.len() as int) =~= sent);
                        Some(e)
                    },
                }
            },
            None => None,
        };
        Round { output, pause_micros: pause_after(conn.idle), failure }
    }
}

} // verus!
