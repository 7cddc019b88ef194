//! Framing of the incoming stream: the bytes a peer sends are cut into the
//! four commands, each of which becomes one queued packet.

use crate::packet::{PacketModel, SubmitHeader, SubmitModel, UsbIpCommand, UsbIpPacket};
use crate::wire::{be32, be32_at, copy_range, lemma_bytes_round_trip, push_all, read_be32};
use vstd::prelude::*;
use vstd::slice::slice_subrange;

verus! {

/// Bytes of a frame before its data: the command word, and the status or the
/// sequence number.
pub const PREFIX_LEN: usize = 8;

/// Length of an `OP_REQ_IMPORT`: prefix and 32-byte bus id.
pub const IMPORT_LEN: usize = 40;

/// Length of a `USBIP_CMD_UNLINK`, and of a `USBIP_CMD_SUBMIT` without its
/// payload.
pub const COMMAND_LEN: usize = 48;

/// What the reader hands on for one frame of the stream.
#[derive(Clone, Debug)]
pub enum ReaderEvent {
    /// A command, to be queued.
    Packet(UsbIpPacket),
    /// Four bytes that are none of the four command words; they are skipped.
    UnknownCommand(u32),
}

/// The mathematical content of a [`ReaderEvent`].
pub enum EventModel {
    Packet(PacketModel),
    UnknownCommand(u32),
}

impl View for ReaderEvent {
    type V = EventModel;

    open spec fn view(&self) -> EventModel {
        match self {
            ReaderEvent::Packet(p) => EventModel::Packet(p@),
            ReaderEvent::UnknownCommand(w) => EventModel::UnknownCommand(*w),
        }
    }
}

/// The models of a sequence of events.
pub open spec fn event_models(s: Seq<ReaderEvent>) -> Seq<EventModel> {
    Seq::new(s.len(), |i: int| s[i]@)
}

/// The length of the frame that `s` starts with, as far as `s` shows it.
///
/// The first four bytes are the command word. An unknown word is a frame of
/// its own. A device list request is 8 bytes, an import 40, an unlink 48. A
/// submit is 48 bytes and its payload, whose length its header gives: the
/// transfer buffer length for a transfer out, nothing for a transfer in.
/// Where `s` is too short to tell, there is no answer yet.
pub open spec fn frame_len(s: Seq<u8>) -> Option<nat> {
    if s.len() < 4 {
        None
    } else {
        match UsbIpCommand::of(be32_at(s, 0)) {
            None => Some(4),
            Some(UsbIpCommand::ReqDevlist) => Some(PREFIX_LEN as nat),
            Some(UsbIpCommand::ReqImport) => Some(IMPORT_LEN as nat),
            Some(UsbIpCommand::CmdUnlink) => Some(COMMAND_LEN as nat),
            Some(UsbIpCommand::CmdSubmit) => if s.len() < COMMAND_LEN {
                None
            } else {
                Some(
                    COMMAND_LEN as nat + SubmitModel::decode(
                        s.subrange(PREFIX_LEN as int, COMMAND_LEN as int),
                    ).payload_len(),
                )
            },
        }
    }
}

/// How many bytes are still missing before the frame that `s` starts with
/// is complete, as far as `s` shows it; zero when it is complete.
pub open spec fn missing(s: Seq<u8>) -> nat {
    match frame_len(s) {
        Some(n) => if s.len() < n {
            (n - s.len()) as nat
        } else {
            0
        },
        None => if s.len() < 4 {
            (4 - s.len()) as nat
        } else {
            (COMMAND_LEN - s.len()) as nat
        },
    }
}

/// The event that the complete frame `f` stands for.
///
/// The word after the command word is the status of a request and the
/// sequence number of a command; the other of the two is zero. The data of a
/// packet is what follows, without the padding that ends an unlink.
pub open spec fn frame_event(f: Seq<u8>) -> EventModel {
    match UsbIpCommand::of(be32_at(f, 0)) {
        None => EventModel::UnknownCommand(be32_at(f, 0)),
        Some(UsbIpCommand::ReqDevlist) => EventModel::Packet(
            PacketModel {
                status: be32_at(f, 4),
                sequence_number: 0,
                command: f.subrange(0, 4),
                enum_command: UsbIpCommand::ReqDevlist,
                data: Seq::empty(),
            },
        ),
        Some(UsbIpCommand::ReqImport) => EventModel::Packet(
            PacketModel {
                status: be32_at(f, 4),
                sequence_number: 0,
                command: f.subrange(0, 4),
                enum_command: UsbIpCommand::ReqImport,
                data: f.subrange(PREFIX_LEN as int, IMPORT_LEN as int),
            },
        ),
        Some(UsbIpCommand::CmdSubmit) => EventModel::Packet(
            PacketModel {
                status: 0,
                sequence_number: be32_at(f, 4),
                command: f.subrange(0, 4),
                enum_command: UsbIpCommand::CmdSubmit,
                data: f.skip(PREFIX_LEN as int),
            },
        ),
        Some(UsbIpCommand::CmdUnlink) => EventModel::Packet(
            PacketModel {
                status: 0,
                sequence_number: be32_at(f, 4),
                command: f.subrange(0, 4),
                enum_command: UsbIpCommand::CmdUnlink,
                data: f.subrange(PREFIX_LEN as int, 24),
            },
        ),
    }
}

/// The events of all complete frames of `s`, in order, and the bytes of the
/// incomplete frame that is left.
pub open spec fn frames(s: Seq<u8>) -> (Seq<EventModel>, Seq<u8>)
    decreases s.len(),
{
    match frame_len(s) {
        Some(n) => if 0 < n <= s.len() {
            let (events, rest) = frames(s.skip(n as int));
            (seq![frame_event(s.take(n as int))] + events, rest)
        } else {
            (Seq::empty(), s)
        },
        None => (Seq::empty(), s),
    }
}

/// A frame is at least four bytes long.
pub proof fn lemma_frame_len_positive(s: Seq<u8>)
    ensures
        frame_len(s) matches Some(n) ==> n >= 4,
{
}

/// What is left over by `frames` holds no complete frame.
pub proof fn lemma_frames_rest(s: Seq<u8>)
    ensures
        missing(frames(s).1) > 0,
    decreases s.len(),
{
    match frame_len(s) {
        Some(n) => {
            if 0 < n <= s.len() {
                lemma_frames_rest(s.skip(n as int));
            }
        },
        None => {},
    }
}

/// Feeding a stream in two pieces yields the same events as feeding it at
/// once: the events of the first piece, then those of what it left over
/// followed by the second piece.
pub proof fn lemma_frames_split(a: Seq<u8>, b: Seq<u8>)
    ensures
        frames(a + b).0 == frames(a).0 + frames(frames(a).1 + b).0,
        frames(a + b).1 == frames(frames(a).1 + b).1,
    decreases a.len(),
{
    match frame_len(a) {
        Some(n) => {
            if 0 < n <= a.len() {
                lemma_frame_prefix(a, b);
                assert((a + b).skip(n as int) =~= a.skip(n as int) + b);
                assert((a + b).take(n as int) =~= a.take(n as int));
                lemma_frames_split(a.skip(n as int), b);
                let rest = a.skip(n as int);
                assert(frames(a + b).0 =~= frames(a).0 + frames(frames(a).1 + b).0);
            } else {
                assert(frames(a).0 + frames(a + b).0 =~= frames(a + b).0);
            }
        },
        None => {
            assert(frames(a).0 + frames(a + b).0 =~= frames(a + b).0);
        },
    }
}

/// Once the length of the first frame shows, more bytes do not change it.
pub proof fn lemma_frame_prefix(a: Seq<u8>, b: Seq<u8>)
    requires
        frame_len(a) is Some,
    ensures
        frame_len(a + b) == frame_len(a),
{
    let s = a + b;
    assert(be32_at(s, 0) == be32_at(a, 0));
    if UsbIpCommand::of(be32_at(a, 0)) == Some(UsbIpCommand::CmdSubmit) {
        assert(s.subrange(PREFIX_LEN as int, COMMAND_LEN as int) =~= a.subrange(
            PREFIX_LEN as int,
            COMMAND_LEN as int,
        ));
    }
}

/// A packet keeps what its frame held: the command word, then the status
/// or the sequence number, then the data make up the frame again, but for
/// the padding that ends an unlink.
pub proof fn lemma_frame_is_kept(f: Seq<u8>)
    requires
        frame_len(f) == Some(f.len()),
    ensures
        match frame_event(f) {
            EventModel::UnknownCommand(w) => be32(w) == f,
            EventModel::Packet(p) => {
                let word = match p.enum_command {
                    UsbIpCommand::ReqDevlist | UsbIpCommand::ReqImport => p.status,
                    UsbIpCommand::CmdSubmit | UsbIpCommand::CmdUnlink => p.sequence_number,
                };
                let padding = match p.enum_command {
                    UsbIpCommand::CmdUnlink => f.skip(24),
                    _ => Seq::empty(),
                };
                &&& UsbIpCommand::of(be32_at(p.command, 0)) == Some(p.enum_command)
                &&& p.command + be32(word) + p.data + padding == f
            },
        },
{
    lemma_bytes_round_trip(f, 0);
    lemma_bytes_round_trip(f, 4);
    match frame_event(f) {
        EventModel::UnknownCommand(w) => {
            assert(f.subrange(0, 4) =~= f);
        },
        EventModel::Packet(p) => {
            let word = match p.enum_command {
                UsbIpCommand::ReqDevlist | UsbIpCommand::ReqImport => p.status,
                UsbIpCommand::CmdSubmit | UsbIpCommand::CmdUnlink => p.sequence_number,
            };
            let padding = match p.enum_command {
                UsbIpCommand::CmdUnlink => f.skip(24),
                _ => Seq::empty(),
            };
            assert(p.command == f.subrange(0, 4));
            assert(be32_at(p.command, 0) == be32_at(f, 0));
            assert(be32(word) == f.subrange(4, 8));
            assert(p.command + be32(word) + p.data + padding =~= f);
        },
    }
}

/// The length of the frame that `buf` starts with, as far as `buf` shows it.
pub fn frame_length(buf: &[u8]) -> (r: Option<u64>)
    ensures
        match r {
            Some(n) => frame_len(buf@) == Some(n as nat),
            None => frame_len(buf@) is None,
        },
{
    if buf.len() < 4 {
        return None;
    }
    match UsbIpCommand::from_word(read_be32(buf, 0)) {
        None => Some(4),
        Some(UsbIpCommand::ReqDevlist) => Some(PREFIX_LEN as u64),
        Some(UsbIpCommand::ReqImport) => Some(IMPORT_LEN as u64),
        Some(UsbIpCommand::CmdUnlink) => Some(COMMAND_LEN as u64),
        Some(UsbIpCommand::CmdSubmit) => {
            if buf.len() < COMMAND_LEN {
                None
            } else {
                let header = SubmitHeader::parse(slice_subrange(buf, PREFIX_LEN, COMMAND_LEN));
                match header {
                    Some(h) => Some(COMMAND_LEN as u64 + h.payload_len() as u64),
                    None => None,
                }
            }
        },
    }
}

/// Decodes one complete frame.
pub fn decode_frame(frame: &[u8]) -> (event: ReaderEvent)
    requires
        frame_len(frame@) == Some(frame@.len()),
    ensures
        event@ == frame_event(frame@),
{
    let word: u32 = read_be32(frame, 0);
    match UsbIpCommand::from_word(word) {
        None => ReaderEvent::UnknownCommand(word),
        Some(UsbIpCommand::ReqDevlist) => ReaderEvent::Packet(
            UsbIpPacket {
                status: read_be32(frame, 4),
                sequence_number: 0,
                command: copy_range(frame, 0, 4),
                enum_command: UsbIpCommand::ReqDevlist,
                data: Vec::new(),
            },
        ),
        Some(UsbIpCommand::ReqImport) => ReaderEvent::Packet(
            UsbIpPacket {
                status: read_be32(frame, 4),
                sequence_number: 0,
                command: copy_range(frame, 0, 4),
                enum_command: UsbIpCommand::ReqImport,
                data: copy_range(frame, PREFIX_LEN, IMPORT_LEN),
            },
        ),
        Some(UsbIpCommand::CmdSubmit) => {
            let data = copy_range(frame, PREFIX_LEN, frame.len());
            assert(data@ =~= frame@.skip(PREFIX_LEN as int));
            ReaderEvent::Packet(
                UsbIpPacket {
                    status: 0,
                    sequence_number: read_be32(frame, 4),
                    command: copy_range(frame, 0, 4),
                    enum_command: UsbIpCommand::CmdSubmit,
                    data,
                },
            )
        },
        Some(UsbIpCommand::CmdUnlink) => ReaderEvent::Packet(
            UsbIpPacket {
                status: 0,
                sequence_number: read_be32(frame, 4),
                command: copy_range(frame, 0, 4),
                enum_command: UsbIpCommand::CmdUnlink,
                data: copy_range(frame, PREFIX_LEN, 24),
            },
        ),
    }
}

/// The reading side of a connection: the bytes received so far that do not
/// yet make up a frame.
#[derive(Clone, Debug)]
pub struct Reader {
    pub pending: Vec<u8>,
}

impl Reader {
    /// A reader at the start of a stream.
    pub fn new() -> (r: Reader)
        ensures
            r.pending@.len() == 0,
            missing(r.pending@) == 4,
    {
        Reader { pending: Vec::new() }
    }

    /// How many bytes to read next: what is missing of the frame in
    /// progress, as far as its length shows.
    pub fn wanted(&self) -> (n: u64)
        ensures
            n == missing(self.pending@),
    {
        let have: u64 = self.pending.len() as u64;
        match frame_length(self.pending.as_slice()) {
            Some(n) => if have < n {
                n - have
            } else {
                0
            },
            None => {
                if have < 4 {
                    4 - have
                } else {
                    COMMAND_LEN as u64 - have
                }
            },
        }
    }

    /// Takes the bytes just received and returns the events of the frames
    /// that they complete, in order. What is left of an incomplete frame is
    /// kept for the next call.
    pub fn feed(&mut self, chunk: &[u8]) -> (events: Vec<ReaderEvent>)
        ensures
            event_models(events@) == frames(old(self).pending@ + chunk@).0,
            final(self).pending@ == frames(old(self).pending@ + chunk@).1,
            missing(final(self).pending@) > 0,
    {
        let ghost total = self.pending@ + chunk@;
        push_all(&mut self.pending, chunk);
        let mut events: Vec<ReaderEvent> = Vec::new();
        let len: usize = self.pending.len();
        let mut pos: usize = 0;
        assert(total.skip(0) =~= total);
        assert(event_models(events@) + frames(total).0 =~= frames(total).0);
        loop
            invariant
                pos <= len,
                len == self.pending@.len(),
                self.pending@ == total,
                frames(total).0 == event_models(events@) + frames(total.skip(pos as int)).0,
                frames(total).1 == frames(total.skip(pos as int)).1,
            ensures
                pos <= len,
                len == self.pending@.len(),
                self.pending@ == total,
                frames(total).0 == event_models(events@),
                frames(total).1 == total.skip(pos as int),
            decreases len - pos,
        {
            let rest = slice_subrange(self.pending.as_slice(), pos, len);
            assert(rest@ =~= total.skip(pos as int));
            let complete: Option<usize> = match frame_length(rest) {
                Some(n) => if n <= rest.len() as u64 {
                    Some(n as usize)
                } else {
                    None
                },
                None => None,
            };
            match complete {
                Some(n) => {
                    proof {
                        lemma_frame_len_positive(rest@);
                    }
                    let frame = slice_subrange(rest, 0, n);
                    proof {
                        assert(frame@ =~= rest@.take(n as int));
                        lemma_frame_prefix(frame@, rest@.skip(n as int));
                        assert(frame@ + rest@.skip(n as int) =~= rest@);
                    }
                    let event = decode_frame(frame);
                    let ghost before = event_models(events@);
                    events.push(event);
                    proof {
                        assert(rest@.skip(n as int) =~= total.skip(pos + n));
                        assert(event_models(events@) =~= before + seq![frame_event(frame@)]);
                        assert(frames(total).0 =~= event_models(events@) + frames(
                            total.skip(pos + n),
                        ).0);
                    }
                    pos += n;
                },
                None => {
                    assert(frames(rest@).0 =~= Seq::<EventModel>::empty());
                    assert(event_models(events@) + Seq::<EventModel>::empty() =~= event_models(
                        events@,
                    ));
                    break;
                },
            }
        }
        let left = copy_range(self.pending.as_slice(), pos, len);
        assert(left@ =~= total.skip(pos as int));
        self.pending = left;
        proof {
            lemma_frames_rest(total);
        }
        events
    }
}

} // verus!
