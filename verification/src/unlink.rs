//! Cancellation: the unlinks in the queue of a connection are served before
//! anything else is processed, so that a submit which is still queued when
//! its unlink arrives is removed before any handler sees it.

use crate::packet::{
    packet_models, ret_unlink, status_of_unlink, unlink_status, write_ret_unlink, PacketModel,
    UnlinkHeader, UsbIpCommand, UsbIpPacket,
};
use crate::search::{
    first_index, lemma_first_index, lemma_first_index_is, lemma_first_index_none, none_satisfies,
};
use crate::wire::push_all;
use vstd::prelude::*;

verus! {

/// Whether a packet is an unlink.
pub open spec fn is_unlink() -> spec_fn(PacketModel) -> bool {
    |p: PacketModel| p.enum_command == UsbIpCommand::CmdUnlink
}

/// Whether a packet is the submit with the sequence number `seq`.
pub open spec fn is_submit(seq: u32) -> spec_fn(PacketModel) -> bool {
    |p: PacketModel| p.enum_command == UsbIpCommand::CmdSubmit && p.sequence_number == seq
}

/// The queue after the first unlink, at `i`, has been served: without the
/// unlink and without the first submit that it names, if one is queued.
pub open spec fn after_unlink(q: Seq<PacketModel>, i: int) -> Seq<PacketModel> {
    let rest = q.remove(i);
    match first_index(rest, is_submit(UnlinkHeader::decode(q[i].data).seq_num_to_unlink)) {
        Some(j) => rest.remove(j),
        None => rest,
    }
}

/// The reply to the unlink at `i`: its status tells whether the submit it
/// names was still queued, and so cancelled.
pub open spec fn unlink_reply(q: Seq<PacketModel>, i: int, reset_code: i32) -> Seq<u8> {
    let h = UnlinkHeader::decode(q[i].data);
    let cancelled = first_index(q.remove(i), is_submit(h.seq_num_to_unlink)) is Some;
    ret_unlink(q[i].sequence_number, h, unlink_status(cancelled, reset_code))
}

/// Serving every unlink of the queue, first to last: the queue that is left
/// and the replies, in the order of the unlinks.
pub open spec fn unlink_pass(q: Seq<PacketModel>, reset_code: i32) -> (Seq<PacketModel>, Seq<u8>)
    decreases q.len(),
{
    match first_index(q, is_unlink()) {
        Some(i) => {
            if 0 <= i < q.len() {
                proof {
                    lemma_after_unlink_len(q, i);
                }
                let (left, replies) = unlink_pass(after_unlink(q, i), reset_code);
                (left, unlink_reply(q, i, reset_code) + replies)
            } else {
                (q, Seq::empty())
            }
        },
        None => (q, Seq::empty()),
    }
}

/// Serving an unlink shortens the queue by one packet or by two.
pub proof fn lemma_after_unlink_len(q: Seq<PacketModel>, i: int)
    requires
        0 <= i < q.len(),
    ensures
        q.len() - 2 <= after_unlink(q, i).len() < q.len(),
{
    let rest = q.remove(i);
    let seq = UnlinkHeader::decode(q[i].data).seq_num_to_unlink;
    lemma_first_index(rest, is_submit(seq));
}

/// Every packet that the unlink pass leaves in the queue was in the queue
/// before, and none of them is an unlink.
pub proof fn lemma_unlink_pass_leaves(q: Seq<PacketModel>, reset_code: i32)
    ensures
        none_satisfies(unlink_pass(q, reset_code).0, is_unlink()),
        forall|k: int|
            0 <= k < unlink_pass(q, reset_code).0.len() ==> q.contains(
                #[trigger] unlink_pass(q, reset_code).0[k],
            ),
        unlink_pass(q, reset_code).0.len() <= q.len(),
    decreases q.len(),
{
    lemma_first_index(q, is_unlink());
    match first_index(q, is_unlink()) {
        Some(i) => {
            let next = after_unlink(q, i);
            lemma_after_unlink_len(q, i);
            lemma_unlink_pass_leaves(next, reset_code);
            let left = unlink_pass(q, reset_code).0;
            assert(left == unlink_pass(next, reset_code).0);
            lemma_after_unlink_within(q, i);
            assert forall|k: int| 0 <= k < left.len() implies q.contains(#[trigger] left[k]) by {
                assert(next.contains(left[k]));
            }
        },
        None => {
            let left = unlink_pass(q, reset_code).0;
            assert forall|k: int| 0 <= k < left.len() implies q.contains(#[trigger] left[k]) by {
                assert(q[k] == left[k]);
            }
        },
    }
}

/// Every packet of the queue after an unlink was served was in the queue
/// before.
pub proof fn lemma_after_unlink_within(q: Seq<PacketModel>, i: int)
    requires
        0 <= i < q.len(),
    ensures
        forall|p: PacketModel| after_unlink(q, i).contains(p) ==> q.contains(p),
{
    let rest = q.remove(i);
    let seq = UnlinkHeader::decode(q[i].data).seq_num_to_unlink;
    lemma_first_index(rest, is_submit(seq));
    assert forall|p: PacketModel| after_unlink(q, i).contains(p) implies q.contains(p) by {
        let next = after_unlink(q, i);
        let k = choose|k: int| 0 <= k < next.len() && next[k] == p;
        match first_index(rest, is_submit(seq)) {
            Some(j) => {
                let m = if k < j {
                    k
                } else {
                    k + 1
                };
                assert(rest[m] == p);
                let n = if m < i {
                    m
                } else {
                    m + 1
                };
                assert(q[n] == p);
            },
            None => {
                let n = if k < i {
                    k
                } else {
                    k + 1
                };
                assert(q[n] == p);
            },
        }
    }
}

/// An unlink whose target is still queued cancels it.
///
/// Let the first unlink of the queue be at `i`, and let `j` be the place,
/// in the queue without that unlink, of the first submit with the sequence
/// number that it names. Then the replies of the pass start with the reply
/// to this unlink, whose status is the negated reset code, and the pass goes
/// on with a queue that holds neither the unlink nor that submit. If no
/// other queued submit has that sequence number, the queue that the pass
/// leaves holds no submit with it: the target is never processed.
pub proof fn lemma_unlink_cancels(q: Seq<PacketModel>, reset_code: i32, i: int, j: int)
    requires
        first_index(q, is_unlink()) == Some(i),
        first_index(
            q.remove(i),
            is_submit(UnlinkHeader::decode(q[i].data).seq_num_to_unlink),
        ) == Some(j),
    ensures
        ({
            let h = UnlinkHeader::decode(q[i].data);
            let reply = ret_unlink(q[i].sequence_number, h, unlink_status(true, reset_code));
            let next = q.remove(i).remove(j);
            &&& unlink_pass(q, reset_code).1 == reply + unlink_pass(next, reset_code).1
            &&& unlink_pass(q, reset_code).0 == unlink_pass(next, reset_code).0
            &&& reset_code != i32::MIN ==> unlink_status(true, reset_code) == -reset_code
            &&& none_satisfies(next, is_submit(h.seq_num_to_unlink)) ==> none_satisfies(
                unlink_pass(q, reset_code).0,
                is_submit(h.seq_num_to_unlink),
            )
        }),
{
    let h = UnlinkHeader::decode(q[i].data);
    let next = q.remove(i).remove(j);
    lemma_first_index(q, is_unlink());
    assert(after_unlink(q, i) == next);
    if none_satisfies(next, is_submit(h.seq_num_to_unlink)) {
        lemma_unlink_pass_leaves(next, reset_code);
        let left = unlink_pass(next, reset_code).0;
        assert forall|k: int| 0 <= k < left.len() implies !is_submit(h.seq_num_to_unlink)(
            #[trigger] left[k],
        ) by {
            assert(next.contains(left[k]));
            let m = choose|m: int| 0 <= m < next.len() && next[m] == left[k];
            assert(!is_submit(h.seq_num_to_unlink)(next[m]));
        }
    }
}

/// An unlink whose target is not queued is answered with status 0 and
/// removes nothing but itself.
pub proof fn lemma_unlink_misses(q: Seq<PacketModel>, reset_code: i32, i: int)
    requires
        first_index(q, is_unlink()) == Some(i),
        first_index(
            q.remove(i),
            is_submit(UnlinkHeader::decode(q[i].data).seq_num_to_unlink),
        ) is None,
    ensures
        ({
            let h = UnlinkHeader::decode(q[i].data);
            let reply = ret_unlink(q[i].sequence_number, h, 0);
            &&& unlink_pass(q, reset_code).1 == reply + unlink_pass(q.remove(i), reset_code).1
            &&& unlink_pass(q, reset_code).0 == unlink_pass(q.remove(i), reset_code).0
        }),
{
    lemma_first_index(q, is_unlink());
}

/// The position of the first unlink in the queue.
pub fn find_unlink(queue: &Vec<UsbIpPacket>) -> (r: Option<usize>)
    ensures
        match r {
            Some(i) => first_index(packet_models(queue@), is_unlink()) == Some(i as int) && i
                < queue@.len(),
            None => first_index(packet_models(queue@), is_unlink()) is None,
        },
{
    let ghost q = packet_models(queue@);
    let mut i: usize = 0;
    while i < queue.len()
        invariant
            i <= queue@.len(),
            q == packet_models(queue@),
            forall|j: int| 0 <= j < i ==> !is_unlink()(#[trigger] q[j]),
        decreases queue@.len() - i,
    {
        if queue[i].enum_command == UsbIpCommand::CmdUnlink {
            proof {
                assert(is_unlink()(q[i as int]));
                lemma_first_index_is(q, is_unlink(), i as int);
            }
            return Some(i);
        }
        assert(!is_unlink()(q[i as int]));
        i += 1;
    }
    proof {
        lemma_first_index_none(q, is_unlink());
    }
    None
}

/// The position of the first queued submit with the sequence number `seq`.
pub fn find_submit(queue: &Vec<UsbIpPacket>, seq: u32) -> (r: Option<usize>)
    ensures
        match r {
            Some(i) => first_index(packet_models(queue@), is_submit(seq)) == Some(i as int) && i
                < queue@.len(),
            None => first_index(packet_models(queue@), is_submit(seq)) is None,
        },
{
    let ghost q = packet_models(queue@);
    let mut i: usize = 0;
    while i < queue.len()
        invariant
            i <= queue@.len(),
            q == packet_models(queue@),
            forall|j: int| 0 <= j < i ==> !is_submit(seq)(#[trigger] q[j]),
        decreases queue@.len() - i,
    {
        if queue[i].enum_command == UsbIpCommand::CmdSubmit && queue[i].sequence_number == seq {
            proof {
                assert(is_submit(seq)(q[i as int]));
                lemma_first_index_is(q, is_submit(seq), i as int);
            }
            return Some(i);
        }
        assert(!is_submit(seq)(q[i as int]));
        i += 1;
    }
    proof {
        lemma_first_index_none(q, is_submit(seq));
    }
    None
}

/// Serves every unlink in the queue, first to last, and returns the replies.
///
/// An unlink leaves the queue; so does the first submit with the sequence
/// number it names, if one is still queued, and the reply then carries the
/// negated `reset_code` as its status. An unlink that finds no such submit
/// is answered with status 0.
pub fn process_unlinks(queue: &mut Vec<UsbIpPacket>, reset_code: i32) -> (replies: Vec<u8>)
    ensures
        packet_models(final(queue)@) == unlink_pass(packet_models(old(queue)@), reset_code).0,
        replies@ == unlink_pass(packet_models(old(queue)@), reset_code).1,
{
    let ghost start = packet_models(queue@);
    let mut replies: Vec<u8> = Vec::new();
    assert(replies@ + unlink_pass(start, reset_code).1 =~= unlink_pass(start, reset_code).1);
    loop
        invariant
            unlink_pass(start, reset_code).0 == unlink_pass(
                packet_models(queue@),
                reset_code,
            ).0,
            unlink_pass(start, reset_code).1 == replies@ + unlink_pass(
                packet_models(queue@),
                reset_code,
            ).1,
        ensures
            unlink_pass(start, reset_code).0 == packet_models(queue@),
            unlink_pass(start, reset_code).1 == replies@,
        decreases queue@.len(),
    {
        let ghost q = packet_models(queue@);
        match find_unlink(queue) {
            None => {
                assert(replies@ + Seq::<u8>::empty() =~= replies@);
                break;
            },
            Some(i) => {
                let unlink = queue.remove(i);
                assert(unlink@ == q[i as int]);
                assert(packet_models(queue@) =~= q.remove(i as int));
                let header = UnlinkHeader::parse(unlink.data.as_slice());
                let target = find_submit(queue, header.seq_num_to_unlink);
                let ghost rest = packet_models(queue@);
                match target {
                    Some(j) => {
                        let _ = queue.remove(j);
                        assert(packet_models(queue@) =~= rest.remove(j as int));
                    },
                    None => {},
                }
                let status = status_of_unlink(target.is_some(), reset_code);
                let reply = write_ret_unlink(unlink.sequence_number, &header, status);
                let ghost before = replies@;
                push_all(&mut replies, reply.as_slice());
                proof {
                    assert(packet_models(queue@) == after_unlink(q, i as int));
                    assert(reply@ == unlink_reply(q, i as int, reset_code));
                    let tail = unlink_pass(after_unlink(q, i as int), reset_code).1;
                    assert(before + (reply@ + tail) =~= (before + reply@) + tail);
                }
            },
        }
    }
    replies
}

} // verus!
