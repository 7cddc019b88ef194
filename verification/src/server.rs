//! The server: the devices on offer and the two replies of the listing
//! phase, the device list and the answer to an import.

use crate::device::{DeviceModel, UsbDevice};
use crate::packet::{OP_REP_DEVLIST, OP_REP_IMPORT};
use crate::record::{
    device_record, device_record_with_interfaces, lemma_device_record_len, BUS_ID_FIELD_LEN,
    DEVICE_RECORD_LEN,
};
use crate::search::{first_index, lemma_first_index_is, lemma_first_index_none};
use crate::wire::{be32, fixed_string, padded, push_be32};
use vstd::prelude::*;
use vstd::utf8::encode_utf8;

verus! {

/// A USB/IP server: the devices it exports, in the order in which a device
/// list names them.
pub struct UsbIpServer<H, D> {
    pub devices: Vec<UsbDevice<H, D>>,
}

/// The models of a sequence of devices.
pub open spec fn device_models<H, D>(s: Seq<UsbDevice<H, D>>) -> Seq<DeviceModel> {
    Seq::new(s.len(), |i: int| s[i]@)
}

impl<H, D> View for UsbIpServer<H, D> {
    type V = Seq<DeviceModel>;

    open spec fn view(&self) -> Seq<DeviceModel> {
        device_models(self.devices@)
    }
}

/// The path and the bus id of every device fit their fields in a record.
pub open spec fn names_fit(devs: Seq<DeviceModel>) -> bool {
    forall|i: int| 0 <= i < devs.len() ==> (#[trigger] devs[i]).names_fit()
}

impl DeviceModel {
    /// The device is the one that an import of `bus_id` asks for: its bus
    /// id, zero-padded to 32 bytes, is `bus_id`.
    pub open spec fn answers_to(self, bus_id: Seq<u8>) -> bool {
        padded(encode_utf8(self.bus_id), BUS_ID_FIELD_LEN as nat) == bus_id
    }
}

/// The index of the device that an import of `bus_id` attaches: the first
/// one that answers to it.
pub open spec fn import_target(devs: Seq<DeviceModel>, bus_id: Seq<u8>) -> Option<int> {
    first_index(devs, |d: DeviceModel| d.answers_to(bus_id))
}

/// The records, with interfaces, of `devs` in order.
pub open spec fn device_records(devs: Seq<DeviceModel>) -> Seq<u8>
    decreases devs.len(),
{
    if devs.len() == 0 {
        Seq::empty()
    } else {
        device_records(devs.drop_last()) + device_record_with_interfaces(devs.last())
    }
}

/// `OP_REP_DEVLIST`: the reply word, status 0, the number of devices, and
/// the record of each device with its interfaces.
pub open spec fn devlist_reply(devs: Seq<DeviceModel>) -> Seq<u8> {
    be32(OP_REP_DEVLIST) + be32(0) + be32((devs.len() % 0x1_0000_0000) as u32) + device_records(
        devs,
    )
}

/// `OP_REP_IMPORT`: the reply word, then status 0 and the record of the
/// device where one was found, status 1 and nothing more where none was.
pub open spec fn import_reply(found: Option<DeviceModel>) -> Seq<u8> {
    match found {
        Some(d) => be32(OP_REP_IMPORT) + be32(0) + device_record(d),
        None => be32(OP_REP_IMPORT) + be32(1),
    }
}

/// The reply to an import of `bus_id` from a server with the devices `devs`.
pub open spec fn import_reply_for(devs: Seq<DeviceModel>, bus_id: Seq<u8>) -> Seq<u8> {
    match import_target(devs, bus_id) {
        Some(i) => import_reply(Some(devs[i])),
        None => import_reply(None),
    }
}

/// The device list of a server without devices is twelve bytes long; an
/// import that finds its device is answered with 0x140 bytes, one that does
/// not with eight.
pub proof fn lemma_reply_lengths(d: DeviceModel)
    requires
        d.names_fit(),
    ensures
        devlist_reply(Seq::empty()) == be32(OP_REP_DEVLIST) + be32(0) + be32(0),
        devlist_reply(Seq::empty()).len() == 12,
        devlist_reply(seq![d]).len() == 12 + DEVICE_RECORD_LEN + 4 * d.interfaces.len(),
        import_reply(Some(d)).len() == 8 + DEVICE_RECORD_LEN,
        import_reply(None).len() == 8,
{
    lemma_device_record_len(d);
    assert(devlist_reply(Seq::empty()) =~= be32(OP_REP_DEVLIST) + be32(0) + be32(0));
    let one = seq![d];
    assert(one.drop_last() =~= Seq::<DeviceModel>::empty());
    assert(device_records(one) =~= device_record_with_interfaces(d));
}

/// Whether two byte strings are equal.
pub fn bytes_equal(a: &[u8], b: &[u8]) -> (eq: bool)
    ensures
        eq == (a@ == b@),
{
    if a.len() != b.len() {
        return false;
    }
    let mut i: usize = 0;
    while i < a.len()
        invariant
            i <= a@.len(),
            a@.len() == b@.len(),
            forall|j: int| 0 <= j < i ==> a@[j] == b@[j],
        decreases a@.len() - i,
    {
        if a[i] != b[i] {
            return false;
        }
        i += 1;
    }
    assert(a@ =~= b@);
    true
}

impl<H, D> UsbIpServer<H, D> {
    /// A server that exports the given devices.
    pub fn new_simulated(devices: Vec<UsbDevice<H, D>>) -> (server: Self)
        ensures
            server.devices == devices,
    {
        UsbIpServer { devices }
    }

    /// Whether the names of all devices fit a device record, which the
    /// replies of the listing phase need.
    pub fn names_fit(&self) -> (ok: bool)
        ensures
            ok == names_fit(self@),
    {
        let mut i: usize = 0;
        while i < self.devices.len()
            invariant
                i <= self.devices@.len(),
                forall|j: int| 0 <= j < i ==> (#[trigger] self@[j]).names_fit(),
            decreases self.devices@.len() - i,
        {
            if !self.devices[i].names_fit() {
                assert(!self@[i as int].names_fit());
                return false;
            }
            i += 1;
        }
        true
    }

    /// The reply to a device list request.
    pub fn devlist(&self) -> (out: Vec<u8>)
        requires
            names_fit(self@),
        ensures
            out@ == devlist_reply(self@),
    {
        let mut out: Vec<u8> = Vec::new();
        push_be32(&mut out, OP_REP_DEVLIST);
        assert(out@ =~= be32(OP_REP_DEVLIST));
        push_be32(&mut out, 0);
        push_be32(&mut out, (self.devices.len() as u64 % 0x1_0000_0000) as u32);
        let ghost head = out@;
        let mut i: usize = 0;
        while i < self.devices.len()
            invariant
                i <= self.devices@.len(),
                names_fit(self@),
                out@ == head + device_records(self@.take(i as int)),
            decreases self.devices@.len() - i,
        {
            assert(self@[i as int].names_fit());
            self.devices[i].write_dev_with_interfaces(&mut out);
            proof {
                let next = self@.take(i + 1);
                assert(next.drop_last() =~= self@.take(i as int));
                assert(next.last() == self.devices@[i as int]@);
                assert(out@ =~= head + device_records(next));
            }
            i += 1;
        }
        assert(self@.take(i as int) =~= self@);
        out
    }

    /// The index of the device that an import of `bus_id` attaches.
    pub fn find_device(&self, bus_id: &[u8]) -> (r: Option<usize>)
        requires
            names_fit(self@),
        ensures
            r is Some <==> import_target(self@, bus_id@) is Some,
            r matches Some(i) ==> import_target(self@, bus_id@) == Some(i as int) && i
                < self.devices@.len(),
    {
        let ghost p = |d: DeviceModel| d.answers_to(bus_id@);
        let mut i: usize = 0;
        while i < self.devices.len()
            invariant
                i <= self.devices@.len(),
                names_fit(self@),
                p == |d: DeviceModel| d.answers_to(bus_id@),
                forall|j: int| 0 <= j < i ==> !p(#[trigger] self@[j]),
            decreases self.devices@.len() - i,
        {
            assert(self@[i as int].names_fit());
            let expected = fixed_string(self.devices[i].bus_id.as_str(), BUS_ID_FIELD_LEN);
            if bytes_equal(expected.as_slice(), bus_id) {
                proof {
                    assert(p(self@[i as int]));
                    lemma_first_index_is(self@, p, i as int);
                }
                return Some(i);
            }
            assert(!p(self@[i as int]));
            i += 1;
        }
        proof {
            lemma_first_index_none(self@, p);
        }
        None
    }

    /// The reply to an import that attached the device `found`, or none.
    pub fn import(&self, found: Option<usize>) -> (out: Vec<u8>)
        requires
            names_fit(self@),
            found matches Some(i) ==> i < self.devices@.len(),
        ensures
            out@ == import_reply(
                match found {
                    Some(i) => Some(self@[i as int]),
                    None => None,
                },
            ),
    {
        let mut out: Vec<u8> = Vec::new();
        push_be32(&mut out, OP_REP_IMPORT);
        assert(out@ =~= be32(OP_REP_IMPORT));
        match found {
            Some(i) => {
                push_be32(&mut out, 0);
                assert(self@[i as int].names_fit());
                self.devices[i].write_dev(&mut out);
            },
            None => {
                push_be32(&mut out, 1);
            },
        }
        out
    }
}

} // verus!
