use vstd::prelude::*;

use crate::bus::bus_transfer;
use crate::bus::bus_write;
use crate::bus::BusOp;
use crate::bus::EnableLine;
use crate::bus::PinAttempt;
use crate::bus::SpiBus;
use vstd::slice::slice_to_vec;

verus! {

/// The error a simulated capability reports when told to fail.
#[derive(Debug, Clone, Copy, PartialEq, Eq, Structural)]
pub struct SimError;

/// One bus operation as a simulated bus records it, with the byte
/// sequences held in executable form so that a test can inspect them.
pub struct BusRecord {
    pub is_write: bool,
    pub sent: Vec<u8>,
    pub received: Vec<u8>,
    pub ok: bool,
}

impl BusRecord {
    /// The recorded operation.
    pub open spec fn op(&self) -> BusOp {
        if self.is_write {
            bus_write(self.sent@, self.ok)
        } else {
            bus_transfer(self.sent@, self.received@, self.ok)
        }
    }
}

/// The operations a sequence of records stands for, oldest first.
pub open spec fn records_ops(records: Seq<BusRecord>) -> Seq<BusOp> {
    records.map_values(|r: BusRecord| r.op())
}

proof fn lemma_records_ops_push(records: Seq<BusRecord>, record: BusRecord)
    ensures
        records_ops(records.push(record)) == records_ops(records).push(record.op()),
{
    assert(records_ops(records.push(record)) =~= records_ops(records).push(record.op()));
}

/// Overwrites every byte of the buffer with zero, keeping its length.
fn zero_fill(data: &mut Vec<u8>)
    ensures
        final(data)@.len() == old(data)@.len(),
        forall|j: int| 0 <= j < final(data)@.len() ==> final(data)@[j] == 0u8,
{
    let n: usize = data.len();
    let mut i: usize = 0;
    while i < n
        invariant
            i <= n,
            data@.len() == n,
            forall|j: int| 0 <= j < i ==> data@[j] == 0u8,
        decreases n - i,
    {
        data.set(i, 0u8);
        i = i + 1;
    }
}

/// A simulated serial bus.  It records every operation, answers each
/// full-duplex transfer with the next scripted response (zero-filling the
/// buffer when the script is empty or the wrong length), and reports
/// failure when told to.
pub struct SimBus {
    /// Replies for full-duplex transfers, consumed front first.
    pub responses: Vec<Vec<u8>>,
    /// When set, every write-only transfer fails.
    pub fail_writes: bool,
    /// When set, every full-duplex transfer fails.
    pub fail_transfers: bool,
    /// Everything this bus was asked to do, oldest first.
    pub records: Vec<BusRecord>,
}

impl SimBus {
    /// A bus that answers every transfer with zeroes and never fails.
    pub fn new() -> (r: SimBus)
        ensures
            r.log() == Seq::<BusOp>::empty(),
            r.responses@.len() == 0,
            !r.fail_writes,
            !r.fail_transfers,
    {
        let r = SimBus { responses: Vec::new(), fail_writes: false, fail_transfers: false, records: Vec::new() };
        proof {
            assert(r.log() =~= Seq::<BusOp>::empty());
        }
        r
    }
}

impl SpiBus for SimBus {
    type CommError = SimError;

    open spec fn log(&self) -> Seq<BusOp> {
        records_ops(self.records@)
    }

    fn write(&mut self, data: &[u8]) -> (r: Result<(), SimError>)
        ensures
            r is Ok <==> !old(self).fail_writes,
            final(self).fail_writes == old(self).fail_writes,
            final(self).fail_transfers == old(self).fail_transfers,
            final(self).responses@ == old(self).responses@,
    {
        let ok = !self.fail_writes;
        let ghost pre = self.records@;
        let record = BusRecord { is_write: true, sent: slice_to_vec(data), received: Vec::new(), ok };
        proof {
            assert(record.op() == bus_write(data@, ok));
        }
        self.records.push(record);
        proof {
            lemma_records_ops_push(pre, self.records@.last());
        }
        if ok {
            Ok(())
        } else {
            Err(SimError)
        }
    }

    fn transfer(&mut self, data: &mut Vec<u8>) -> (r: Result<(), SimError>)
        ensures
            r is Ok <==> !old(self).fail_transfers,
            final(self).fail_writes == old(self).fail_writes,
            final(self).fail_transfers == old(self).fail_transfers,
            old(self).responses@.len() > 0 ==> final(self).responses@ == old(
                self,
            ).responses@.remove(0),
            old(self).responses@.len() == 0 ==> final(self).responses@ == old(self).responses@,
            old(self).responses@.len() > 0 && old(self).responses@[0]@.len() == old(data)@.len()
                ==> final(data)@ == old(self).responses@[0]@,
            !(old(self).responses@.len() > 0 && old(self).responses@[0]@.len() == old(
                data,
            )@.len()) ==> (forall|j: int|
                0 <= j < final(data)@.len() ==> final(data)@[j] == 0u8),
    {
        let ok = !self.fail_transfers;
        let ghost sent_bytes = data@;
        let sent = slice_to_vec(data.as_slice());
        if self.responses.len() > 0 {
            let response = self.responses.remove(0);
            if response.len() == data.len() {
                *data = response;
            } else {
                zero_fill(data);
            }
        } else {
            zero_fill(data);
        }
        let ghost received_bytes = data@;
        let received = slice_to_vec(data.as_slice());
        let ghost pre = self.records@;
        let record = BusRecord { is_write: false, sent, received, ok };
        proof {
            assert(record.op() == bus_transfer(sent_bytes, received_bytes, ok));
        }
        self.records.push(record);
        proof {
            lemma_records_ops_push(pre, self.records@.last());
        }
        if ok {
            Ok(())
        } else {
            Err(SimError)
        }
    }
}

/// A simulated enable line.  It records every attempt to drive it, and
/// fails assertion or deassertion when told to.
pub struct SimPin {
    /// When set, every attempt to drive the line low fails.
    pub fail_low: bool,
    /// When set, every attempt to drive the line high fails.
    pub fail_high: bool,
    /// Every attempt made on this line, oldest first.
    pub records: Vec<PinAttempt>,
}

impl SimPin {
    /// A line that never fails, with an empty history.
    pub fn new() -> (r: SimPin)
        ensures
            r.log() == Seq::<PinAttempt>::empty(),
            !r.fail_low,
            !r.fail_high,
    {
        SimPin { fail_low: false, fail_high: false, records: Vec::new() }
    }
}

impl EnableLine for SimPin {
    type PinError = SimError;

    open spec fn log(&self) -> Seq<PinAttempt> {
        self.records@
    }

    fn set_low(&mut self) -> (r: Result<(), SimError>)
        ensures
            r is Ok <==> !old(self).fail_low,
            final(self).fail_low == old(self).fail_low,
            final(self).fail_high == old(self).fail_high,
    {
        let ok = !self.fail_low;
        self.records.push(PinAttempt { set_low: true, ok });
        if ok {
            Ok(())
        } else {
            Err(SimError)
        }
    }

    fn set_high(&mut self) -> (r: Result<(), SimError>)
        ensures
            r is Ok <==> !old(self).fail_high,
            final(self).fail_low == old(self).fail_low,
            final(self).fail_high == old(self).fail_high,
    {
        let ok = !self.fail_high;
        self.records.push(PinAttempt { set_low: false, ok });
        if ok {
            Ok(())
        } else {
            Err(SimError)
        }
    }
}

} // verus!
