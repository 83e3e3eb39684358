//! Bus transactions: the ghost record of what the driver asked of the bus,
//! and the calls into the embedded-hal I2C traits.
use vstd::prelude::*;
use embedded_hal::blocking::i2c::{Read, Write};
use crate::protocol::{
    calibrate_cmd, decode_spec, is_busy, is_calibrated, soft_reset_cmd, trigger_cmd, Aht10Error,
    RawReading, AHT10_I2CADDR_DEFAULT,
};


verus! {

/// One bus transaction, as the driver issued it and as the bus answered.
pub enum BusOp {
    /// Write of `bytes` to `addr`; `ok` tells whether the bus accepted it.
    Write { addr: u8, bytes: Seq<u8>, ok: bool },
    /// Read of `len` bytes from `addr`; `data` holds them when the read
    /// succeeded.
    Read { addr: u8, len: nat, data: Option<Seq<u8>> },
}

/// Relies on embedded_hal's `Write::write`: returns whether the bus
/// implementation reported success. Nothing is known of the outcome.
#[verifier::external_body]
fn bus_write<I2C: Write>(i2c: &mut I2C, addr: u8, bytes: &[u8]) -> (ok: bool) {
    i2c.write(addr, bytes).is_ok()
}

/// Relies on embedded_hal's `Read::read`: returns whether the bus
/// implementation reported success. The buffer is a slice, so its length
/// stays as it was.
#[verifier::external_body]
fn bus_read<I2C: Read>(i2c: &mut I2C, addr: u8, buf: &mut [u8]) -> (ok: bool)
    ensures
        final(buf)@.len() == old(buf)@.len(),
{
    i2c.read(addr, buf).is_ok()
}

} // verus!

verus! {

/// An I2C bus handle together with the record of every transaction made
/// through it. The record is written only by `write` and `read`, each in the
/// same step as the call it records.
pub struct Bus<I2C> {
    i2c: I2C,
    log: Ghost<Seq<BusOp>>,
}

impl<I2C> Bus<I2C> {
    /// Every transaction made through this handle, oldest first.
    pub closed spec fn trace(&self) -> Seq<BusOp> {
        self.log@
    }
}

impl<I2C: Write + Read> Bus<I2C> {
    /// Wraps a bus handle; no transaction has been made through it yet.
    pub fn new(i2c: I2C) -> (r: Self)
        ensures
            r.trace() == Seq::<BusOp>::empty(),
    {
        Bus { i2c, log: Ghost(Seq::empty()) }
    }

    /// Writes `bytes` to `addr` and records the transaction with its outcome.
    pub fn write(&mut self, addr: u8, bytes: &[u8]) -> (ok: bool)
        ensures
            final(self).trace() == old(self).trace().push(BusOp::Write { addr, bytes: bytes@, ok }),
    {
        let ok = bus_write(&mut self.i2c, addr, bytes);
        self.log = Ghost(self.log@.push(BusOp::Write { addr, bytes: bytes@, ok }));
        ok
    }

    /// Reads `buf.len()` bytes from `addr` and records the transaction, with
    /// the bytes delivered when it succeeded.
    pub fn read(&mut self, addr: u8, buf: &mut [u8]) -> (ok: bool)
        ensures
            final(buf)@.len() == old(buf)@.len(),
            final(self).trace() == old(self).trace().push(
                BusOp::Read {
                    addr,
                    len: old(buf)@.len(),
                    data: if ok {
                        Some(final(buf)@)
                    } else {
                        None
                    },
                },
            ),
    {
        let ghost len = buf@.len();
        let ok = bus_read(&mut self.i2c, addr, buf);
        self.log = Ghost(self.log@.push(BusOp::Read { addr, len, data: if ok { Some(buf@) } else { None } }));
        ok
    }
}

} // verus!

verus! {

/// `op` is a write of `bytes` to the sensor's address.
pub open spec fn is_write_of(op: BusOp, bytes: Seq<u8>) -> bool {
    match op {
        BusOp::Write { addr, bytes: b, .. } => addr == AHT10_I2CADDR_DEFAULT && b == bytes,
        _ => false,
    }
}

/// `op` is a write that the bus accepted.
pub open spec fn write_ok(op: BusOp) -> bool {
    match op {
        BusOp::Write { ok, .. } => ok,
        _ => false,
    }
}

/// `op` is a read of `len` bytes from the sensor's address; when it
/// succeeded it delivered exactly `len` bytes.
pub open spec fn is_read_of(op: BusOp, len: nat) -> bool {
    match op {
        BusOp::Read { addr, len: l, data } => addr == AHT10_I2CADDR_DEFAULT && l == len && match data {
            Some(d) => d.len() == len,
            None => true,
        },
        _ => false,
    }
}

/// What a read delivered; `None` for a failed read.
pub open spec fn read_data(op: BusOp) -> Option<Seq<u8>> {
    match op {
        BusOp::Read { data, .. } => data,
        _ => None,
    }
}

/// The status byte a one-byte read delivered, or a communication error.
pub open spec fn status_of(op: BusOp) -> Result<u8, Aht10Error> {
    match read_data(op) {
        Some(d) => Ok(d[0]),
        None => Err(Aht10Error::CommunicationError),
    }
}

/// `op` delivered a status byte with the busy bit set.
pub open spec fn read_busy(op: BusOp) -> bool {
    match status_of(op) {
        Ok(s) => is_busy(s),
        Err(_) => false,
    }
}

/// `after` is `before` with more transactions appended.
pub open spec fn extends(after: Seq<BusOp>, before: Seq<BusOp>) -> bool {
    before.len() <= after.len() && after.take(before.len() as int) == before
}

/// The transactions appended to `before` to give `after`.
pub open spec fn issued(after: Seq<BusOp>, before: Seq<BusOp>) -> Seq<BusOp> {
    after.skip(before.len() as int)
}

/// `ops` is one single-write command sequence of `cmd`, and `r` its outcome.
pub open spec fn command_run(ops: Seq<BusOp>, cmd: Seq<u8>, r: Result<(), Aht10Error>) -> bool {
    &&& ops.len() == 1
    &&& is_write_of(ops[0], cmd)
    &&& r == if write_ok(ops[0]) {
        Ok(())
    } else {
        Err(Aht10Error::CommunicationError)
    }
}

/// `ops` is one complete run of the polling loop with at most `budget`
/// status reads: it goes on while the status is busy and the budget is not
/// spent, and stops at the first failed read or idle status.
pub open spec fn poll_run(ops: Seq<BusOp>, budget: nat) -> bool {
    &&& ops.len() <= budget
    &&& forall|i: int| 0 <= i < ops.len() ==> is_read_of(#[trigger] ops[i], 1)
    &&& forall|i: int| 0 <= i < ops.len() - 1 ==> read_busy(#[trigger] ops[i])
    &&& ops.len() < budget ==> ops.len() > 0 && !read_busy(ops.last())
}

/// Outcome of a complete polling run: the idle status byte, a
/// communication error for a failed read, or `OtherError` when the budget
/// ran out while the device was busy.
pub open spec fn poll_result(ops: Seq<BusOp>) -> Result<u8, Aht10Error> {
    if ops.len() == 0 {
        Err(Aht10Error::OtherError)
    } else {
        match status_of(ops.last()) {
            Err(e) => Err(e),
            Ok(s) => if is_busy(s) {
                Err(Aht10Error::OtherError)
            } else {
                Ok(s)
            },
        }
    }
}

/// `ops` starts with one write, then a complete polling run ending at `k`;
/// exactly one transaction follows when the polling succeeded, none otherwise.
pub open spec fn write_then_poll(ops: Seq<BusOp>, budget: nat, k: int) -> bool {
    &&& 1 <= k <= ops.len()
    &&& poll_run(ops.subrange(1, k), budget)
    &&& k == if poll_result(ops.subrange(1, k)) is Ok {
        ops.len() - 1
    } else {
        ops.len() as int
    }
}

/// `ops` is one run of the calibration sequence and `r` its outcome: the
/// calibration command, and if the bus accepted it, a polling run and one
/// more status read whose calibrated bit decides success.
pub open spec fn calibrate_run(ops: Seq<BusOp>, budget: nat, r: Result<(), Aht10Error>) -> bool {
    &&& ops.len() >= 1
    &&& is_write_of(ops[0], calibrate_cmd())
    &&& if !write_ok(ops[0]) {
        ops.len() == 1 && r == Err::<(), Aht10Error>(Aht10Error::CommunicationError)
    } else {
        exists|k: int|
            #[trigger] write_then_poll(ops, budget, k) && match poll_result(ops.subrange(1, k)) {
                Err(e) => r == Err::<(), Aht10Error>(e),
                Ok(_) => is_read_of(ops.last(), 1) && r == match status_of(ops.last()) {
                    Err(e) => Err(e),
                    Ok(s) => if is_calibrated(s) {
                        Ok(())
                    } else {
                        Err(Aht10Error::CalibrationFailed)
                    },
                },
            }
    }
}

/// `ops` is one run of initialisation and `r` its outcome: the soft reset,
/// and if the bus accepted it, one run of the calibration sequence.
pub open spec fn begin_run(ops: Seq<BusOp>, budget: nat, r: Result<(), Aht10Error>) -> bool {
    &&& ops.len() >= 1
    &&& is_write_of(ops[0], soft_reset_cmd())
    &&& if !write_ok(ops[0]) {
        ops.len() == 1 && r == Err::<(), Aht10Error>(Aht10Error::CommunicationError)
    } else {
        calibrate_run(ops.skip(1), budget, r)
    }
}

/// `ops` is one run of a measurement and `r` its outcome: the trigger
/// command, and if the bus accepted it, a polling run and a six-byte read
/// whose payload is decoded.
pub open spec fn measure_run(ops: Seq<BusOp>, budget: nat, r: Result<RawReading, Aht10Error>) -> bool {
    &&& ops.len() >= 1
    &&& is_write_of(ops[0], trigger_cmd())
    &&& if !write_ok(ops[0]) {
        ops.len() == 1 && r == Err::<RawReading, Aht10Error>(Aht10Error::CommunicationError)
    } else {
        exists|k: int|
            #[trigger] write_then_poll(ops, budget, k) && match poll_result(ops.subrange(1, k)) {
                Err(e) => r == Err::<RawReading, Aht10Error>(e),
                Ok(_) => is_read_of(ops.last(), 6) && r == match read_data(ops.last()) {
                    None => Err(Aht10Error::CommunicationError),
                    Some(d) => Ok(decode_spec(d)),
                },
            }
    }
}

} // verus!

verus! {

/// Appending to a log that extends `start` keeps it extending `start`, and
/// the issued part grows by the appended transaction.
pub(crate) proof fn lemma_issued_push(log: Seq<BusOp>, start: Seq<BusOp>, op: BusOp)
    requires
        extends(log, start),
    ensures
        extends(log.push(op), start),
        issued(log.push(op), start) == issued(log, start).push(op),
{
    assert(log.push(op).take(start.len() as int) =~= start);
    assert(issued(log.push(op), start) =~= issued(log, start).push(op));
}

/// Extension is transitive, and the issued parts concatenate.
pub(crate) proof fn lemma_issued_concat(a: Seq<BusOp>, b: Seq<BusOp>, c: Seq<BusOp>)
    requires
        extends(b, a),
        extends(c, b),
    ensures
        extends(c, a),
        issued(c, a) == issued(b, a) + issued(c, b),
{
    assert(c.take(a.len() as int) =~= b.take(a.len() as int));
    assert(issued(c, a) =~= issued(b, a) + issued(c, b));
}

} // verus!

verus! {

/// The polling loop does not stop while the device is busy: in a complete
/// polling run, a read that found the busy bit set is followed by another
/// status read unless it used up the budget, and a run that succeeds ends
/// on a status byte whose busy bit is clear.
pub proof fn lemma_poll_continues_while_busy(ops: Seq<BusOp>, budget: nat, i: int)
    requires
        poll_run(ops, budget),
        0 <= i < ops.len(),
        read_busy(ops[i]),
        i + 1 < budget,
    ensures
        i + 1 < ops.len(),
        is_read_of(ops[i + 1], 1),
        poll_result(ops) is Ok ==> !is_busy(poll_result(ops)->Ok_0),
{
    if i + 1 >= ops.len() {
        assert(ops.len() < budget);
        assert(ops.last() == ops[i]);
    }
    assert(is_read_of(ops[i + 1], 1));
}

} // verus!

verus! {

/// A measurement reads its payload only directly after a status read that
/// found the busy bit clear, and the payload read is its last transaction.
pub proof fn lemma_payload_read_follows_idle_status(
    ops: Seq<BusOp>,
    budget: nat,
    r: Result<RawReading, Aht10Error>,
    j: int,
)
    requires
        measure_run(ops, budget, r),
        0 <= j < ops.len(),
        is_read_of(ops[j], 6),
    ensures
        j == ops.len() - 1,
        j >= 2,
        status_of(ops[j - 1]) is Ok,
        !is_busy(status_of(ops[j - 1])->Ok_0),
{
    let k = choose|k: int| #[trigger] write_then_poll(ops, budget, k);
    let poll = ops.subrange(1, k);
    if 1 <= j < k {
        assert(is_read_of(poll[j - 1], 1));
        assert(false);
    }
    assert(j == ops.len() - 1);
    assert(poll_result(poll) is Ok);
    assert(poll.last() == ops[j - 1]);
}

} // verus!
