//! The sensor driver.
use vstd::prelude::*;
use embedded_hal::blocking::i2c::{Read, Write};
use crate::bus::{
    begin_run, lemma_issued_concat, lemma_issued_push, calibrate_run, command_run, extends, is_read_of, is_write_of,
    issued, measure_run, poll_result, poll_run, read_busy, status_of, write_ok, write_then_poll,
    Bus, BusOp,
};
use crate::protocol::{
    calibrate_cmd, decode, is_calibrated, soft_reset_cmd, trigger_cmd,
    Aht10Error, RawReading, AHT10_CALIBRATE_ARG0, AHT10_CALIBRATE_ARG1, AHT10_CMD_CALIBRATE,
    AHT10_CMD_SOFTRESET, AHT10_CMD_TRIGGER, AHT10_I2CADDR_DEFAULT, AHT10_STATUS_BUSY,
    AHT10_STATUS_CALIBRATED, AHT10_TRIGGER_ARG0, AHT10_TRIGGER_ARG1,
};

verus! {

/// Status reads one polling loop may issue unless configured otherwise.
pub const DEFAULT_MAX_POLLS: u32 = 0xFFFF_FFFF;

/// Driver for one AHT10 sensor; owns its bus handle.
pub struct AdafruitAHT10<I2C> {
    bus: Bus<I2C>,
    max_polls: u32,
}

impl<I2C> AdafruitAHT10<I2C> {
    /// Every bus transaction this driver has issued, oldest first.
    pub closed spec fn trace(&self) -> Seq<BusOp> {
        self.bus.trace()
    }

    /// How many status reads one polling loop may issue.
    pub closed spec fn poll_budget(&self) -> nat {
        self.max_polls as nat
    }
}

impl<I2C: Write + Read> AdafruitAHT10<I2C> {
    /// Takes ownership of the bus handle; performs no I/O.
    pub fn new(i2c: I2C) -> (r: Self)
        ensures
            r.trace() == Seq::<BusOp>::empty(),
            r.poll_budget() == DEFAULT_MAX_POLLS as nat,
    {
        AdafruitAHT10 { bus: Bus::new(i2c), max_polls: DEFAULT_MAX_POLLS }
    }

    /// Writes one command sequence to the sensor.
    fn send_command(&mut self, cmd: &[u8]) -> (r: Result<(), Aht10Error>)
        ensures
            final(self).poll_budget() == old(self).poll_budget(),
            extends(final(self).trace(), old(self).trace()),
            command_run(issued(final(self).trace(), old(self).trace()), cmd@, r),
    {
        let ok = self.bus.write(AHT10_I2CADDR_DEFAULT, cmd);
        assert(self.trace().take(old(self).trace().len() as int) =~= old(self).trace());
        assert(issued(self.trace(), old(self).trace()) =~= seq![self.trace().last()]);
        if ok {
            Ok(())
        } else {
            Err(Aht10Error::CommunicationError)
        }
    }

    /// Reads one status byte.
    pub fn get_status(&mut self) -> (r: Result<u8, Aht10Error>)
        ensures
            final(self).poll_budget() == old(self).poll_budget(),
            final(self).trace() == old(self).trace().push(final(self).trace().last()),
            is_read_of(final(self).trace().last(), 1),
            r == status_of(final(self).trace().last()),
    {
        let mut status = [0u8; 1];
        let ok = self.bus.read(AHT10_I2CADDR_DEFAULT, &mut status);
        if !ok {
            return Err(Aht10Error::CommunicationError);
        }
        Ok(status[0])
    }

    /// Sets how many status reads one polling loop may issue before it
    /// gives up with `OtherError`.
    pub fn with_max_polls(self, max_polls: u32) -> (r: Self)
        ensures
            r.trace() == self.trace(),
            r.poll_budget() == max_polls as nat,
    {
        AdafruitAHT10 { bus: self.bus, max_polls }
    }

    /// Reads the status byte until its busy bit is clear, at most
    /// `poll_budget()` times; returns the idle status byte.
    fn wait_until_idle(&mut self) -> (r: Result<u8, Aht10Error>)
        ensures
            final(self).poll_budget() == old(self).poll_budget(),
            extends(final(self).trace(), old(self).trace()),
            poll_run(issued(final(self).trace(), old(self).trace()), old(self).poll_budget()),
            r == poll_result(issued(final(self).trace(), old(self).trace())),
    {
        let ghost start = self.trace();
        let mut polls: u32 = 0;
        assert(self.trace().take(start.len() as int) =~= start);
        assert(issued(self.trace(), start) =~= Seq::<BusOp>::empty());
        loop
            invariant
                self.max_polls == old(self).max_polls,
                start == old(self).trace(),
                extends(self.trace(), start),
                polls as nat == issued(self.trace(), start).len(),
                polls <= self.max_polls,
                forall|i: int|
                    0 <= i < polls ==> is_read_of(#[trigger] issued(self.trace(), start)[i], 1)
                        && read_busy(issued(self.trace(), start)[i]),
            decreases self.max_polls - polls,
        {
            if polls == self.max_polls {
                return Err(Aht10Error::OtherError);
            }
            let ghost before = self.trace();
            let s = self.get_status();
            proof {
                lemma_issued_push(before, start, self.trace().last());
            }
            polls = polls + 1;
            match s {
                Err(e) => {
                    return Err(e);
                },
                Ok(st) => {
                    if st & AHT10_STATUS_BUSY == 0 {
                        return Ok(st);
                    }
                },
            }
        }
    }

    /// Issues the soft-reset command.
    pub fn soft_reset(&mut self) -> (r: Result<(), Aht10Error>)
        ensures
            final(self).poll_budget() == old(self).poll_budget(),
            extends(final(self).trace(), old(self).trace()),
            command_run(issued(final(self).trace(), old(self).trace()), soft_reset_cmd(), r),
    {
        let cmd: [u8; 1] = [AHT10_CMD_SOFTRESET];
        assert(cmd@ =~= soft_reset_cmd());
        self.send_command(&cmd)
    }

    /// Issues the calibration command, waits until the device is idle and
    /// checks that it reports itself calibrated.
    pub fn calibrate(&mut self) -> (r: Result<(), Aht10Error>)
        ensures
            final(self).poll_budget() == old(self).poll_budget(),
            extends(final(self).trace(), old(self).trace()),
            calibrate_run(issued(final(self).trace(), old(self).trace()), old(self).poll_budget(), r),
            !write_ok(issued(final(self).trace(), old(self).trace())[0]) ==> issued(
                final(self).trace(),
                old(self).trace(),
            ).len() == 1 && r == Err::<(), Aht10Error>(Aht10Error::CommunicationError),
    {
        let ghost start = self.trace();
        let ghost budget = self.poll_budget();
        let cmd: [u8; 3] = [AHT10_CMD_CALIBRATE, AHT10_CALIBRATE_ARG0, AHT10_CALIBRATE_ARG1];
        assert(cmd@ =~= calibrate_cmd());
        let w = self.send_command(&cmd);
        if let Err(e) = w {
            return Err(e);
        }
        let ghost a = self.trace();
        let p = self.wait_until_idle();
        let ghost b = self.trace();
        proof {
            lemma_issued_concat(start, a, b);
            let ops = issued(b, start);
            assert(ops.subrange(1, ops.len() as int) =~= issued(b, a));
        }
        if let Err(e) = p {
            assert(write_then_poll(issued(b, start), budget, issued(b, start).len() as int));
            return Err(e);
        }
        let s = self.get_status();
        proof {
            lemma_issued_push(b, start, self.trace().last());
            let ops = issued(self.trace(), start);
            assert(ops.subrange(1, ops.len() - 1) =~= issued(b, a));
            assert(write_then_poll(ops, budget, ops.len() - 1));
        }
        match s {
            Err(e) => Err(e),
            Ok(st) => {
                if st & AHT10_STATUS_CALIBRATED == 0 {
                    Err(Aht10Error::CalibrationFailed)
                } else {
                    Ok(())
                }
            },
        }
    }

    /// Initialises the sensor: soft reset, then calibration.
    ///
    /// The soft reset always comes first; calibration is attempted only if
    /// the bus accepted it, and success is reported only if the status read
    /// after polling has the calibrated bit set.
    pub fn begin(&mut self) -> (r: Result<(), Aht10Error>)
        ensures
            final(self).poll_budget() == old(self).poll_budget(),
            extends(final(self).trace(), old(self).trace()),
            begin_run(issued(final(self).trace(), old(self).trace()), old(self).poll_budget(), r),
            is_write_of(issued(final(self).trace(), old(self).trace())[0], soft_reset_cmd()),
            issued(final(self).trace(), old(self).trace()).len() > 1 ==> is_write_of(
                issued(final(self).trace(), old(self).trace())[1],
                calibrate_cmd(),
            ),
            !write_ok(issued(final(self).trace(), old(self).trace())[0]) ==> issued(
                final(self).trace(),
                old(self).trace(),
            ).len() == 1 && r == Err::<(), Aht10Error>(Aht10Error::CommunicationError),
            r is Ok ==> status_of(issued(final(self).trace(), old(self).trace()).last()) is Ok
                && is_calibrated(
                status_of(issued(final(self).trace(), old(self).trace()).last())->Ok_0,
            ),
    {
        let ghost start = self.trace();
        let rs = self.soft_reset();
        if let Err(e) = rs {
            return Err(e);
        }
        let ghost a = self.trace();
        let rc = self.calibrate();
        proof {
            lemma_issued_concat(start, a, self.trace());
            let ops = issued(self.trace(), start);
            assert(ops.skip(1) =~= issued(self.trace(), a));
        }
        rc
    }

    /// Triggers a measurement, waits until the device is idle and reads and
    /// decodes the six-byte payload.
    pub fn read_raw_data(&mut self) -> (r: Result<RawReading, Aht10Error>)
        ensures
            final(self).poll_budget() == old(self).poll_budget(),
            extends(final(self).trace(), old(self).trace()),
            measure_run(issued(final(self).trace(), old(self).trace()), old(self).poll_budget(), r),
            !write_ok(issued(final(self).trace(), old(self).trace())[0]) ==> issued(
                final(self).trace(),
                old(self).trace(),
            ).len() == 1 && r == Err::<RawReading, Aht10Error>(Aht10Error::CommunicationError),
    {
        let ghost start = self.trace();
        let ghost budget = self.poll_budget();
        let cmd: [u8; 3] = [AHT10_CMD_TRIGGER, AHT10_TRIGGER_ARG0, AHT10_TRIGGER_ARG1];
        assert(cmd@ =~= trigger_cmd());
        let w = self.send_command(&cmd);
        if let Err(e) = w {
            return Err(e);
        }
        let ghost a = self.trace();
        let p = self.wait_until_idle();
        let ghost b = self.trace();
        proof {
            lemma_issued_concat(start, a, b);
            let ops = issued(b, start);
            assert(ops.subrange(1, ops.len() as int) =~= issued(b, a));
        }
        if let Err(e) = p {
            assert(write_then_poll(issued(b, start), budget, issued(b, start).len() as int));
            return Err(e);
        }
        let mut data = [0u8; 6];
        let ok = self.bus.read(AHT10_I2CADDR_DEFAULT, &mut data);
        proof {
            lemma_issued_push(b, start, self.trace().last());
            let ops = issued(self.trace(), start);
            assert(ops.subrange(1, ops.len() - 1) =~= issued(b, a));
            assert(write_then_poll(ops, budget, ops.len() - 1));
        }
        if !ok {
            return Err(Aht10Error::CommunicationError);
        }
        Ok(decode(&data))
    }
}

} // verus!
