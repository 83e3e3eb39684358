use std::cell::RefCell;
use std::collections::VecDeque;
use std::rc::Rc;

use adafruit_aht10::{AdafruitAHT10, Aht10Error, RawReading};
use embedded_hal::blocking::i2c::{Read, Write};

#[derive(Debug, Clone, PartialEq)]
enum Op {
    Write(u8, Vec<u8>),
    Read(u8, usize),
}

#[derive(Default)]
struct State {
    ops: Vec<Op>,
    statuses: VecDeque<u8>,
    idle_status: u8,
    payload: Vec<u8>,
    fail_write: Option<usize>,
    fail_status_read: Option<usize>,
    writes: usize,
    status_reads: usize,
}

#[derive(Clone)]
struct MockBus(Rc<RefCell<State>>);

#[derive(Debug)]
struct MockError;

impl Write for MockBus {
    type Error = MockError;
    fn write(&mut self, address: u8, bytes: &[u8]) -> Result<(), MockError> {
        let mut s = self.0.borrow_mut();
        s.ops.push(Op::Write(address, bytes.to_vec()));
        let n = s.writes;
        s.writes += 1;
        if s.fail_write == Some(n) {
            return Err(MockError);
        }
        Ok(())
    }
}

impl Read for MockBus {
    type Error = MockError;
    fn read(&mut self, address: u8, buffer: &mut [u8]) -> Result<(), MockError> {
        let mut s = self.0.borrow_mut();
        s.ops.push(Op::Read(address, buffer.len()));
        if buffer.len() == 1 {
            let n = s.status_reads;
            s.status_reads += 1;
            if s.fail_status_read == Some(n) {
                return Err(MockError);
            }
            let idle = s.idle_status;
            buffer[0] = s.statuses.pop_front().unwrap_or(idle);
            return Ok(());
        }
        let available = s.payload.len().min(buffer.len());
        buffer[..available].copy_from_slice(&s.payload[..available]);
        if available < buffer.len() {
            return Err(MockError);
        }
        Ok(())
    }
}

fn mock(statuses: &[u8], idle_status: u8, payload: &[u8]) -> (MockBus, Rc<RefCell<State>>) {
    let state = Rc::new(RefCell::new(State {
        statuses: statuses.iter().copied().collect(),
        idle_status,
        payload: payload.to_vec(),
        ..State::default()
    }));
    (MockBus(state.clone()), state)
}

const ADDR: u8 = 0x38;

fn reset_op() -> Op {
    Op::Write(ADDR, vec![0xBA])
}

fn calibrate_op() -> Op {
    Op::Write(ADDR, vec![0xE1, 0x08, 0x00])
}

fn trigger_op() -> Op {
    Op::Write(ADDR, vec![0xAC, 0x33, 0x00])
}

fn status_op() -> Op {
    Op::Read(ADDR, 1)
}

fn humidity_percent(r: &RawReading) -> f32 {
    (r.humidity as f32 * 100.0) / (0x100000 as f32)
}

fn temperature_celsius(r: &RawReading) -> f32 {
    ((r.temperature as f32) * 200.0 / 0x100000 as f32) - 50.0
}

#[test]
fn new_performs_no_io() {
    let (bus, state) = mock(&[], 0x08, &[]);
    let _sensor = AdafruitAHT10::new(bus);
    assert!(state.borrow().ops.is_empty());
}

#[test]
fn begin_resets_then_calibrates() {
    let (bus, state) = mock(&[], 0x08, &[]);
    let mut sensor = AdafruitAHT10::new(bus);
    assert_eq!(sensor.begin(), Ok(()));
    assert_eq!(state.borrow().ops, vec![reset_op(), calibrate_op(), status_op(), status_op()]);
}

#[test]
fn begin_polls_while_busy() {
    let (bus, state) = mock(&[0x88, 0x88], 0x08, &[]);
    let mut sensor = AdafruitAHT10::new(bus);
    assert_eq!(sensor.begin(), Ok(()));
    let ops = state.borrow().ops.clone();
    assert_eq!(ops[0], reset_op());
    assert_eq!(ops[1], calibrate_op());
    // Two busy polls, the idle poll, and the calibration check: two more
    // status reads than on an idle device.
    assert_eq!(ops[2..].to_vec(), vec![status_op(); 4]);
}

#[test]
fn begin_reset_write_failure_short_circuits() {
    let (bus, state) = mock(&[], 0x08, &[]);
    state.borrow_mut().fail_write = Some(0);
    let mut sensor = AdafruitAHT10::new(bus);
    assert_eq!(sensor.begin(), Err(Aht10Error::CommunicationError));
    assert_eq!(state.borrow().ops, vec![reset_op()]);
}

#[test]
fn begin_calibrate_write_failure_short_circuits() {
    let (bus, state) = mock(&[], 0x08, &[]);
    state.borrow_mut().fail_write = Some(1);
    let mut sensor = AdafruitAHT10::new(bus);
    assert_eq!(sensor.begin(), Err(Aht10Error::CommunicationError));
    assert_eq!(state.borrow().ops, vec![reset_op(), calibrate_op()]);
}

#[test]
fn begin_reports_uncalibrated_device() {
    let (bus, state) = mock(&[0x80], 0x00, &[]);
    let mut sensor = AdafruitAHT10::new(bus);
    assert_eq!(sensor.begin(), Err(Aht10Error::CalibrationFailed));
    assert_eq!(state.borrow().ops.len(), 5);
}

#[test]
fn begin_status_read_failure_is_communication_error() {
    let (bus, state) = mock(&[0x88], 0x08, &[]);
    state.borrow_mut().fail_status_read = Some(1);
    let mut sensor = AdafruitAHT10::new(bus);
    assert_eq!(sensor.begin(), Err(Aht10Error::CommunicationError));
    assert_eq!(state.borrow().ops, vec![reset_op(), calibrate_op(), status_op(), status_op()]);
}

#[test]
fn begin_final_status_read_failure_is_communication_error() {
    let (bus, state) = mock(&[], 0x08, &[]);
    state.borrow_mut().fail_status_read = Some(1);
    let mut sensor = AdafruitAHT10::new(bus);
    assert_eq!(sensor.begin(), Err(Aht10Error::CommunicationError));
    assert_eq!(state.borrow().ops.len(), 4);
}

#[test]
fn poll_budget_exhausted_is_other_error() {
    let (bus, state) = mock(&[], 0x88, &[]);
    let mut sensor = AdafruitAHT10::new(bus).with_max_polls(3);
    assert_eq!(sensor.begin(), Err(Aht10Error::OtherError));
    assert_eq!(state.borrow().ops, vec![reset_op(), calibrate_op(), status_op(), status_op(), status_op()]);
}

#[test]
fn zero_poll_budget_reads_no_status() {
    let (bus, state) = mock(&[], 0x08, &[0; 6]);
    let mut sensor = AdafruitAHT10::new(bus).with_max_polls(0);
    assert_eq!(sensor.read_raw_data(), Err(Aht10Error::OtherError));
    assert_eq!(state.borrow().ops, vec![trigger_op()]);
}

#[test]
fn soft_reset_writes_opcode() {
    let (bus, state) = mock(&[], 0x08, &[]);
    let mut sensor = AdafruitAHT10::new(bus);
    assert_eq!(sensor.soft_reset(), Ok(()));
    assert_eq!(state.borrow().ops, vec![reset_op()]);
}

#[test]
fn calibrate_checks_calibrated_bit() {
    let (bus, _state) = mock(&[], 0x18, &[]);
    let mut sensor = AdafruitAHT10::new(bus);
    assert_eq!(sensor.calibrate(), Ok(()));
    let (bus, _state) = mock(&[], 0x10, &[]);
    let mut sensor = AdafruitAHT10::new(bus);
    assert_eq!(sensor.calibrate(), Err(Aht10Error::CalibrationFailed));
}

#[test]
fn get_status_returns_byte() {
    let (bus, state) = mock(&[0x9C], 0x08, &[]);
    let mut sensor = AdafruitAHT10::new(bus);
    assert_eq!(sensor.get_status(), Ok(0x9C));
    assert_eq!(sensor.get_status(), Ok(0x08));
    state.borrow_mut().fail_status_read = Some(2);
    assert_eq!(sensor.get_status(), Err(Aht10Error::CommunicationError));
}

#[test]
fn read_raw_data_sequence_and_decode() {
    let (bus, state) = mock(&[0x80], 0x08, &[0x1C, 0x12, 0x34, 0x56, 0x78, 0x9A]);
    let mut sensor = AdafruitAHT10::new(bus);
    let r = sensor.read_raw_data().unwrap();
    assert_eq!(r, RawReading { humidity: 0x12345, temperature: 0x6789A });
    assert_eq!(
        state.borrow().ops,
        vec![trigger_op(), status_op(), status_op(), Op::Read(ADDR, 6)]
    );
}

#[test]
fn read_raw_data_humidity_bounds() {
    let (bus, _state) = mock(&[], 0x08, &[0xFF, 0x00, 0x00, 0x00, 0xAA, 0xBB]);
    let mut sensor = AdafruitAHT10::new(bus);
    let r = sensor.read_raw_data().unwrap();
    assert_eq!(r.humidity, 0);
    assert_eq!(humidity_percent(&r), 0.0);

    let (bus, _state) = mock(&[], 0x08, &[0x00, 0xFF, 0xFF, 0xF0, 0x00, 0x00]);
    let mut sensor = AdafruitAHT10::new(bus);
    let r = sensor.read_raw_data().unwrap();
    assert_eq!(r.humidity, (1 << 20) - 1);
    let h = humidity_percent(&r);
    assert!(h < 100.0 && h > 99.999);
}

#[test]
fn read_raw_data_temperature_bounds() {
    let (bus, _state) = mock(&[], 0x08, &[0x00, 0x12, 0x34, 0x00, 0x00, 0x00]);
    let mut sensor = AdafruitAHT10::new(bus);
    let r = sensor.read_raw_data().unwrap();
    assert_eq!(r.temperature, 0);
    assert_eq!(temperature_celsius(&r), -50.0);

    let (bus, _state) = mock(&[], 0x08, &[0x00, 0x12, 0x34, 0x50, 0x00, 0x01]);
    let mut sensor = AdafruitAHT10::new(bus);
    let r = sensor.read_raw_data().unwrap();
    assert_eq!(r.temperature, 1);
    assert_eq!(temperature_celsius(&r), -50.0 + 200.0 / 1048576.0);
}

#[test]
fn read_raw_data_short_read_is_communication_error() {
    let (bus, state) = mock(&[], 0x08, &[0x1C, 0x12, 0x34, 0x56, 0x78]);
    let mut sensor = AdafruitAHT10::new(bus);
    assert_eq!(sensor.read_raw_data(), Err(Aht10Error::CommunicationError));
    assert_eq!(state.borrow().ops.last(), Some(&Op::Read(ADDR, 6)));
}

#[test]
fn read_raw_data_trigger_write_failure_short_circuits() {
    let (bus, state) = mock(&[], 0x08, &[0; 6]);
    state.borrow_mut().fail_write = Some(0);
    let mut sensor = AdafruitAHT10::new(bus);
    assert_eq!(sensor.read_raw_data(), Err(Aht10Error::CommunicationError));
    assert_eq!(state.borrow().ops, vec![trigger_op()]);
}
