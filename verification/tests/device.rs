//! Driver protocol sequencing against a simulated bus.

use std::cell::RefCell;
use std::rc::Rc;

use ms5611::DelayMillis;
use ms5611::I2cBus;
use ms5611::Ms5611;
use ms5611::Ms5611Error;
use ms5611::Osr;

/// Everything the simulated bus observed.
#[derive(Default)]
struct BusLog {
    /// (address, command) of every single-byte write transaction.
    writes: Vec<(u8, u8)>,
    /// (address, command) of every write-then-read transaction.
    reads: Vec<(u8, u8)>,
    /// Milliseconds of every delay call.
    delays: Vec<u8>,
}

#[derive(Debug, PartialEq, Eq, Clone, Copy)]
struct SimError(u8);

/// A simulated sensor: answers calibration reads from a word table and ADC
/// reads with a fixed raw pressure/temperature pair.
struct SimBus {
    words: [u16; 8],
    d1: u32,
    d2: u32,
    /// The conversion the last command started, if any.
    pending: Option<u32>,
    /// Index of the transaction that should fail, if any.
    fail_at: Option<usize>,
    count: usize,
    log: Rc<RefCell<BusLog>>,
}

impl SimBus {
    fn new(words: [u16; 8], d1: u32, d2: u32, log: Rc<RefCell<BusLog>>) -> SimBus {
        SimBus { words, d1, d2, pending: None, fail_at: None, count: 0, log }
    }

    fn tick(&mut self) -> Result<(), SimError> {
        let n = self.count;
        self.count += 1;
        if self.fail_at == Some(n) {
            Err(SimError(0x5a))
        } else {
            Ok(())
        }
    }
}

impl I2cBus for SimBus {
    type Error = SimError;

    fn write_cmd(&mut self, address: u8, cmd: u8) -> Result<(), SimError> {
        self.tick()?;
        self.log.borrow_mut().writes.push((address, cmd));
        if (0x40..=0x48).contains(&cmd) {
            self.pending = Some(self.d1);
        } else if (0x50..=0x58).contains(&cmd) {
            self.pending = Some(self.d2);
        } else {
            self.pending = None;
        }
        Ok(())
    }

    fn write_read2(&mut self, address: u8, cmd: u8) -> Result<[u8; 2], SimError> {
        self.tick()?;
        self.log.borrow_mut().reads.push((address, cmd));
        assert!((0xa0..=0xae).contains(&cmd) && cmd % 2 == 0, "bad calibration read {cmd:#x}");
        let w = self.words[usize::from((cmd - 0xa0) / 2)];
        Ok([(w >> 8) as u8, (w & 0xff) as u8])
    }

    fn write_read3(&mut self, address: u8, cmd: u8) -> Result<[u8; 3], SimError> {
        self.tick()?;
        self.log.borrow_mut().reads.push((address, cmd));
        assert_eq!(cmd, 0x00, "ADC read must address register 0");
        let v = self.pending.take().expect("ADC read without a started conversion");
        Ok([(v >> 16) as u8, (v >> 8) as u8, (v & 0xff) as u8])
    }
}

struct SimDelay {
    log: Rc<RefCell<BusLog>>,
}

impl DelayMillis for SimDelay {
    fn delay_ms(&mut self, ms: u8) {
        self.log.borrow_mut().delays.push(ms);
    }
}

/// Words consistent with the datasheet example, checksum included.
const WORDS: [u16; 8] = [12594, 40127, 36924, 23317, 23282, 33464, 28312, 17672];

#[test]
fn end_to_end_datasheet_sample() {
    let log = Rc::new(RefCell::new(BusLog::default()));
    let bus = SimBus::new(WORDS, 9085466, 8569150, log.clone());
    let mut dev = Ms5611::new(bus, None).expect("construction must succeed");
    let mut delay = SimDelay { log: log.clone() };
    let s = dev.read_sample(Osr::Opt256, &mut delay).expect("read must succeed");
    assert_eq!(s.temperature_centicelsius, 2007);
    assert_eq!(s.pressure_centimbar, 100009);
    // All traffic went to the default address 0x77.
    let l = log.borrow();
    assert!(l.writes.iter().all(|&(a, _)| a == 0x77));
    assert!(l.reads.iter().all(|&(a, _)| a == 0x77));
}

#[test]
fn construction_reads_the_eight_calibration_words() {
    let log = Rc::new(RefCell::new(BusLog::default()));
    let bus = SimBus::new(WORDS, 0, 0, log.clone());
    Ms5611::new(bus, Some(0x76)).expect("construction must succeed");
    let l = log.borrow();
    let expected: Vec<(u8, u8)> = (0..8).map(|i| (0x76, 0xa0 + 2 * i)).collect();
    assert_eq!(l.reads, expected);
    assert!(l.writes.is_empty());
}

#[test]
fn read_sample_sequences_conversions_and_waits() {
    let log = Rc::new(RefCell::new(BusLog::default()));
    let bus = SimBus::new(WORDS, 9085466, 8569150, log.clone());
    let mut dev = Ms5611::new(bus, None).expect("construction must succeed");
    let mut delay = SimDelay { log: log.clone() };
    dev.read_sample(Osr::Opt4096, &mut delay).expect("read must succeed");
    let l = log.borrow();
    // One pressure start, one temperature start, each followed by an ADC
    // read, with the highest ratio's command offset and wait.
    assert_eq!(l.writes, vec![(0x77, 0x48), (0x77, 0x58)]);
    assert_eq!(l.reads[8..], [(0x77, 0x00), (0x77, 0x00)]);
    assert_eq!(l.delays, vec![10, 10]);
}

#[test]
fn reset_writes_once_and_waits_50ms() {
    let log = Rc::new(RefCell::new(BusLog::default()));
    let bus = SimBus::new(WORDS, 9085466, 8569150, log.clone());
    let mut dev = Ms5611::new(bus, None).expect("construction must succeed");
    let mut delay = SimDelay { log: log.clone() };
    dev.reset(&mut delay).expect("reset must succeed");
    {
        let l = log.borrow();
        assert_eq!(l.writes, vec![(0x77, 0x1e)]);
        assert_eq!(l.delays, vec![50]);
    }
    // The protocol is not left desynchronized: a sample read still works.
    let s = dev.read_sample(Osr::Opt512, &mut delay).expect("read must succeed");
    assert_eq!(s.temperature_centicelsius, 2007);
    assert_eq!(s.pressure_centimbar, 100009);
}

#[test]
fn corrupt_calibration_is_a_checksum_error() {
    let log = Rc::new(RefCell::new(BusLog::default()));
    let mut words = WORDS;
    words[3] ^= 0x0400;
    let bus = SimBus::new(words, 0, 0, log.clone());
    match Ms5611::new(bus, None) {
        Err(Ms5611Error::ChecksumMismatch) => {},
        other => panic!("expected a checksum mismatch, got {:?}", other.is_ok()),
    }
}

#[test]
fn transport_failure_during_construction() {
    let log = Rc::new(RefCell::new(BusLog::default()));
    let mut bus = SimBus::new(WORDS, 0, 0, log.clone());
    bus.fail_at = Some(3);
    match Ms5611::new(bus, None) {
        Err(Ms5611Error::Transport(e)) => assert_eq!(e, SimError(0x5a)),
        other => panic!("expected a transport error, got {:?}", other.is_ok()),
    }
}

#[test]
fn transport_failure_aborts_read_sample() {
    let log = Rc::new(RefCell::new(BusLog::default()));
    let mut bus = SimBus::new(WORDS, 9085466, 8569150, log.clone());
    // Fail the ADC read of the second (temperature) conversion.
    bus.fail_at = Some(11);
    let mut dev = Ms5611::new(bus, None).expect("construction must succeed");
    let mut delay = SimDelay { log: log.clone() };
    match dev.read_sample(Osr::Opt256, &mut delay) {
        Err(Ms5611Error::Transport(e)) => assert_eq!(e, SimError(0x5a)),
        other => panic!("expected a transport error, got {:?}", other.is_ok()),
    }
}

#[test]
fn oversampling_tables_strictly_increase() {
    let levels = [Osr::Opt256, Osr::Opt512, Osr::Opt1024, Osr::Opt2048, Osr::Opt4096];
    assert_eq!(levels.map(|o| o.get_delay()), [1, 2, 3, 5, 10]);
    assert_eq!(levels.map(|o| o.addr_modifier()), [0, 2, 4, 6, 8]);
    for i in 1..levels.len() {
        assert!(levels[i - 1].get_delay() < levels[i].get_delay());
        assert!(levels[i - 1].addr_modifier() < levels[i].addr_modifier());
    }
}

#[test]
fn big_endian_helpers() {
    assert_eq!(ms5611::device::be_u16(0x12, 0x34), 0x1234);
    assert_eq!(ms5611::device::be_u24(0x8a, 0xa2, 0x1a), 9085466);
}
