use at24cx::device::Completion;
use at24cx::transfer::{Action, Event, Phase, Step, WriteState};
use at24cx::{Address, At24Cx, Error};

/// Something that went to the bus or to the delay provider.
#[derive(Debug, Clone, PartialEq, Eq)]
enum Seen {
    Write { device: u8, offset: u32, len: usize },
    Probe { device: u8 },
    DelayUs(u32),
    DelayMs(u32),
}

/// A chip of 128 KiB at base address 0x50, with a script of how it answers.
struct Chip {
    memory: Vec<u8>,
    seen: Vec<Seen>,
    /// Probes that are refused before the chip acknowledges again.
    refuse_probes: usize,
    /// Page writes that are acknowledged before one fails.
    accept_writes: usize,
}

impl Chip {
    fn new() -> Chip {
        Chip { memory: vec![0xff; 131072], seen: Vec::new(), refuse_probes: 0, accept_writes: usize::MAX }
    }

    fn cell(device: u8, hi: u8, lo: u8) -> usize {
        assert_eq!(device & 0xfe, 0x50);
        ((device & 1) as usize) << 16 | (hi as usize) << 8 | lo as usize
    }

    fn perform(&mut self, action: &Action) -> Event<u8> {
        match action {
            Action::Write { device, payload } => {
                let start = Chip::cell(*device, payload[0], payload[1]);
                self.seen.push(Seen::Write {
                    device: *device,
                    offset: start as u32,
                    len: payload.len() - 2,
                });
                if self.accept_writes == 0 {
                    return Event::Failed(7);
                }
                self.accept_writes -= 1;
                let page = start & !0xff;
                for (i, b) in payload[2..].iter().enumerate() {
                    self.memory[page | ((start + i) & 0xff)] = *b;
                }
                Event::Completed
            }
            Action::Probe { device } => {
                self.seen.push(Seen::Probe { device: *device });
                if self.refuse_probes > 0 {
                    self.refuse_probes -= 1;
                    Event::Failed(1)
                } else {
                    Event::Completed
                }
            }
            Action::DelayUs { us } => {
                self.seen.push(Seen::DelayUs(*us));
                Event::Completed
            }
            Action::DelayMs { ms } => {
                self.seen.push(Seen::DelayMs(*ms));
                Event::Completed
            }
        }
    }

    fn read(&mut self, dev: &At24Cx<(), ()>, offset: u32, len: usize) -> Result<Vec<u8>, Error<u8>> {
        let r = dev.read::<u8>(offset, len)?;
        let start = Chip::cell(r.device, r.address[0], r.address[1]);
        Ok((0..r.length).map(|i| self.memory[(start + i) % 131072]).collect())
    }

    fn writes(&self) -> Vec<Seen> {
        self.seen.iter().filter(|s| matches!(s, Seen::Write { .. })).cloned().collect()
    }
}

fn device() -> At24Cx<(), ()> {
    At24Cx::new((), Address(0, 0), 17, ())
}

fn run(dev: &At24Cx<(), ()>, chip: &mut Chip, offset: u32, bytes: &[u8]) -> Result<(), Error<u8>> {
    let mut step = dev.write::<u8>(offset, bytes);
    loop {
        match step {
            Step::Done(r) => return r,
            Step::Issue { state, action } => {
                let event = chip.perform(&action);
                step = dev.write_next(state, event, bytes);
            }
        }
    }
}

fn pattern(len: usize) -> Vec<u8> {
    (0..len).map(|i| (i * 7 + 3) as u8).collect()
}

#[test]
fn three_hundred_bytes_from_two_hundred() {
    let dev = device();
    let mut chip = Chip::new();
    let bytes = pattern(300);
    assert!(matches!(run(&dev, &mut chip, 200, &bytes), Ok(())));
    assert_eq!(
        chip.seen,
        vec![
            Seen::Write { device: 0x50, offset: 200, len: 56 },
            Seen::Probe { device: 0x50 },
            Seen::Write { device: 0x50, offset: 256, len: 244 },
            Seen::Probe { device: 0x50 },
        ]
    );
    assert_eq!(chip.read(&dev, 200, 300).unwrap(), bytes);
    assert_eq!(chip.memory[199], 0xff);
    assert_eq!(chip.memory[500], 0xff);
}

#[test]
fn three_hundred_bytes_with_a_fixed_pause() {
    let dev = device().with_completion(Completion::FixedDelay { delay_ms: 5 });
    let mut chip = Chip::new();
    let bytes = pattern(300);
    assert!(matches!(run(&dev, &mut chip, 200, &bytes), Ok(())));
    assert_eq!(
        chip.seen,
        vec![
            Seen::Write { device: 0x50, offset: 200, len: 56 },
            Seen::DelayMs(5),
            Seen::Write { device: 0x50, offset: 256, len: 244 },
            Seen::DelayMs(5),
        ]
    );
    assert_eq!(chip.read(&dev, 200, 300).unwrap(), bytes);
}

#[test]
fn first_step_carries_the_first_chunk() {
    let dev = device();
    let bytes = pattern(300);
    match dev.write::<u8>(200, &bytes) {
        Step::Issue { state, action } => {
            assert_eq!(
                state,
                WriteState { offset: 200, length: 300, done: 0, phase: Phase::Writing }
            );
            let mut payload = vec![0x00, 0xc8];
            payload.extend_from_slice(&bytes[..56]);
            assert_eq!(action, Action::Write { device: 0x50, payload });
        }
        Step::Done(r) => panic!("ended with {:?}", r),
    }
}

#[test]
fn steps_of_one_chunk_with_one_refusal() {
    let dev = device();
    let bytes = [1u8, 2, 3];
    let writing = WriteState { offset: 0x1_0010, length: 3, done: 0, phase: Phase::Writing };
    let probing = |attempt| WriteState { phase: Phase::Probing { attempt }, ..writing };
    match dev.write_next::<u8>(writing, Event::Completed, &bytes) {
        Step::Issue { state, action } => {
            assert_eq!(state, probing(0));
            assert_eq!(action, Action::Probe { device: 0x51 });
        }
        Step::Done(r) => panic!("ended with {:?}", r),
    }
    match dev.write_next::<u8>(probing(0), Event::Failed(9), &bytes) {
        Step::Issue { state, action } => {
            assert_eq!(state, WriteState { phase: Phase::Backoff { attempt: 0 }, ..writing });
            assert_eq!(action, Action::DelayUs { us: 100 });
        }
        Step::Done(r) => panic!("ended with {:?}", r),
    }
    let paused = WriteState { phase: Phase::Backoff { attempt: 0 }, ..writing };
    match dev.write_next::<u8>(paused, Event::Completed, &bytes) {
        Step::Issue { state, action } => {
            assert_eq!(state, probing(1));
            assert_eq!(action, Action::Probe { device: 0x51 });
        }
        Step::Done(r) => panic!("ended with {:?}", r),
    }
    assert!(matches!(
        dev.write_next::<u8>(probing(1), Event::Completed, &bytes),
        Step::Done(Ok(()))
    ));
    let last = WriteState { phase: Phase::Backoff { attempt: 59 }, ..writing };
    assert!(matches!(
        dev.write_next::<u8>(last, Event::Completed, &bytes),
        Step::Done(Err(Error::WriteAckTimeout))
    ));
}

#[test]
fn next_chunk_follows_an_acknowledged_probe() {
    let dev = device();
    let bytes = pattern(300);
    let probing =
        WriteState { offset: 200, length: 300, done: 0, phase: Phase::Probing { attempt: 4 } };
    match dev.write_next::<u8>(probing, Event::Completed, &bytes) {
        Step::Issue { state, action } => {
            assert_eq!(
                state,
                WriteState { offset: 200, length: 300, done: 56, phase: Phase::Writing }
            );
            let mut payload = vec![0x01, 0x00];
            payload.extend_from_slice(&bytes[56..]);
            assert_eq!(action, Action::Write { device: 0x50, payload });
        }
        Step::Done(r) => panic!("ended with {:?}", r),
    }
}

#[test]
fn empty_write_issues_nothing() {
    let dev = device();
    let mut chip = Chip::new();
    assert!(matches!(dev.write::<u8>(0, &[]), Step::Done(Ok(()))));
    assert!(matches!(dev.write::<u8>(131072, &[]), Step::Done(Ok(()))));
    assert!(matches!(run(&dev, &mut chip, 77, &[]), Ok(())));
    assert!(chip.seen.is_empty());
}

#[test]
fn write_outside_the_device_issues_nothing() {
    let dev = device();
    let mut chip = Chip::new();
    assert!(matches!(run(&dev, &mut chip, 131072, &[1]), Err(Error::OutOfBounds)));
    assert!(matches!(run(&dev, &mut chip, 131000, &[0u8; 73]), Err(Error::OutOfBounds)));
    assert!(matches!(run(&dev, &mut chip, 131073, &[]), Err(Error::OutOfBounds)));
    assert!(matches!(run(&dev, &mut chip, u32::MAX, &[1, 2]), Err(Error::OutOfBounds)));
    assert!(chip.seen.is_empty());
    assert!(chip.memory.iter().all(|b| *b == 0xff));
}

#[test]
fn read_outside_the_device_touches_nothing() {
    let dev = device();
    let mut chip = Chip::new();
    assert!(matches!(chip.read(&dev, 131072, 4), Err(Error::OutOfBounds)));
    assert!(matches!(chip.read(&dev, 131070, 3), Err(Error::OutOfBounds)));
    assert!(chip.seen.is_empty());
}

#[test]
fn write_up_to_the_last_cell() {
    let dev = device();
    let mut chip = Chip::new();
    let bytes = pattern(72);
    assert!(matches!(run(&dev, &mut chip, 131000, &bytes), Ok(())));
    assert_eq!(
        chip.seen,
        vec![Seen::Write { device: 0x51, offset: 131000, len: 72 }, Seen::Probe { device: 0x51 }]
    );
    assert_eq!(chip.read(&dev, 131000, 72).unwrap(), bytes);
}

#[test]
fn round_trip_within_a_page() {
    let dev = device();
    for (offset, len) in [(0u32, 1usize), (0, 256), (255, 1), (256, 256), (65535, 1), (65536, 200), (0x1_ff80, 128), (1000, 24)] {
        let mut chip = Chip::new();
        let bytes = pattern(len);
        assert!(matches!(run(&dev, &mut chip, offset, &bytes), Ok(())));
        assert_eq!(chip.writes().len(), 1);
        assert_eq!(chip.read(&dev, offset, len).unwrap(), bytes);
    }
}

#[test]
fn chunks_are_the_pages_touched() {
    let dev = device();
    for (offset, len, pages) in [
        (0u32, 256usize, 1usize),
        (0, 257, 2),
        (1, 256, 2),
        (255, 2, 2),
        (255, 258, 3),
        (256, 512, 2),
        (200, 300, 2),
        (65500, 1000, 5),
        (0, 131072, 512),
    ] {
        let mut chip = Chip::new();
        let bytes = pattern(len);
        assert!(matches!(run(&dev, &mut chip, offset, &bytes), Ok(())));
        let writes = chip.writes();
        assert_eq!(writes.len(), pages);
        let mut at = offset;
        for w in &writes {
            match w {
                Seen::Write { device, offset, len } => {
                    assert_eq!(*offset, at);
                    assert!(*len > 0);
                    assert_eq!(*offset / 256, (*offset + *len as u32 - 1) / 256);
                    assert_eq!(*device, 0x50 | (*offset >> 16) as u8);
                    at += *len as u32;
                }
                other => panic!("not a write: {:?}", other),
            }
        }
        assert_eq!(at, offset + len as u32);
        assert_eq!(chip.read(&dev, offset, len).unwrap(), bytes);
    }
}

#[test]
fn every_write_is_followed_by_its_wait() {
    let dev = device();
    let mut chip = Chip::new();
    chip.refuse_probes = 3;
    let bytes = pattern(600);
    assert!(matches!(run(&dev, &mut chip, 100, &bytes), Ok(())));
    assert_eq!(
        chip.seen,
        vec![
            Seen::Write { device: 0x50, offset: 100, len: 156 },
            Seen::Probe { device: 0x50 },
            Seen::DelayUs(100),
            Seen::Probe { device: 0x50 },
            Seen::DelayUs(100),
            Seen::Probe { device: 0x50 },
            Seen::DelayUs(100),
            Seen::Probe { device: 0x50 },
            Seen::Write { device: 0x50, offset: 256, len: 256 },
            Seen::Probe { device: 0x50 },
            Seen::Write { device: 0x50, offset: 512, len: 188 },
            Seen::Probe { device: 0x50 },
        ]
    );
}

#[test]
fn a_chip_that_never_acknowledges_times_out() {
    let dev = device();
    let mut chip = Chip::new();
    chip.refuse_probes = usize::MAX;
    let bytes = pattern(300);
    assert!(matches!(run(&dev, &mut chip, 200, &bytes), Err(Error::WriteAckTimeout)));
    assert_eq!(chip.seen.len(), 1 + 60 + 60);
    assert_eq!(chip.seen[0], Seen::Write { device: 0x50, offset: 200, len: 56 });
    for i in 0..60 {
        assert_eq!(chip.seen[1 + 2 * i], Seen::Probe { device: 0x50 });
        assert_eq!(chip.seen[2 + 2 * i], Seen::DelayUs(100));
    }
    assert_eq!(chip.writes().len(), 1);
}

#[test]
fn the_last_probe_of_the_budget_may_still_succeed() {
    let dev = device();
    let mut chip = Chip::new();
    chip.refuse_probes = 59;
    assert!(matches!(run(&dev, &mut chip, 0, &[5]), Ok(())));
    assert_eq!(chip.seen.len(), 1 + 59 * 2 + 1);
    let mut chip = Chip::new();
    chip.refuse_probes = 60;
    assert!(matches!(run(&dev, &mut chip, 0, &[5]), Err(Error::WriteAckTimeout)));
    assert_eq!(chip.seen.len(), 1 + 60 * 2);
}

#[test]
fn a_budget_of_two() {
    let dev = device().with_completion(Completion::AckPolling { max_retries: 2, delay_us: 250 });
    let mut chip = Chip::new();
    chip.refuse_probes = usize::MAX;
    assert!(matches!(run(&dev, &mut chip, 0x1_0000, &[5, 6]), Err(Error::WriteAckTimeout)));
    assert_eq!(
        chip.seen,
        vec![
            Seen::Write { device: 0x51, offset: 0x1_0000, len: 2 },
            Seen::Probe { device: 0x51 },
            Seen::DelayUs(250),
            Seen::Probe { device: 0x51 },
            Seen::DelayUs(250),
        ]
    );
}

#[test]
fn a_budget_of_nothing_times_out_at_once() {
    let dev = device().with_completion(Completion::AckPolling { max_retries: 0, delay_us: 100 });
    let mut chip = Chip::new();
    assert!(matches!(run(&dev, &mut chip, 0, &[5, 6]), Err(Error::WriteAckTimeout)));
    assert_eq!(chip.seen, vec![Seen::Write { device: 0x50, offset: 0, len: 2 }]);
}

#[test]
fn a_failed_page_write_ends_the_request() {
    let dev = device();
    let mut chip = Chip::new();
    chip.accept_writes = 1;
    let bytes = pattern(600);
    assert!(matches!(run(&dev, &mut chip, 100, &bytes), Err(Error::I2cError(7))));
    assert_eq!(
        chip.seen,
        vec![
            Seen::Write { device: 0x50, offset: 100, len: 156 },
            Seen::Probe { device: 0x50 },
            Seen::Write { device: 0x50, offset: 256, len: 256 },
        ]
    );
    assert_eq!(chip.read(&dev, 100, 156).unwrap(), &bytes[..156]);
    assert_eq!(chip.memory[256], 0xff);
}

#[test]
fn a_write_across_the_banks_changes_the_bus_address() {
    let dev = device();
    let mut chip = Chip::new();
    let bytes = pattern(20);
    assert!(matches!(run(&dev, &mut chip, 65526, &bytes), Ok(())));
    assert_eq!(
        chip.seen,
        vec![
            Seen::Write { device: 0x50, offset: 65526, len: 10 },
            Seen::Probe { device: 0x50 },
            Seen::Write { device: 0x51, offset: 65536, len: 10 },
            Seen::Probe { device: 0x51 },
        ]
    );
    assert_eq!(&chip.memory[65526..65546], &bytes[..]);
}

#[test]
fn only_the_progress_of_the_same_request_is_accepted() {
    let dev = device();
    let bytes = [1u8, 2, 3];
    let good = WriteState { offset: 10, length: 3, done: 2, phase: Phase::Probing { attempt: 59 } };
    assert!(dev.accepts(&good, &bytes));
    assert!(dev.accepts(&WriteState { phase: Phase::Writing, ..good }, &bytes));
    assert!(dev.accepts(&WriteState { phase: Phase::Backoff { attempt: 0 }, ..good }, &bytes));
    assert!(!dev.accepts(&good, &bytes[..2]));
    assert!(!dev.accepts(&WriteState { done: 3, ..good }, &bytes));
    assert!(!dev.accepts(&WriteState { offset: 131070, ..good }, &bytes));
    assert!(!dev.accepts(&WriteState { phase: Phase::Probing { attempt: 60 }, ..good }, &bytes));
    assert!(!dev.accepts(&WriteState { phase: Phase::Settling, ..good }, &bytes));
    let slow = device().with_completion(Completion::conservative());
    assert!(slow.accepts(&WriteState { phase: Phase::Settling, ..good }, &bytes));
    assert!(!slow.accepts(&good, &bytes));
}
