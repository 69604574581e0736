use myosa::si7021::{DelayMs, I2CBus, I2cOp, TempAndHumidity, UserReg};
use std::cell::RefCell;
use std::rc::Rc;

/// An Si7021 that answers each command with a fixed reply.
struct Chip {
    replies: Vec<(Vec<u8>, Vec<u8>)>,
    tx: Vec<u8>,
    last: Vec<u8>,
    queue: Vec<u8>,
    nack: bool,
}

impl Chip {
    fn new(replies: Vec<(Vec<u8>, Vec<u8>)>) -> Self {
        Chip { replies, tx: Vec::new(), last: Vec::new(), queue: Vec::new(), nack: false }
    }
}

impl I2CBus for Chip {
    fn ops(&self) -> vstd::seq::Seq<I2cOp> {
        unreachable!()
    }

    fn pending(&self) -> u8 {
        unreachable!()
    }

    fn begin_transmission(&mut self, address: u8) {
        assert_eq!(address, 0x40);
        self.tx.clear();
    }

    fn write_byte(&mut self, data: u8) {
        self.tx.push(data);
    }

    fn write_bytes(&mut self, data: &[u8]) {
        self.tx.extend_from_slice(data);
    }

    fn end_transmission(&mut self) -> u8 {
        if self.nack {
            return 2;
        }
        if !self.tx.is_empty() {
            self.last = self.tx.clone();
        }
        0
    }

    fn request_from(&mut self, _address: u8, quantity: u8) -> u8 {
        let reply = self.replies.iter().find(|(c, _)| *c == self.last).map(|(_, r)| r.clone()).unwrap_or_default();
        self.queue = reply.into_iter().rev().collect();
        quantity
    }

    fn read_byte(&mut self) -> u8 {
        self.queue.pop().unwrap_or(0xFF)
    }

    fn available(&self) -> u8 {
        self.queue.len() as u8
    }
}

#[derive(Default)]
struct Clock {
    waited: Rc<RefCell<Vec<u16>>>,
}

impl DelayMs for Clock {
    fn waits(&self) -> vstd::seq::Seq<u16> {
        unreachable!()
    }

    fn delay_ms(&mut self, ms: u16) {
        self.waited.borrow_mut().push(ms);
    }
}

#[test]
fn user_register_unpacks_and_packs() {
    let r = UserReg::from_u8(0x3A);
    assert!(!r.res0);
    assert!(r.rsvd0);
    assert!(!r.htre);
    assert_eq!(r.rsvd1, 0x07);
    assert!(!r.vdds);
    assert!(!r.res1);
    assert_eq!(r.to_u8(), 0x3A);
    for v in 0..=255u8 {
        assert_eq!(UserReg::from_u8(v).to_u8(), v);
    }
}

#[test]
fn user_register_keeps_three_reserved_bits() {
    let r = UserReg { res0: true, rsvd0: false, htre: true, rsvd1: 0xFF, vdds: true, res1: false };
    assert_eq!(r.to_u8(), 0x7D);
    let back = UserReg::from_u8(r.to_u8());
    assert_eq!(back.rsvd1, 0x07);
    assert!(back.res0 && back.htre && back.vdds && !back.res1 && !back.rsvd0);
    let d = UserReg::default();
    assert_eq!(d.to_u8(), 0);
}

#[test]
fn serial_number_from_both_reads() {
    let chip = Chip::new(vec![
        (vec![0xFA, 0x0F], vec![0x11, 0, 0x22, 0, 0x33, 0, 0x44, 0]),
        (vec![0xFC, 0xC9], vec![0x55, 0, 0x66, 0, 0x77, 0, 0x88, 0]),
    ]);
    let mut s = TempAndHumidity::new(chip, Clock::default());
    assert_eq!(s.get_serial_number(), 0x1122_3344_5566_7788);
}

#[test]
fn serial_number_half_missing() {
    let chip = Chip::new(vec![(vec![0xFA, 0x0F], vec![0x11, 0, 0x22, 0, 0x33, 0, 0x44, 0])]);
    let mut s = TempAndHumidity::new(chip, Clock::default());
    assert_eq!(s.get_serial_number(), 0x1122_3344_0000_0000);
}

#[test]
fn firmware_versions() {
    let mut a = TempAndHumidity::new(Chip::new(vec![(vec![0x84, 0xB8], vec![0x20])]), Clock::default());
    assert_eq!(a.get_firmware_version(), "2.0");
    let mut b = TempAndHumidity::new(Chip::new(vec![(vec![0x84, 0xB8], vec![0xFF])]), Clock::default());
    assert_eq!(b.get_firmware_version(), "1.0");
    let mut c = TempAndHumidity::new(Chip::new(vec![(vec![0x84, 0xB8], vec![0x12])]), Clock::default());
    assert_eq!(c.get_firmware_version(), "Unknown");
    let mut n = Chip::new(vec![]);
    n.nack = true;
    let mut d = TempAndHumidity::new(n, Clock::default());
    assert_eq!(d.get_firmware_version(), "Unknown");
}

#[test]
fn measurement_codes() {
    let chip = Chip::new(vec![(vec![0xF5], vec![0x66, 0x64, 0x00]), (vec![0xF3], vec![0x68, 0x00, 0x00])]);
    let clock = Clock::default();
    let waited = clock.waited.clone();
    let mut s = TempAndHumidity::new(chip, clock);
    assert_eq!(s.read_humidity_code(), Some(0x6664));
    assert_eq!(s.read_temperature_code(), Some(0x6800));
    assert_eq!(*waited.borrow(), vec![25, 25]);
}

#[test]
fn measurement_fails_without_reply() {
    let mut s = TempAndHumidity::new(Chip::new(vec![]), Clock::default());
    assert_eq!(s.read_humidity_code(), None);
    let mut n = Chip::new(vec![]);
    n.nack = true;
    let clock = Clock::default();
    let waited = clock.waited.clone();
    let mut t = TempAndHumidity::new(n, clock);
    assert_eq!(t.read_temperature_code(), None);
    assert!(waited.borrow().is_empty());
}

#[test]
fn begin_waits_after_reset() {
    let clock = Clock::default();
    let waited = clock.waited.clone();
    let mut s = TempAndHumidity::new(Chip::new(vec![]), clock);
    assert!(s.begin());
    assert_eq!(*waited.borrow(), vec![15]);
    assert!(s.ping());
    let mut n = Chip::new(vec![]);
    n.nack = true;
    let mut t = TempAndHumidity::new(n, Clock::default());
    assert!(!t.begin());
    assert!(!t.ping());
}
