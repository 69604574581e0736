use myosa::apds9960::{DelayMs, I2CBus, I2cOp, LightProximityAndGesture, State};

/// A register file behind an I2C bus: the first byte written selects a
/// register, further bytes are written from there on, and reads return
/// registers from the selected one on.
struct Regs {
    regs: [u8; 256],
    tx: Vec<u8>,
    ptr: u8,
    queue: Vec<u8>,
    nack: bool,
}

impl Regs {
    fn new() -> Self {
        let mut regs = [0u8; 256];
        regs[0x92] = 0xAB;
        Regs { regs, tx: Vec::new(), ptr: 0, queue: Vec::new(), nack: false }
    }
}

impl I2CBus for Regs {
    fn ops(&self) -> vstd::seq::Seq<I2cOp> {
        unreachable!()
    }

    fn pending(&self) -> u8 {
        unreachable!()
    }

    fn begin_transmission(&mut self, _address: u8) {
        self.tx.clear();
    }

    fn write_byte(&mut self, data: u8) {
        self.tx.push(data);
    }

    fn write_bytes(&mut self, data: &[u8]) {
        self.tx.extend_from_slice(data);
    }

    fn end_transmission(&mut self) -> u8 {
        if self.nack {
            return 2;
        }
        if let Some((first, rest)) = self.tx.split_first() {
            self.ptr = *first;
            for (i, b) in rest.iter().enumerate() {
                self.regs[(*first as usize + i) & 0xFF] = *b;
            }
        }
        0
    }

    fn request_from(&mut self, _address: u8, quantity: u8) -> u8 {
        self.queue = (0..quantity as usize).map(|i| self.regs[(self.ptr as usize + i) & 0xFF]).rev().collect();
        quantity
    }

    fn read_byte(&mut self) -> u8 {
        self.queue.pop().unwrap_or(0xFF)
    }

    fn available(&self) -> u8 {
        self.queue.len() as u8
    }
}

struct NoDelay;

impl DelayMs for NoDelay {
    fn waits(&self) -> vstd::seq::Seq<u16> {
        unreachable!()
    }

    fn delay_ms(&mut self, _ms: u16) {}
}

#[test]
fn begin_accepts_a_known_id() {
    let mut s = LightProximityAndGesture::new(Regs::new(), NoDelay);
    assert!(s.begin());
    assert_eq!(s.get_device_id(), 0xAB);
}

#[test]
fn begin_rejects_an_unknown_id() {
    let mut r = Regs::new();
    r.regs[0x92] = 0x12;
    let mut s = LightProximityAndGesture::new(r, NoDelay);
    assert!(!s.begin());
}

#[test]
fn begin_fails_without_the_chip() {
    let mut r = Regs::new();
    r.nack = true;
    let mut s = LightProximityAndGesture::new(r, NoDelay);
    assert!(!s.begin());
}

#[test]
fn light_words_are_little_endian() {
    let mut r = Regs::new();
    r.regs[0x94] = 0x34;
    r.regs[0x95] = 0x12;
    r.regs[0x96] = 0x01;
    r.regs[0x97] = 0x02;
    r.regs[0x98] = 0x03;
    r.regs[0x99] = 0x04;
    r.regs[0x9A] = 0x05;
    r.regs[0x9B] = 0x06;
    let mut s = LightProximityAndGesture::new(r, NoDelay);
    assert_eq!(s.get_ambient_light(), 0x1234);
    assert_eq!(s.get_red_proportion(), 0x0201);
    assert_eq!(s.get_green_proportion(), 0x0403);
    assert_eq!(s.get_blue_proportion(), 0x0605);
    let c = s.get_rgb_proportion();
    assert_eq!((c.red, c.green, c.blue), (0x0201, 0x0403, 0x0605));
}

#[test]
fn unreadable_light_is_zero() {
    let mut r = Regs::new();
    r.regs[0x94] = 0x34;
    r.nack = true;
    let mut s = LightProximityAndGesture::new(r, NoDelay);
    assert_eq!(s.get_ambient_light(), 0);
}

#[test]
fn proximity_gain_field_round_trips() {
    let mut s = LightProximityAndGesture::new(Regs::new(), NoDelay);
    assert!(s.set_proximity_gain(2));
    assert_eq!(s.get_proximity_gain(), 2);
    assert!(s.set_ambient_light_gain(3));
    assert_eq!(s.get_ambient_light_gain(), 3);
    assert_eq!(s.get_proximity_gain(), 2);
    assert!(s.set_led_drive(1));
    assert_eq!(s.get_led_drive(), 1);
}

#[test]
fn proximity_reading() {
    let mut r = Regs::new();
    r.regs[0x9C] = 77;
    let mut s = LightProximityAndGesture::new(r, NoDelay);
    let mut v = 0u8;
    assert!(s.read_proximity(&mut v));
    assert_eq!(v, 77);
}

#[test]
fn no_gesture_without_valid_data() {
    let mut s = LightProximityAndGesture::new(Regs::new(), NoDelay);
    assert_eq!(s.get_gesture(), "NONE");
}

#[test]
fn thresholds_round_trip() {
    let mut s = LightProximityAndGesture::new(Regs::new(), NoDelay);
    assert!(s.set_light_int_low_threshold(0x1234));
    let mut t = 0u16;
    assert!(s.get_light_int_low_threshold(&mut t));
    assert_eq!(t, 0x1234);
    assert!(s.set_proximity_int_high_threshold(200));
    let mut p = 0u8;
    assert!(s.get_proximity_int_high_threshold(&mut p));
    assert_eq!(p, 200);
}

#[test]
fn gesture_sensing_powers_off_first() {
    let mut r = Regs::new();
    r.regs[0x80] = 0x30;
    let mut s = LightProximityAndGesture::new(r, NoDelay);
    assert!(s.enable_gesture_sensor(State::DISABLE));
    // ENABLE went to 0, then PON, PEN, WEN and GEN were set.
    assert_eq!(s.get_mode(), 0x4D);
}

struct CountDelay(std::rc::Rc<std::cell::RefCell<Vec<u16>>>);

impl DelayMs for CountDelay {
    fn waits(&self) -> vstd::seq::Seq<u16> {
        unreachable!()
    }

    fn delay_ms(&mut self, ms: u16) {
        self.0.borrow_mut().push(ms);
    }
}

#[test]
fn gesture_times_out_when_the_fifo_stays_empty() {
    let mut r = Regs::new();
    r.regs[0xAF] = 0x01; // GSTATUS: data valid
    r.regs[0x80] = 0x45; // ENABLE: power and gesture on
    r.regs[0xAE] = 0x00; // GFLVL: nothing queued
    let waits = std::rc::Rc::new(std::cell::RefCell::new(Vec::new()));
    let mut s = LightProximityAndGesture::new(r, CountDelay(waits.clone()));
    assert_eq!(s.get_gesture(), "TIMEOUT");
    assert_eq!(*waits.borrow(), vec![30u16; 11]);
}
