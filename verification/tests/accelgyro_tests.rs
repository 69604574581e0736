use myosa::accelgyro::{AccelAndGyro, AgOp, DelayMs, I2CBus};
use std::cell::RefCell;
use std::rc::Rc;

/// An MPU6050 register file at one address; reads auto-increment.
struct Chip {
    addr: u8,
    regs: Rc<RefCell<[u8; 256]>>,
    tx: Vec<u8>,
    to: u8,
    ptr: u8,
    queue: Vec<u8>,
    writes: Rc<RefCell<Vec<(u8, u8)>>>,
}

impl Chip {
    fn new(addr: u8) -> Self {
        let mut regs = [0u8; 256];
        regs[0x75] = 0x68;
        Chip {
            addr,
            regs: Rc::new(RefCell::new(regs)),
            tx: Vec::new(),
            to: 0,
            ptr: 0,
            queue: Vec::new(),
            writes: Rc::new(RefCell::new(Vec::new())),
        }
    }
}

impl I2CBus for Chip {
    fn ops(&self) -> vstd::seq::Seq<AgOp> {
        unreachable!()
    }

    fn pending(&self) -> u8 {
        unreachable!()
    }

    fn begin_transmission(&mut self, address: u8) {
        self.to = address;
        self.tx.clear();
    }

    fn write_byte(&mut self, data: u8) {
        self.tx.push(data);
    }

    fn end_transmission(&mut self) -> u8 {
        if self.to != self.addr {
            return 2;
        }
        if let Some((first, rest)) = self.tx.split_first() {
            self.ptr = *first;
            for (i, b) in rest.iter().enumerate() {
                self.regs.borrow_mut()[*first as usize + i] = *b;
                self.writes.borrow_mut().push((*first + i as u8, *b));
            }
        }
        0
    }

    fn request_from(&mut self, _address: u8, count: u8) {
        let regs = self.regs.borrow();
        self.queue = (0..count as usize).map(|i| regs[self.ptr as usize + i]).rev().collect();
    }

    fn read_byte(&mut self) -> u8 {
        self.queue.pop().unwrap_or(0xFF)
    }

    fn available(&self) -> u8 {
        self.queue.len() as u8
    }
}

struct NoDelay;

impl DelayMs for NoDelay {
    fn waits(&self) -> vstd::seq::Seq<u16> {
        unreachable!()
    }

    fn delay_ms(&mut self, _ms: u16) {}
}

#[test]
fn begin_configures_the_chip() {
    let chip = Chip::new(0x69);
    let regs = chip.regs.clone();
    regs.borrow_mut()[0x6B] = 0x40;
    let writes = chip.writes.clone();
    let mut s = AccelAndGyro::new(chip, NoDelay, None);
    assert!(s.begin());
    let r = regs.borrow();
    assert_eq!(r[0x6B], 0x01);
    assert_eq!(r[0x1B] & 0x18, 0);
    assert_eq!(r[0x1C] & 0x18, 0);
    assert_eq!(r[0x38], 0x40);
    assert_eq!((r[0x1F], r[0x21], r[0x20], r[0x22]), (2, 2, 40, 1));
    assert_eq!(writes.borrow().len(), 10);
}

#[test]
fn begin_stops_at_the_first_failure() {
    let chip = Chip::new(0x68);
    let writes = chip.writes.clone();
    let mut s = AccelAndGyro::new(chip, NoDelay, None);
    assert!(!s.begin());
    assert!(writes.borrow().is_empty());
    assert!(!s.ping());
}

#[test]
fn ping_configures_a_new_chip() {
    let chip = Chip::new(0x68);
    let writes = chip.writes.clone();
    let mut s = AccelAndGyro::new(chip, NoDelay, Some(0x68));
    assert!(s.ping());
    assert_eq!(writes.borrow().len(), 10);
    assert!(s.ping());
    assert_eq!(writes.borrow().len(), 10);
}

#[test]
fn ranges_round_trip() {
    let mut s = AccelAndGyro::new(Chip::new(0x69), NoDelay, None);
    assert!(s.set_full_scale_gyro_range(3));
    assert_eq!(s.get_full_scale_gyro_range(), 3);
    assert!(s.set_full_scale_accel_range(2));
    assert_eq!(s.get_full_scale_accel_range(), 2);
    assert!(s.set_clk_source(5));
    assert_eq!(s.get_clk_source(), 5);
    assert!(s.set_wake_frequency(3));
    assert_eq!(s.get_wake_frequency(), 3);
    let mut absent = AccelAndGyro::new(Chip::new(0x68), NoDelay, None);
    assert_eq!(absent.get_full_scale_gyro_range(), 0x0F);
    assert_eq!(absent.get_clk_source(), 0);
}

#[test]
fn flags_round_trip() {
    let mut s = AccelAndGyro::new(Chip::new(0x69), NoDelay, None);
    assert!(s.set_sleep(true));
    assert!(s.get_sleep_sts());
    assert!(s.set_cycle_mode(true));
    assert!(s.get_cycle_mode());
    assert!(s.set_sleep(false));
    assert!(!s.get_sleep_sts());
    assert!(s.get_cycle_mode());
    assert!(s.set_temp_sensor_disable(true));
    assert!(s.get_temp_sensor_disable_sts());
    assert!(s.set_standby_y_gyro(true));
    assert!(s.get_standby_y_gyro_sts());
    assert!(!s.get_standby_x_gyro_sts());
    assert!(s.set_int_zero_motion_enabled(true));
    assert!(s.get_int_zero_motion_enabled());
    assert!(!s.get_int_motion_enabled());
}

#[test]
fn thresholds_and_durations() {
    let mut s = AccelAndGyro::new(Chip::new(0x69), NoDelay, None);
    assert!(s.set_motion_detection_threshold(9));
    assert!(s.set_motion_detection_duration(8));
    assert!(s.set_zero_motion_detection_threshold(7));
    assert!(s.set_zero_motion_detection_duration(6));
    assert_eq!(s.get_motion_detection_threshold(), 9);
    assert_eq!(s.get_motion_detection_duration(), 8);
    assert_eq!(s.get_zero_motion_detection_threshold(), 7);
    assert_eq!(s.get_zero_motion_detection_duration(), 6);
}

#[test]
fn path_resets_write_power_management() {
    let chip = Chip::new(0x69);
    let regs = chip.regs.clone();
    regs.borrow_mut()[0x68] = 0x10;
    let writes = chip.writes.clone();
    let mut s = AccelAndGyro::new(chip, NoDelay, None);
    assert!(s.reset_gyro_path());
    assert_eq!(writes.borrow().last(), Some(&(0x6B, 0x14)));
    assert!(s.reset());
    assert_eq!(regs.borrow()[0x6B], 0x94);
}

#[test]
fn raw_readings() {
    let chip = Chip::new(0x69);
    let regs = chip.regs.clone();
    {
        let mut r = regs.borrow_mut();
        r[0x3B..0x41].copy_from_slice(&[0x40, 0x00, 0xFF, 0xFF, 0x00, 0x01]);
        r[0x41..0x43].copy_from_slice(&[0xFE, 0x0C]);
        r[0x43..0x49].copy_from_slice(&[0x00, 0x10, 0x80, 0x00, 0x7F, 0xFF]);
        r[0x1C] = 0x10;
        r[0x3A] = 0x40;
    }
    let mut s = AccelAndGyro::new(chip, NoDelay, None);
    assert_eq!(s.read_accel_raw(), Some((16384, -1, 1)));
    assert_eq!(s.read_gyro_raw(), Some((16, -32768, 32767)));
    assert_eq!(s.read_temperature_raw(), Some(-500));
    assert_eq!(s.read_axis_sample(0x3B, false), (16384, 2));
    assert_eq!(s.read_axis_sample(0x43, true), (16, 0));
    assert!(s.get_int_motion_status());
    assert!(!s.get_int_zero_motion_status());
    assert_eq!(s.get_device_id(), 0x68);
}
