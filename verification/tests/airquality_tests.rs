use myosa::airquality::{
    AirQuality, AqOp, CCS811_STATUS_t, DelayMs, I2CBus, PrintOut, Printer, CCS811_ERROR_ID_REG_t,
    CCS811_MEAS_MODE_REG_t, CCS811_STATUS_REG_t,
};
use std::cell::RefCell;
use std::rc::Rc;

/// A CCS811 register file: the first byte written selects a register and
/// the rest are kept as the last write.
struct Chip {
    regs: Vec<Vec<u8>>,
    tx: Vec<u8>,
    ptr: u8,
    queue: Vec<u8>,
    nack: bool,
    writes: Rc<RefCell<Vec<Vec<u8>>>>,
}

impl Chip {
    fn new() -> Self {
        let mut regs = vec![vec![0u8; 8]; 256];
        regs[0x20][0] = 0x81;
        regs[0x00][0] = 0x10;
        Chip { regs, tx: Vec::new(), ptr: 0, queue: Vec::new(), nack: false, writes: Rc::new(RefCell::new(Vec::new())) }
    }
}

impl I2CBus for Chip {
    fn ops(&self) -> vstd::seq::Seq<AqOp> {
        unreachable!()
    }

    fn pending(&self) -> u8 {
        unreachable!()
    }

    fn begin_transmission(&mut self, address: u8) {
        assert_eq!(address, 0x5A);
        self.tx.clear();
    }

    fn write_byte(&mut self, data: u8) {
        self.tx.push(data);
    }

    fn end_transmission(&mut self) -> u8 {
        if self.nack {
            return 1;
        }
        if let Some((first, rest)) = self.tx.split_first() {
            self.ptr = *first;
            if !rest.is_empty() {
                self.regs[*first as usize][..rest.len()].copy_from_slice(rest);
            }
            self.writes.borrow_mut().push(self.tx.clone());
            if *first == 0xF4 {
                self.regs[0x00][0] |= 0x80;
            }
        }
        0
    }

    fn request_from(&mut self, _address: u8, quantity: u8, _stop: u8) {
        self.queue = self.regs[self.ptr as usize][..quantity as usize].iter().rev().cloned().collect();
    }

    fn read_byte(&mut self) -> u8 {
        self.queue.pop().unwrap_or(0xFF)
    }

    fn available(&self) -> u8 {
        self.queue.len() as u8
    }
}

#[derive(Default)]
struct Clock {
    waited: Rc<RefCell<Vec<u16>>>,
}

impl DelayMs for Clock {
    fn waits(&self) -> vstd::seq::Seq<u16> {
        unreachable!()
    }

    fn delay_ms(&mut self, ms: u16) {
        self.waited.borrow_mut().push(ms);
    }
}

#[derive(Default)]
struct Out {
    text: Rc<RefCell<String>>,
}

impl Printer for Out {
    fn printed(&self) -> vstd::seq::Seq<PrintOut> {
        unreachable!()
    }

    fn print_str(&mut self, s: &str) {
        self.text.borrow_mut().push_str(s);
    }

    fn print_u16(&mut self, val: u16) {
        self.text.borrow_mut().push_str(&val.to_string());
    }

    fn println_str(&mut self, s: &str) {
        self.text.borrow_mut().push_str(s);
        self.text.borrow_mut().push('\n');
    }
}

#[test]
fn begin_brings_the_chip_up() {
    let chip = Chip::new();
    let writes = chip.writes.clone();
    let clock = Clock::default();
    let waited = clock.waited.clone();
    let mut a = AirQuality::new(chip, clock, Out::default(), None);
    assert_eq!(a.begin(), CCS811_STATUS_t::SENSOR_SUCCESS);
    assert_eq!(*waited.borrow(), vec![100, 100]);
    let w = writes.borrow();
    assert_eq!(w[0], vec![0xFF, 0x11, 0xE5, 0x72, 0x8A]);
    assert!(w.contains(&vec![0xF4]));
    assert_eq!(w.last().unwrap(), &vec![0x01, 0x10]);
    assert!(a.ping());
}

#[test]
fn begin_reports_each_failure() {
    let mut c = Chip::new();
    c.regs[0x20][0] = 0x80;
    let mut a = AirQuality::new(c, Clock::default(), Out::default(), None);
    assert_eq!(a.begin(), CCS811_STATUS_t::SENSOR_ID_ERROR);
    let mut c2 = Chip::new();
    c2.regs[0x00][0] = 0x00;
    let mut b = AirQuality::new(c2, Clock::default(), Out::default(), None);
    assert_eq!(b.begin(), CCS811_STATUS_t::SENSOR_INTERNAL_ERROR);
    let mut c3 = Chip::new();
    c3.nack = true;
    let mut d = AirQuality::new(c3, Clock::default(), Out::default(), None);
    assert_eq!(d.begin(), CCS811_STATUS_t::SENSOR_I2C_ERROR);
    assert!(!d.ping());
}

#[test]
fn algorithm_results_are_big_endian() {
    let mut c = Chip::new();
    c.regs[0x02][..4].copy_from_slice(&[0x01, 0x90, 0x00, 0x2A]);
    let out = Out::default();
    let text = out.text.clone();
    let mut a = AirQuality::new(c, Clock::default(), out, None);
    assert_eq!(a.read_algorithm_results(), CCS811_STATUS_t::SENSOR_SUCCESS);
    assert_eq!(a.get_co2(false), 400);
    assert_eq!(a.get_tvoc(true), 42);
    assert_eq!(a.get_co2(true), 400);
    assert_eq!(*text.borrow(), "TVOC: 42ppb\neCO2: 400ppm\n");
}

#[test]
fn baseline_bytes() {
    let c = Chip::new();
    let writes = c.writes.clone();
    let mut a = AirQuality::new(c, Clock::default(), Out::default(), None);
    assert_eq!(a.set_base_line(0x1234), CCS811_STATUS_t::SENSOR_SUCCESS);
    assert_eq!(writes.borrow().last().unwrap(), &vec![0x11, 0x12, 0x34]);
    assert_eq!(a.get_base_line(), 0x1234);
    assert_eq!(a.write_environment_codes(0x6400, 0x6400), CCS811_STATUS_t::SENSOR_SUCCESS);
    assert_eq!(writes.borrow().last().unwrap(), &vec![0x05, 0x64, 0x00, 0x64, 0x00]);
}

#[test]
fn interrupt_and_drive_bits() {
    let mut c = Chip::new();
    c.regs[0x01][0] = 0x70;
    let mut a = AirQuality::new(c, Clock::default(), Out::default(), None);
    assert_eq!(a.enable_data_interrupt(), CCS811_STATUS_t::SENSOR_SUCCESS);
    let mut m = CCS811_MEAS_MODE_REG_t::new();
    assert_eq!(a.get_meas_mode_reg(&mut m), CCS811_STATUS_t::SENSOR_SUCCESS);
    assert!(m.int_datardy && !m.int_thresh);
    assert_eq!(m.drive_mode, 7);
    assert_eq!(a.set_drive_mode(2), CCS811_STATUS_t::SENSOR_SUCCESS);
    assert_eq!(a.enable_thresh_interrupt(), CCS811_STATUS_t::SENSOR_SUCCESS);
    assert_eq!(a.disable_data_interrupt(), CCS811_STATUS_t::SENSOR_SUCCESS);
    assert_eq!(a.get_meas_mode_reg(&mut m), CCS811_STATUS_t::SENSOR_SUCCESS);
    assert_eq!(m, CCS811_MEAS_MODE_REG_t { int_thresh: true, int_datardy: false, drive_mode: 2 });
    assert_eq!(a.disable_thresh_interrupt(), CCS811_STATUS_t::SENSOR_SUCCESS);
    assert_eq!(a.get_meas_mode_reg(&mut m), CCS811_STATUS_t::SENSOR_SUCCESS);
    assert!(!m.int_thresh);
}

#[test]
fn register_decoders() {
    let s = CCS811_STATUS_REG_t::from_byte(0x99);
    assert!(s.error && s.data_ready && s.app_valid && s.fw_mode);
    let e = CCS811_ERROR_ID_REG_t::from_byte(0x21);
    assert!(e.write_reg_invalid && e.heater_supply && !e.heater_fault && !e.read_reg_invalid);
    let m = CCS811_MEAS_MODE_REG_t::from_byte(0x1C);
    assert_eq!(m, CCS811_MEAS_MODE_REG_t { int_thresh: true, int_datardy: true, drive_mode: 1 });
    assert_eq!(CCS811_STATUS_t::SENSOR_ID_ERROR.name(), "SENSOR_ID_ERROR");
}

#[test]
fn status_and_errors() {
    let mut c = Chip::new();
    c.regs[0x00][0] = 0x08;
    c.regs[0xE0][0] = 0x08;
    let mut a = AirQuality::new(c, Clock::default(), Out::default(), None);
    assert!(a.is_data_available());
    let mut e = CCS811_ERROR_ID_REG_t::new();
    assert_eq!(a.get_error_id_reg(&mut e), CCS811_STATUS_t::SENSOR_SUCCESS);
    assert!(e.max_resistance);
    let mut st = CCS811_STATUS_REG_t::new();
    assert_eq!(a.get_status_reg_out(&mut st), CCS811_STATUS_t::SENSOR_SUCCESS);
    assert!(st.data_ready && !st.app_valid);
}

#[test]
fn version_texts() {
    let mut c = Chip::new();
    c.regs[0x21][0] = 0x12;
    c.regs[0x23][..2].copy_from_slice(&[0x10, 0x00]);
    c.regs[0x24][..2].copy_from_slice(&[0xF9, 0xC8]);
    let mut a = AirQuality::new(c, Clock::default(), Out::default(), None);
    assert_eq!(a.get_hw_version(), Some(*b"1.2\0\0\0\0\0\0\0"));
    assert_eq!(a.get_fw_boot_version(), Some(*b"1.0.0\0\0\0\0\0"));
    assert_eq!(a.get_fw_app_version(), Some(*b"15.9.200\0\0"));
}

#[test]
fn ntc_voltages() {
    let mut c = Chip::new();
    c.regs[0x06][..4].copy_from_slice(&[0x03, 0xE8, 0x01, 0xF4]);
    let mut a = AirQuality::new(c, Clock::default(), Out::default(), None);
    assert_eq!(a.read_ntc_voltages(), CCS811_STATUS_t::SENSOR_SUCCESS);
    assert_eq!(a.get_v_ref(), 1000);
    assert_eq!(a.get_v_ntc(), 500);
    assert_eq!(a.get_hw_id(), 0x81);
}
