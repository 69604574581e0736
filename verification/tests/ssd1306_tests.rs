use myosa::ssd1306::{
    Adafruit_SSD1306, DelayProvider, GpioOp, GpioPin, I2cBus, SpiBus, SpiOp, WireOp, BLACK, INVERSE, SSD1306_SWITCHCAPVCC,
    WHITE,
};

use std::cell::RefCell;
use std::rc::Rc;

/// What the I2C bus saw: each transmission's address and bytes.
#[derive(Default)]
struct WireLog {
    sent: Vec<(u8, Vec<u8>)>,
    clocks: Vec<u32>,
    began: bool,
}

/// An I2C bus that records into a shared log.
#[derive(Default)]
struct Wire {
    log: Rc<RefCell<WireLog>>,
}

impl I2cBus for Wire {
    fn ops(&self) -> vstd::seq::Seq<WireOp> {
        unreachable!()
    }

    fn begin(&mut self) {
        self.log.borrow_mut().began = true;
    }

    fn begin_transmission(&mut self, addr: u8) {
        self.log.borrow_mut().sent.push((addr, Vec::new()));
    }

    fn write_byte(&mut self, data: u8) {
        self.log.borrow_mut().sent.last_mut().unwrap().1.push(data);
    }

    fn end_transmission(&mut self) {}

    fn set_clock(&mut self, freq: u32) {
        self.log.borrow_mut().clocks.push(freq);
    }
}

/// An SPI bus that records the bytes transferred.
#[derive(Default)]
struct Spi {
    bytes: Vec<u8>,
}

impl SpiBus for Spi {
    fn ops(&self) -> vstd::seq::Seq<SpiOp> {
        unreachable!()
    }

    fn begin(&mut self) {}

    fn transfer(&mut self, data: u8) -> u8 {
        self.bytes.push(data);
        0
    }

    fn begin_transaction(&mut self) {}

    fn end_transaction(&mut self) {}
}

#[derive(Default)]
struct Pins {
    writes: Vec<(i8, bool)>,
}

impl GpioPin for Pins {
    fn ops(&self) -> vstd::seq::Seq<GpioOp> {
        unreachable!()
    }

    fn pin_mode_output(&mut self, _pin: i8) {}

    fn digital_write(&mut self, pin: i8, value: bool) {
        self.writes.push((pin, value));
    }
}

#[derive(Default)]
struct Clock {
    waited: Vec<u32>,
}

impl DelayProvider for Clock {
    fn waits(&self) -> vstd::seq::Seq<u32> {
        unreachable!()
    }

    fn delay_ms(&mut self, ms: u32) {
        self.waited.push(ms);
    }
}

fn display() -> (Adafruit_SSD1306<Wire, Spi, Pins, Clock>, Rc<RefCell<WireLog>>) {
    let wire = Wire::default();
    let log = wire.log.clone();
    let mut d = Adafruit_SSD1306::new_i2c(128, 64, wire, Pins::default(), Clock::default(), -1, 400000, 100000);
    assert!(d.begin(SSD1306_SWITCHCAPVCC, 0x3C, true, true));
    (d, log)
}

#[test]
fn begin_sends_the_init_sequence() {
    let (_d, log) = display();
    let w = log.borrow();
    assert!(w.began);
    let mut cmds = Vec::new();
    for (addr, bytes) in &w.sent {
        assert_eq!(*addr, 0x3C);
        assert_eq!(bytes[0], 0x00);
        cmds.extend_from_slice(&bytes[1..]);
    }
    let expect = vec![
        0xAE, 0xD5, 0x80, 0xA8, 0x3F, 0xD3, 0x00, 0x40, 0x8D, 0x14, 0x20, 0x00, 0xA1, 0xC8, 0xDA, 0x12, 0x81, 0xCF,
        0xD9, 0xF1, 0xDB, 0x40, 0xA4, 0xA6, 0x2E, 0xAF,
    ];
    assert_eq!(cmds, expect);
}

#[test]
fn pixels_land_in_pages() {
    let (mut d, _log) = display();
    d.clear_display();
    assert!(d.get_buffer().iter().all(|b| *b == 0));
    d.draw_pixel(0, 0, WHITE);
    d.draw_pixel(1, 9, WHITE);
    assert_eq!(d.get_buffer()[0], 0x01);
    assert_eq!(d.get_buffer()[129], 0x02);
    assert!(d.get_pixel(1, 9));
    assert!(!d.get_pixel(2, 9));
    d.draw_pixel(1, 9, INVERSE);
    assert!(!d.get_pixel(1, 9));
    d.draw_pixel(200, 9, WHITE);
    assert_eq!(d.get_buffer().iter().filter(|b| **b != 0).count(), 1);
}

#[test]
fn fast_lines_fill_bits() {
    let (mut d, _log) = display();
    d.clear_display();
    d.draw_fast_h_line(0, 2, 3, WHITE);
    assert_eq!(&d.get_buffer()[0..4], &[0x04, 0x04, 0x04, 0x00]);
    d.draw_fast_v_line(5, 0, 16, WHITE);
    assert_eq!(d.get_buffer()[5], 0xFF);
    assert_eq!(d.get_buffer()[133], 0xFF);
    assert_eq!(d.get_buffer()[261], 0x00);
    d.draw_fast_v_line(6, 3, 2, WHITE);
    assert_eq!(d.get_buffer()[6], 0x18);
}

#[test]
fn single_commands_are_framed() {
    let (mut d, log) = display();
    let n = log.borrow().sent.len();
    d.ssd1306_command(0xA7);
    d.invert_display(false);
    let w = log.borrow();
    assert_eq!(w.sent[n], (0x3C, vec![0x00, 0xA7]));
    assert_eq!(w.sent[n + 1], (0x3C, vec![0x00, 0xA6]));
}

#[test]
fn display_sends_the_whole_frame() {
    let (mut d, log) = display();
    d.clear_display();
    d.draw_pixel(0, 0, WHITE);
    let n = log.borrow().sent.len();
    d.display();
    let w = log.borrow();
    let mut data = Vec::new();
    for (_, bytes) in &w.sent[n..] {
        if bytes[0] == 0x40 {
            data.extend_from_slice(&bytes[1..]);
        }
    }
    assert_eq!(data.len(), 1024);
    assert_eq!(data[0], 0x01);
    assert!(data[1..].iter().all(|b| *b == 0));
}

#[test]
fn vertical_line_touches_only_its_run() {
    let (mut d, _log) = display();
    d.clear_display();
    d.draw_fast_h_line(0, 5, 128, WHITE);
    d.draw_fast_h_line(0, 12, 128, WHITE);
    let before = d.get_buffer().to_vec();
    d.draw_fast_v_line(7, 3, 10, INVERSE);
    let after = d.get_buffer().to_vec();
    for i in 0..before.len() {
        for k in 0..8 {
            let row = (i / 128) * 8 + k;
            let changed = ((before[i] ^ after[i]) >> k) & 1 == 1;
            assert_eq!(changed, i % 128 == 7 && (3..13).contains(&row), "byte {} bit {}", i, k);
        }
    }
    // A short run near the bottom stays within the last page.
    d.clear_display();
    d.draw_fast_v_line(0, 58, 6, WHITE);
    assert_eq!(d.get_buffer()[7 * 128], 0xFC);
}

#[test]
fn inverse_twice_and_read_back() {
    let (mut d, _log) = display();
    d.clear_display();
    d.draw_pixel(3, 5, WHITE);
    let before = d.get_buffer().to_vec();
    d.draw_pixel(10, 20, INVERSE);
    d.draw_pixel(10, 20, INVERSE);
    assert_eq!(d.get_buffer().to_vec(), before);
    d.draw_pixel(10, 20, WHITE);
    assert!(d.get_pixel(10, 20));
    d.draw_pixel(10, 20, BLACK);
    assert!(!d.get_pixel(10, 20));
    assert!(!d.get_pixel(-1, 20));
}
