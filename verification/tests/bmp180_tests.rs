use myosa::bmp180::{
    compensate_pressure, compute_b5, BarometricPressure, Bmp180AccuracyMode, Bmp180CalibCoeff, DelayMs, I2CBus, I2cOp,
};

/// The calibration of the datasheet's worked example.
fn datasheet() -> Bmp180CalibCoeff {
    Bmp180CalibCoeff {
        _AC1: 408,
        _AC2: -72,
        _AC3: -14383,
        _AC4: 32741,
        _AC5: 32757,
        _AC6: 23153,
        _B1: 6190,
        _B2: 4,
        _MB: -32768,
        _MC: -8711,
        _MD: 2868,
    }
}

#[test]
fn b5_of_the_datasheet_example() {
    // The datasheet rounds X2 down to -2344; integer division truncates
    // it to -2343, so B5 is 2400 and the temperature still 150 (15.0 C).
    assert_eq!(compute_b5(&datasheet(), 27898), Some(2400));
}

#[test]
fn pressure_of_the_datasheet_example() {
    assert_eq!(compensate_pressure(&datasheet(), 0, 27898, 23843), Some(69964));
}

#[test]
fn zero_coefficients_cannot_compensate() {
    let c = Bmp180CalibCoeff::new();
    assert_eq!(compensate_pressure(&c, 0, 27898, 23843), None);
}

/// A BMP180: registers, where a measurement command loads the result
/// registers with the raw temperature or pressure.
struct Chip {
    regs: [u8; 256],
    tx: Vec<u8>,
    ptr: u8,
    queue: Vec<u8>,
    ut: u16,
    up: u32,
}

impl Chip {
    fn new() -> Self {
        let mut regs = [0u8; 256];
        regs[0xD0] = 0x55;
        let c = datasheet();
        let words: [u16; 11] = [
            c._AC1 as u16,
            c._AC2 as u16,
            c._AC3 as u16,
            c._AC4,
            c._AC5,
            c._AC6,
            c._B1 as u16,
            c._B2 as u16,
            c._MB as u16,
            c._MC as u16,
            c._MD as u16,
        ];
        for (i, w) in words.iter().enumerate() {
            regs[0xAA + 2 * i] = (w >> 8) as u8;
            regs[0xAB + 2 * i] = (w & 0xFF) as u8;
        }
        Chip { regs, tx: Vec::new(), ptr: 0, queue: Vec::new(), ut: 27898, up: 23843 }
    }
}

impl I2CBus for Chip {
    fn ops(&self) -> vstd::seq::Seq<I2cOp> {
        unreachable!()
    }

    fn pending(&self) -> u8 {
        unreachable!()
    }

    fn begin_transmission(&mut self, address: u8) {
        assert_eq!(address, 0x77);
        self.tx.clear();
    }

    fn write_byte(&mut self, data: u8) {
        self.tx.push(data);
    }

    fn write_bytes(&mut self, data: &[u8]) {
        self.tx.extend_from_slice(data);
    }

    fn end_transmission(&mut self) -> u8 {
        if self.tx.len() == 2 && self.tx[0] == 0xF4 {
            if self.tx[1] == 0x2E {
                self.regs[0xF6] = (self.ut >> 8) as u8;
                self.regs[0xF7] = (self.ut & 0xFF) as u8;
            } else {
                let oss = self.tx[1] >> 6;
                let v = self.up << (8 - oss);
                self.regs[0xF6] = (v >> 16) as u8;
                self.regs[0xF7] = (v >> 8) as u8;
                self.regs[0xF8] = v as u8;
            }
        }
        if let Some(first) = self.tx.first() {
            self.ptr = *first;
        }
        0
    }

    fn request_from(&mut self, _address: u8, quantity: u8) -> u8 {
        self.queue = (0..quantity as usize).map(|i| self.regs[self.ptr as usize + i]).rev().collect();
        quantity
    }

    fn read_byte(&mut self) -> u8 {
        self.queue.pop().unwrap_or(0xFF)
    }

    fn available(&self) -> u8 {
        self.queue.len() as u8
    }
}

struct NoDelay;

impl DelayMs for NoDelay {
    fn waits(&self) -> vstd::seq::Seq<u16> {
        unreachable!()
    }

    fn delay_ms(&mut self, _ms: u16) {}
}

#[test]
fn measures_the_datasheet_pressure() {
    let mut b = BarometricPressure::new(Chip::new(), NoDelay, Bmp180AccuracyMode::ULTRA_LOW_POWER);
    assert!(b.begin());
    assert_eq!(b.get_device_id(), 0x55);
    assert_eq!(b.get_pressure(), 69964);
}

#[test]
fn begin_rejects_another_chip() {
    let mut c = Chip::new();
    c.regs[0xD0] = 0x60;
    let mut b = BarometricPressure::new(c, NoDelay, Bmp180AccuracyMode::STANDARD);
    assert!(!b.begin());
    assert_eq!(b.get_device_id(), 255);
}
