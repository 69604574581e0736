use myosa::mpu6050_min::{AccelRange, BusOp, I2CBus, MPU6050Minimal};
use myosa::si7021_min::{crc8, SI7021Minimal};
use myosa::vibration::{interval_due, level_from_score, level_label, probe_due, split_epoch, vibe_packet, EpochClock, VibePacket};
use std::collections::BTreeMap;

/// Devices on a bus, each a register file selected by the first byte
/// written; absent addresses do not acknowledge.
struct Bus {
    devices: BTreeMap<u8, [u8; 256]>,
    replies: BTreeMap<u8, Vec<u8>>,
    addr: u8,
    tx: Vec<u8>,
    ptr: u8,
    queue: Vec<u8>,
    writes: Vec<(u8, u8, u8)>,
    short: bool,
}

impl Bus {
    fn new(addrs: &[u8]) -> Self {
        let mut devices = BTreeMap::new();
        for a in addrs {
            let mut regs = [0u8; 256];
            regs[0x75] = 0x68;
            devices.insert(*a, regs);
        }
        Bus {
            devices,
            replies: BTreeMap::new(),
            addr: 0,
            tx: Vec::new(),
            ptr: 0,
            queue: Vec::new(),
            writes: Vec::new(),
            short: false,
        }
    }
}

impl I2CBus for Bus {
    fn ops(&self) -> vstd::seq::Seq<BusOp> {
        unreachable!()
    }

    fn pending(&self) -> usize {
        unreachable!()
    }

    fn begin_transmission(&mut self, addr: u8) {
        self.addr = addr;
        self.tx.clear();
    }

    fn write_byte(&mut self, val: u8) {
        self.tx.push(val);
    }

    fn end_transmission(&mut self, _send_stop: bool) -> u8 {
        let addr = self.addr;
        match self.devices.get_mut(&addr) {
            None => 2,
            Some(regs) => {
                if let Some((first, rest)) = self.tx.split_first() {
                    self.ptr = *first;
                    for (i, b) in rest.iter().enumerate() {
                        regs[*first as usize + i] = *b;
                        self.writes.push((addr, *first + i as u8, *b));
                    }
                }
                0
            },
        }
    }

    fn request_from(&mut self, addr: u8, len: usize) -> usize {
        if let Some(r) = self.replies.get(&self.ptr) {
            self.queue = r.iter().rev().cloned().collect();
            return if self.short { len - 1 } else { len };
        }
        match self.devices.get(&addr) {
            None => 0,
            Some(regs) => {
                self.queue = (0..len).map(|i| regs[self.ptr as usize + i]).rev().collect();
                if self.short { len - 1 } else { len }
            },
        }
    }

    fn read_byte(&mut self) -> u8 {
        self.queue.pop().unwrap_or(0xFF)
    }

    fn available(&self) -> usize {
        self.queue.len()
    }
}

#[test]
fn begin_finds_the_documented_address_first() {
    let mut bus = Bus::new(&[0x68, 0x69]);
    let mut m = MPU6050Minimal::new();
    assert!(m.begin(&mut bus, -1, 500, AccelRange::Range4G, 1));
    assert!(m.is_connected());
    assert_eq!(m.address(), 0x69);
    assert_eq!(m.accel_lsb_per_g(), 8192);
    assert_eq!(
        bus.writes,
        vec![(0x69, 0x6B, 0x01), (0x69, 0x1A, 0x01), (0x69, 0x1B, 0x00), (0x69, 0x1C, 0x08), (0x69, 0x19, 0x01)]
    );
}

#[test]
fn begin_falls_back_to_the_other_address() {
    let mut bus = Bus::new(&[0x68]);
    let mut m = MPU6050Minimal::new();
    assert!(m.begin(&mut bus, -1, 100, AccelRange::Range16G, 3));
    assert_eq!(m.address(), 0x68);
    assert_eq!(m.accel_lsb_per_g(), 2048);
    assert_eq!(bus.writes.last(), Some(&(0x68, 0x19, 9)));
}

#[test]
fn begin_fails_without_a_chip() {
    let mut bus = Bus::new(&[]);
    let mut m = MPU6050Minimal::new();
    assert!(!m.begin(&mut bus, -1, 100, AccelRange::Range2G, 1));
    assert!(!m.is_connected());
    assert_eq!(m.address(), 0x68);
    assert_eq!(m.accel_lsb_per_g(), 16384);
    let mut forced = MPU6050Minimal::new();
    assert!(!forced.begin(&mut bus, 0x33, 100, AccelRange::Range2G, 1));
    assert_eq!(forced.address(), 0x33);
}

#[test]
fn sample_rate_and_filter_are_held_in_range() {
    let mut bus = Bus::new(&[0x68]);
    let mut m = MPU6050Minimal::new();
    assert!(m.begin(&mut bus, 0x68, 5, AccelRange::Range8G, 7));
    assert_eq!(bus.writes[1], (0x68, 0x1A, 1));
    assert_eq!(bus.writes[4], (0x68, 0x19, 99));
    assert_eq!(m.accel_lsb_per_g(), 4096);
    let mut bus2 = Bus::new(&[0x68]);
    let mut m2 = MPU6050Minimal::new();
    assert!(m2.begin(&mut bus2, 0x68, 5000, AccelRange::Range2G, 0x0B));
    assert_eq!(bus2.writes[1], (0x68, 0x1A, 3));
    assert_eq!(bus2.writes[4], (0x68, 0x19, 0));
}

#[test]
fn raw_readings_are_signed_big_endian() {
    let mut bus = Bus::new(&[0x68]);
    {
        let regs = bus.devices.get_mut(&0x68).unwrap();
        regs[0x3B..0x41].copy_from_slice(&[0x40, 0x00, 0xC0, 0x00, 0x00, 0x10]);
        regs[0x41] = 0xFE;
        regs[0x42] = 0x0C;
    }
    let mut m = MPU6050Minimal::new();
    assert!(m.begin(&mut bus, 0x68, 500, AccelRange::Range2G, 1));
    assert_eq!(m.read_accel_raw(&mut bus), Some((16384, -16384, 16)));
    assert_eq!(m.read_temperature_raw(&mut bus), Some(-500));
}

#[test]
fn short_reads_are_drained() {
    let mut bus = Bus::new(&[0x68]);
    let mut m = MPU6050Minimal::new();
    assert!(m.begin(&mut bus, 0x68, 500, AccelRange::Range2G, 1));
    bus.short = true;
    assert_eq!(m.read_accel_raw(&mut bus), None);
    assert_eq!(bus.available(), 0);
}

#[test]
fn crc_of_known_messages() {
    assert_eq!(crc8(&[]), 0);
    assert_eq!(crc8(&[0x66, 0x64]), 0x70);
    assert_eq!(crc8(&[0xBE, 0xEF]), 0x13);
    assert_eq!(crc8(&[0x66, 0x64, 0x70]), 0);
}

#[test]
fn si7021_minimal_checks_the_crc() {
    let mut bus = Bus::new(&[0x40]);
    bus.replies.insert(0xF3, vec![0x66, 0x64, 0x70]);
    let mut s = SI7021Minimal::new();
    assert!(!s.is_connected());
    assert_eq!(s.read_temperature_raw(&mut bus), None);
    assert!(s.begin(&mut bus, 0x40));
    assert!(s.is_connected());
    assert_eq!(s.read_temperature_raw(&mut bus), Some(0x6664));
    bus.replies.insert(0xF3, vec![0x66, 0x64, 0x71]);
    assert_eq!(s.read_temperature_raw(&mut bus), None);
}

#[test]
fn si7021_minimal_absent() {
    let mut bus = Bus::new(&[]);
    let mut s = SI7021Minimal::new();
    assert!(!s.begin(&mut bus, 0x40));
    assert!(!s.is_connected());
}

#[test]
fn levels_at_their_thresholds() {
    let cases = [(0, 0), (5, 0), (6, 1), (24, 1), (25, 2), (79, 2), (80, 3), (149, 3), (150, 4), (1000, 4)];
    for (score, level) in cases {
        assert_eq!(level_from_score(score), level);
    }
    assert_eq!(level_label(0), "Still");
    assert_eq!(level_label(1), "Light");
    assert_eq!(level_label(2), "Caution");
    assert_eq!(level_label(3), "Partial");
    assert_eq!(level_label(4), "Severe");
    assert_eq!(level_label(200), "Severe");
}

#[test]
fn wrapping_schedule() {
    assert!(interval_due(1000, 0, 500));
    assert!(!interval_due(499, 0, 500));
    // Across the wrap of the timer.
    assert!(interval_due(100, u32::MAX - 400, 500));
    assert!(!interval_due(100, u32::MAX - 300, 500));
    // A timer that ran backwards by less than half its range is not due.
    assert!(!interval_due(0, 10, 5));
    assert!(probe_due(2000, 0));
    assert!(!probe_due(1999, 0));
    assert!(probe_due(5, 10));
}

#[test]
fn epoch_clock_and_timestamp() {
    let mut c = EpochClock::new();
    assert_eq!(c.epoch_ms_or_zero(1234), 0);
    c.set_epoch_ms(1_700_000_000_123, 1000);
    assert_eq!(c.epoch_ms_or_zero(1500), 1_700_000_000_623);
    c.set_epoch_ms(5_000, u32::MAX - 99);
    assert_eq!(c.epoch_ms_or_zero(100), 5_200);
    assert_eq!(split_epoch(1_700_000_000_623), (1_700_000_000, 623));
    assert_eq!(split_epoch(999), (0, 999));
    assert_eq!(split_epoch(5_000_000_000_000), ((5_000_000_000u64 % (1u64 << 32)) as u32, 0));
}

#[test]
fn packets_clamp_and_mark_missing() {
    let p = vibe_packet(7, 8, Some((1234, 70000, 40, 2)), Some(2150));
    assert_eq!(
        p,
        VibePacket { t_s: 7, t_ms: 8, rms_mg: 1234, peak_mg: 65534, shake_score: 40, temp_c_x100: 2150, level: 2 }
    );
    let p = vibe_packet(0, 0, Some((-3, 5, 0, 0)), Some(-40000));
    assert_eq!((p.rms_mg, p.peak_mg, p.temp_c_x100), (0, 5, -32767));
    let p = vibe_packet(1, 2, None, None);
    assert_eq!((p.rms_mg, p.peak_mg, p.shake_score, p.level, p.temp_c_x100), (65535, 65535, 65535, 0, -32768));
}

#[test]
fn packet_bytes_are_little_endian() {
    let p = VibePacket {
        t_s: 0x0102_0304,
        t_ms: 0x0506,
        rms_mg: 0x0708,
        peak_mg: 0x090A,
        shake_score: 0x0B0C,
        temp_c_x100: -2,
        level: 3,
    };
    assert_eq!(
        p.to_bytes(),
        vec![0x04, 0x03, 0x02, 0x01, 0x06, 0x05, 0x08, 0x07, 0x0A, 0x09, 0x0C, 0x0B, 0xFE, 0xFF, 3]
    );
}
