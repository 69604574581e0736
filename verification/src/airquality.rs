//! Driver for the CCS811 air-quality sensor on I2C.
//!
//! Every exchange with the chip is recorded in a ghost log of transactions
//! (`AqTxn`); the contracts say which transactions each call makes and how
//! its result and the driver's state follow from what the chip answered.
//! The thermistor and environment conversions are floating point and are
//! left to callers, who get the raw voltages and hand in raw codes.
use vstd::prelude::*;

verus! {

pub const CCS811_HW_ID: u8 = 0x81;
pub const CCS811_I2C_ADDRESS1: u8 = 0x5B;
/// The address the driver talks to.
pub const CCS811_I2C_ADDRESS: u8 = 0x5A;

pub const CCS811_STATUS_REG: u8 = 0x00;
pub const CCS811_MEAS_MODE_REG: u8 = 0x01;
pub const CCS811_ALG_RESULT_DATA_REG: u8 = 0x02;
pub const CCS811_RAW_DATA_REG: u8 = 0x03;
pub const CCS811_ENV_DATA_REG: u8 = 0x05;
pub const CCS811_NTC_REG: u8 = 0x06;
pub const CCS811_THRESHOLDS_REG: u8 = 0x10;
pub const CCS811_BASELINE_REG: u8 = 0x11;
pub const CCS811_HW_ID_REG: u8 = 0x20;
pub const CCS811_HW_VER_REG: u8 = 0x21;
pub const CCS811_FW_BOOT_VER_REG: u8 = 0x23;
pub const CCS811_FW_APP_VER_REG: u8 = 0x24;
pub const CCS811_ERROR_ID_REG: u8 = 0xE0;
pub const CCS811_SOFT_RESET_REG: u8 = 0xFF;
pub const CCS811_APP_START_REG: u8 = 0xF4;

pub const CCS811_DRIVE_MODE_MSK: u8 = 0x70;
pub const CCS811_INT_DATARDY_MSK: u8 = 0x08;
pub const CCS811_INT_THRESH_MSK: u8 = 0x04;
pub const CCS811_DRIVE_MODE_POS: u8 = 0x04;

pub const CCS811_DRIVE_MODE0: u8 = 0x00;
pub const CCS811_DRIVE_MODE1: u8 = 0x01;
pub const CCS811_DRIVE_MODE2: u8 = 0x02;
pub const CCS811_DRIVE_MODE3: u8 = 0x03;
pub const CCS811_DRIVE_MODE4: u8 = 0x04;

/// The wait after the reset and after starting the application, in ms.
pub const CCS811_START_DELAY: u16 = 100;

/// The outcome of an operation on the sensor.
#[derive(Debug, Clone, Copy, PartialEq, Eq, Structural)]
pub enum CCS811_STATUS_t {
    SENSOR_SUCCESS,
    SENSOR_ID_ERROR,
    SENSOR_I2C_ERROR,
    SENSOR_INTERNAL_ERROR,
    SENSOR_GENERIC_ERROR,
}

impl CCS811_STATUS_t {
    /// The status's name.
    pub fn name(&self) -> (r: &'static str)
        ensures
            r@ == status_name(*self),
    {
        match self {
            CCS811_STATUS_t::SENSOR_SUCCESS => "SENSOR_SUCCESS",
            CCS811_STATUS_t::SENSOR_ID_ERROR => "SENSOR_ID_ERROR",
            CCS811_STATUS_t::SENSOR_I2C_ERROR => "SENSOR_I2C_ERROR",
            CCS811_STATUS_t::SENSOR_INTERNAL_ERROR => "SENSOR_INTERNAL_ERROR",
            CCS811_STATUS_t::SENSOR_GENERIC_ERROR => "SENSOR_GENERIC_ERROR",
        }
    }
}

pub open spec fn status_name(s: CCS811_STATUS_t) -> Seq<char> {
    match s {
        CCS811_STATUS_t::SENSOR_SUCCESS => "SENSOR_SUCCESS"@,
        CCS811_STATUS_t::SENSOR_ID_ERROR => "SENSOR_ID_ERROR"@,
        CCS811_STATUS_t::SENSOR_I2C_ERROR => "SENSOR_I2C_ERROR"@,
        CCS811_STATUS_t::SENSOR_INTERNAL_ERROR => "SENSOR_INTERNAL_ERROR"@,
        CCS811_STATUS_t::SENSOR_GENERIC_ERROR => "SENSOR_GENERIC_ERROR"@,
    }
}

/// The status register's flags.
#[derive(Debug, Clone, Copy, PartialEq, Eq, Structural)]
pub struct CCS811_STATUS_REG_t {
    pub error: bool,
    pub data_ready: bool,
    pub app_valid: bool,
    pub fw_mode: bool,
}

impl CCS811_STATUS_REG_t {
    /// All flags clear.
    pub fn new() -> (r: Self)
        ensures
            r == (CCS811_STATUS_REG_t { error: false, data_ready: false, app_valid: false, fw_mode: false }),
    {
        CCS811_STATUS_REG_t { error: false, data_ready: false, app_valid: false, fw_mode: false }
    }

    /// The flags of the register byte `val`: bits 0, 3, 4 and 7.
    pub fn from_byte(val: u8) -> (r: Self)
        ensures
            r == status_of(val),
    {
        CCS811_STATUS_REG_t {
            error: (val & 0x01) != 0,
            data_ready: (val & 0x08) != 0,
            app_valid: (val & 0x10) != 0,
            fw_mode: (val & 0x80) != 0,
        }
    }
}

pub open spec fn status_of(val: u8) -> CCS811_STATUS_REG_t {
    CCS811_STATUS_REG_t {
        error: val & 0x01 != 0,
        data_ready: val & 0x08 != 0,
        app_valid: val & 0x10 != 0,
        fw_mode: val & 0x80 != 0,
    }
}

/// The measurement-mode register's fields.
#[derive(Debug, Clone, Copy, PartialEq, Eq, Structural)]
pub struct CCS811_MEAS_MODE_REG_t {
    pub int_thresh: bool,
    pub int_datardy: bool,
    pub drive_mode: u8,
}

impl CCS811_MEAS_MODE_REG_t {
    /// All fields zero.
    pub fn new() -> (r: Self)
        ensures
            r == (CCS811_MEAS_MODE_REG_t { int_thresh: false, int_datardy: false, drive_mode: 0 }),
    {
        CCS811_MEAS_MODE_REG_t { int_thresh: false, int_datardy: false, drive_mode: 0 }
    }

    /// The fields of the register byte `val`: bits 2 and 3, and the drive
    /// mode in bits 4 to 6.
    pub fn from_byte(val: u8) -> (r: Self)
        ensures
            r == meas_mode_of(val),
    {
        CCS811_MEAS_MODE_REG_t {
            int_thresh: (val & 0x04) != 0,
            int_datardy: (val & 0x08) != 0,
            drive_mode: (val >> 4u8) & 0x07,
        }
    }
}

pub open spec fn meas_mode_of(val: u8) -> CCS811_MEAS_MODE_REG_t {
    CCS811_MEAS_MODE_REG_t {
        int_thresh: val & 0x04 != 0,
        int_datardy: val & 0x08 != 0,
        drive_mode: (val >> 4u8) & 0x07,
    }
}

/// The error register's flags.
#[derive(Debug, Clone, Copy, PartialEq, Eq, Structural)]
pub struct CCS811_ERROR_ID_REG_t {
    pub write_reg_invalid: bool,
    pub read_reg_invalid: bool,
    pub measmode_invalid: bool,
    pub max_resistance: bool,
    pub heater_fault: bool,
    pub heater_supply: bool,
}

impl CCS811_ERROR_ID_REG_t {
    /// All flags clear.
    pub fn new() -> (r: Self)
        ensures
            r == error_id_of(0),
    {
        let r = CCS811_ERROR_ID_REG_t {
            write_reg_invalid: false,
            read_reg_invalid: false,
            measmode_invalid: false,
            max_resistance: false,
            heater_fault: false,
            heater_supply: false,
        };
        assert(r == error_id_of(0)) by {
            crate::bits::lemma_u8_masks();
            assert(0u8 & 0x01u8 == 0 && 0u8 & 0x02u8 == 0 && 0u8 & 0x04u8 == 0 && 0u8 & 0x08u8 == 0 && 0u8 & 0x10u8
                == 0 && 0u8 & 0x20u8 == 0);
        }
        r
    }

    /// The flags of the register byte `val`: bits 0 to 5.
    pub fn from_byte(val: u8) -> (r: Self)
        ensures
            r == error_id_of(val),
    {
        CCS811_ERROR_ID_REG_t {
            write_reg_invalid: (val & 0x01) != 0,
            read_reg_invalid: (val & 0x02) != 0,
            measmode_invalid: (val & 0x04) != 0,
            max_resistance: (val & 0x08) != 0,
            heater_fault: (val & 0x10) != 0,
            heater_supply: (val & 0x20) != 0,
        }
    }
}

pub open spec fn error_id_of(val: u8) -> CCS811_ERROR_ID_REG_t {
    CCS811_ERROR_ID_REG_t {
        write_reg_invalid: val & 0x01 != 0,
        read_reg_invalid: val & 0x02 != 0,
        measmode_invalid: val & 0x04 != 0,
        max_resistance: val & 0x08 != 0,
        heater_fault: val & 0x10 != 0,
        heater_supply: val & 0x20 != 0,
    }
}

/// One operation on this sensor's I2C bus, with what it returned.
pub enum AqOp {
    Begin(u8),
    Write(u8),
    /// The end of a transmission and its status (0 on success).
    End(u8),
    /// A request: address, count, stop flag.
    Request(u8, u8, u8),
    Read(u8),
}

/// The I2C bus. `ops` is what was done on it so far; `pending` is what
/// `available` reports now.
pub trait I2CBus {
    spec fn ops(&self) -> Seq<AqOp>;

    spec fn pending(&self) -> u8;

    fn begin_transmission(&mut self, address: u8)
        ensures
            final(self).ops() == old(self).ops().push(AqOp::Begin(address)),
    ;

    fn write_byte(&mut self, data: u8)
        ensures
            final(self).ops() == old(self).ops().push(AqOp::Write(data)),
    ;

    fn end_transmission(&mut self) -> (r: u8)
        ensures
            final(self).ops() == old(self).ops().push(AqOp::End(r)),
    ;

    fn request_from(&mut self, address: u8, quantity: u8, stop: u8)
        ensures
            final(self).ops() == old(self).ops().push(AqOp::Request(address, quantity, stop)),
    ;

    fn read_byte(&mut self) -> (r: u8)
        ensures
            final(self).ops() == old(self).ops().push(AqOp::Read(r)),
    ;

    fn available(&self) -> (r: u8)
        ensures
            r == self.pending(),
    ;
}

/// A delay provider; `waits` are the delays asked for so far, in ms.
pub trait DelayMs {
    spec fn waits(&self) -> Seq<u16>;

    fn delay_ms(&mut self, ms: u16)
        ensures
            final(self).waits() == old(self).waits().push(ms),
    ;
}

/// Something printed.
pub enum PrintOut {
    Text(Seq<char>),
    Number(u16),
    Line(Seq<char>),
}

/// Where readings are printed; `printed` is what was printed so far.
pub trait Printer {
    spec fn printed(&self) -> Seq<PrintOut>;

    fn print_str(&mut self, s: &str)
        ensures
            final(self).printed() == old(self).printed().push(PrintOut::Text(s@)),
    ;

    fn print_u16(&mut self, val: u16)
        ensures
            final(self).printed() == old(self).printed().push(PrintOut::Number(val)),
    ;

    fn println_str(&mut self, s: &str)
        ensures
            final(self).printed() == old(self).printed().push(PrintOut::Line(s@)),
    ;
}

/// One exchange with the chip, with what the bus returned.
pub enum AqTxn {
    /// The address alone, and the end status.
    Probe(u8),
    /// A write to a register: register, data bytes, end status.
    Write(u8, Seq<u8>, u8),
    /// A read of a register: register, end status, count, and the bytes
    /// when exactly that many were available.
    Read(u8, u8, u8, Option<Seq<u8>>),
}

/// The bus operations of a transaction with the chip at `a`.
pub open spec fn aq_ops(a: u8, t: AqTxn) -> Seq<AqOp> {
    match t {
        AqTxn::Probe(s) => seq![AqOp::Begin(a), AqOp::End(s)],
        AqTxn::Write(reg, d, s) => seq![AqOp::Begin(a), AqOp::Write(reg)] + d.map_values(|v: u8| AqOp::Write(v))
            + seq![AqOp::End(s)],
        AqTxn::Read(reg, s, n, b) => seq![AqOp::Begin(a), AqOp::Write(reg), AqOp::End(s)] + if s != 0 {
            seq![]
        } else {
            seq![AqOp::Request(a, n, 1)] + match b {
                Some(bs) => bs.map_values(|v: u8| AqOp::Read(v)),
                None => seq![],
            }
        },
    }
}

pub open spec fn aq_ops_all(a: u8, ts: Seq<AqTxn>) -> Seq<AqOp>
    decreases ts.len(),
{
    if ts.len() == 0 {
        seq![]
    } else {
        aq_ops_all(a, ts.drop_last()) + aq_ops(a, ts.last())
    }
}

/// `t` reads `n` bytes of register `reg`, and holds `n` bytes when it
/// holds any.
pub open spec fn reads(t: AqTxn, reg: u8, n: u8) -> bool {
    t matches AqTxn::Read(g, _, m, b) && g == reg && m == n && (b is Some ==> b->0.len() == n)
}

/// The bytes a read brought back, when it succeeded.
pub open spec fn got(t: AqTxn) -> Option<Seq<u8>> {
    match t {
        AqTxn::Read(_, s, _, b) => if s == 0 {
            b
        } else {
            None
        },
        _ => None,
    }
}

/// `t` writes `d` to register `reg`.
pub open spec fn writes(t: AqTxn, reg: u8, d: Seq<u8>) -> bool {
    t matches AqTxn::Write(g, e, _) && g == reg && e == d
}

/// Whether a write was acknowledged.
pub open spec fn written(t: AqTxn) -> bool {
    t matches AqTxn::Write(_, _, s) && s == 0
}

/// The status of a read or write.
pub open spec fn outcome(t: AqTxn) -> CCS811_STATUS_t {
    if written(t) || got(t) is Some {
        CCS811_STATUS_t::SENSOR_SUCCESS
    } else {
        CCS811_STATUS_t::SENSOR_I2C_ERROR
    }
}

/// The byte a one-byte read brought back.
pub open spec fn byte_of(t: AqTxn) -> u8 {
    got(t)->0[0]
}

/// The big-endian 16-bit value of bytes `k` and `k + 1` of a read.
pub open spec fn be16_at(t: AqTxn, k: int) -> u16 {
    (got(t)->0[k] * 256 + got(t)->0[k + 1]) as u16
}

/// A baseline saved by `set_base_line` reads back unchanged through
/// `get_base_line`: the two bytes written, read in the same order, give
/// the value again.
pub proof fn lemma_baseline_round_trip(base_line: u16)
    ensures
        ({
            let d = seq![(base_line / 256) as u8, (base_line % 256) as u8];
            (d[0] * 256 + d[1]) as u16 == base_line
        }),
{
}

/// The big-endian value of the bytes `h`, `l`.
fn be16(h: u8, l: u8) -> (r: u16)
    ensures
        r == h * 256 + l,
{
    proof {
        crate::bits::lemma_be16();
    }
    ((h as u16) << 8u16) | (l as u16)
}

/// The soft-reset key.
pub open spec fn reset_key() -> Seq<u8> {
    seq![0x11u8, 0xE5u8, 0x72u8, 0x8Au8]
}

/// The measurement-mode byte `v` with drive mode `mode`: bits 4 to 6
/// cleared, then `mode` shifted into bit 4 (its high bits fall off).
pub open spec fn with_drive_mode(v: u8, mode: u8) -> u8 {
    (v & !CCS811_DRIVE_MODE_MSK) | ((mode << CCS811_DRIVE_MODE_POS) as u8)
}

/// `t` is a read-modify-write of the measurement-mode register that
/// changes its byte by `f`: the read, and when it succeeded, the write.
pub open spec fn modified(t: Seq<AqTxn>, new_byte: spec_fn(u8) -> u8, r: CCS811_STATUS_t) -> bool {
    &&& t.len() >= 1
    &&& reads(t[0], CCS811_MEAS_MODE_REG, 1)
    &&& if got(t[0]) is None {
        t.len() == 1 && r == CCS811_STATUS_t::SENSOR_I2C_ERROR
    } else {
        t.len() == 2 && writes(t[1], CCS811_MEAS_MODE_REG, seq![new_byte(byte_of(t[0]))]) && r == outcome(t[1])
    }
}

/// The decimal digits of `v` in ASCII, without leading zeros.
pub open spec fn decimal(v: u8) -> Seq<u8> {
    if v >= 100 {
        seq![(48 + v / 100) as u8, (48 + (v / 10) % 10) as u8, (48 + v % 10) as u8]
    } else if v >= 10 {
        seq![(48 + v / 10) as u8, (48 + v % 10) as u8]
    } else {
        seq![(48 + v) as u8]
    }
}

/// A version text in a ten-byte buffer: the parts in decimal, joined by
/// dots, then a zero byte; the rest of the buffer stays zero.
pub open spec fn version_text(parts: Seq<u8>) -> Seq<u8>
    decreases parts.len(),
{
    if parts.len() == 0 {
        seq![]
    } else if parts.len() == 1 {
        decimal(parts[0])
    } else {
        version_text(parts.drop_last()) + seq![46u8] + decimal(parts.last())
    }
}

/// The firmware version text of two bytes: the first byte's nibbles, then
/// the second byte.
pub open spec fn fw_version_buffer(d: Seq<u8>) -> Seq<u8> {
    version_buffer(seq![d[0] / 16, d[0] % 16, d[1]])
}

pub open spec fn version_buffer(parts: Seq<u8>) -> Seq<u8> {
    let t = version_text(parts);
    t + Seq::new((10 - t.len()) as nat, |i: int| 0u8)
}

/// Write the decimal digits of `val` at `pos`: how many.
fn write_u8_to_buf(buf: &mut [u8; 10], pos: usize, val: u8) -> (r: usize)
    requires
        pos + 3 <= 10,
    ensures
        r == decimal(val).len(),
        final(buf)@ == old(buf)@.take(pos as int) + decimal(val) + old(buf)@.skip(pos + r),
{
    if val >= 100 {
        buf[pos] = 48 + (val / 100);
        buf[pos + 1] = 48 + ((val / 10) % 10);
        buf[pos + 2] = 48 + (val % 10);
        assert(buf@ =~= old(buf)@.take(pos as int) + decimal(val) + old(buf)@.skip(pos + 3));
        3
    } else if val >= 10 {
        buf[pos] = 48 + (val / 10);
        buf[pos + 1] = 48 + (val % 10);
        assert(buf@ =~= old(buf)@.take(pos as int) + decimal(val) + old(buf)@.skip(pos + 2));
        2
    } else {
        buf[pos] = 48 + val;
        assert(buf@ =~= old(buf)@.take(pos as int) + decimal(val) + old(buf)@.skip(pos + 1));
        1
    }
}

proof fn lemma_version_text(a: u8, b: u8, c: u8)
    ensures
        version_text(seq![a, b]) == decimal(a) + seq![46u8] + decimal(b),
        version_text(seq![a, b, c]) == decimal(a) + seq![46u8] + decimal(b) + seq![46u8] + decimal(c),
{
    assert(seq![a, b].drop_last() =~= seq![a]);
    assert(seq![a, b, c].drop_last() =~= seq![a, b]);
    assert(seq![a, b].last() == b);
    assert(seq![a, b, c].last() == c);
    assert(version_text(seq![a]) == decimal(a));
    assert(version_text(seq![a, b]) == version_text(seq![a]) + seq![46u8] + decimal(b));
    assert(version_text(seq![a, b, c]) == version_text(seq![a, b]) + seq![46u8] + decimal(c));
    assert(decimal(a) + seq![46u8] + decimal(b) + seq![46u8] + decimal(c) =~= (decimal(a) + seq![46u8] + decimal(b))
        + seq![46u8] + decimal(c));
}

/// "major.minor" in a zeroed ten-byte buffer.
fn fmt_version_2(major: u8, minor: u8) -> (r: [u8; 10])
    requires
        major < 16,
        minor < 16,
    ensures
        r@ == version_buffer(seq![major, minor]),
{
    let mut buf = [0u8; 10];
    let ghost z = buf@;
    let mut pos: usize = 0;
    pos += write_u8_to_buf(&mut buf, pos, major);
    buf[pos] = 46;
    pos += 1;
    let ghost h = decimal(major) + seq![46u8];
    assert(buf@.take(pos as int) =~= h);
    assert(buf@.skip(pos as int) =~= z.skip(pos as int));
    pos += write_u8_to_buf(&mut buf, pos, minor);
    buf[pos] = 0;
    proof {
        lemma_version_text(major, minor, 0);
        assert(buf@ =~= version_buffer(seq![major, minor]));
    }
    buf
}

/// "major.minor.patch" in a zeroed ten-byte buffer.
#[verifier::rlimit(30)]
fn fmt_version_3(major: u8, minor: u8, patch: u8) -> (r: [u8; 10])
    requires
        major < 16,
        minor < 16,
    ensures
        r@ == version_buffer(seq![major, minor, patch]),
{
    let mut buf = [0u8; 10];
    let ghost z = buf@;
    let mut pos: usize = 0;
    pos += write_u8_to_buf(&mut buf, pos, major);
    buf[pos] = 46;
    pos += 1;
    let ghost h1 = decimal(major) + seq![46u8];
    assert(buf@.take(pos as int) =~= h1);
    assert(buf@.skip(pos as int) =~= z.skip(pos as int));
    pos += write_u8_to_buf(&mut buf, pos, minor);
    buf[pos] = 46;
    pos += 1;
    let ghost h2 = h1 + decimal(minor) + seq![46u8];
    assert(buf@.take(pos as int) =~= h2);
    assert(buf@.skip(pos as int) =~= z.skip(pos as int));
    pos += write_u8_to_buf(&mut buf, pos, patch);
    buf[pos] = 0;
    proof {
        lemma_version_text(major, minor, patch);
        assert(buf@ =~= version_buffer(seq![major, minor, patch]));
    }
    buf
}

/// `t` and `w` are a run of `begin`: reset, wait, identity check, status
/// check, application start, wait, mode check and drive-mode setting,
/// stopping at the first failure with its status `r`.
pub open spec fn begin_run(t: Seq<AqTxn>, w: Seq<u16>, r: CCS811_STATUS_t) -> bool {
    &&& t.len() >= 1
    &&& writes(t[0], CCS811_SOFT_RESET_REG, reset_key())
    &&& if !written(t[0]) {
        t.len() == 1 && w.len() == 0 && r == CCS811_STATUS_t::SENSOR_I2C_ERROR
    } else {
        &&& w.len() >= 1 && w[0] == CCS811_START_DELAY
        &&& t.len() >= 2 && reads(t[1], CCS811_HW_ID_REG, 1)
        &&& if !(got(t[1]) is Some && byte_of(t[1]) == CCS811_HW_ID) {
            t.len() == 2 && w.len() == 1 && r == CCS811_STATUS_t::SENSOR_ID_ERROR
        } else {
            &&& t.len() >= 3 && reads(t[2], CCS811_STATUS_REG, 1)
            &&& if got(t[2]) is None {
                t.len() == 3 && w.len() == 1 && r == CCS811_STATUS_t::SENSOR_I2C_ERROR
            } else if !status_of(byte_of(t[2])).app_valid || status_of(byte_of(t[2])).error {
                t.len() == 3 && w.len() == 1 && r == CCS811_STATUS_t::SENSOR_INTERNAL_ERROR
            } else {
                &&& t.len() >= 4 && writes(t[3], CCS811_APP_START_REG, seq![])
                &&& if !written(t[3]) {
                    t.len() == 4 && w.len() == 1 && r == CCS811_STATUS_t::SENSOR_I2C_ERROR
                } else {
                    &&& w.len() == 2 && w[1] == CCS811_START_DELAY
                    &&& t.len() >= 5 && reads(t[4], CCS811_STATUS_REG, 1)
                    &&& if got(t[4]) is None {
                        t.len() == 5 && r == CCS811_STATUS_t::SENSOR_I2C_ERROR
                    } else if !status_of(byte_of(t[4])).fw_mode {
                        t.len() == 5 && r == CCS811_STATUS_t::SENSOR_INTERNAL_ERROR
                    } else {
                        &&& t.len() >= 6 && reads(t[5], CCS811_MEAS_MODE_REG, 1)
                        &&& if got(t[5]) is None {
                            t.len() == 6 && r == CCS811_STATUS_t::SENSOR_I2C_ERROR
                        } else {
                            &&& t.len() == 7
                            &&& writes(t[6], CCS811_MEAS_MODE_REG, seq![with_drive_mode(byte_of(t[5]), CCS811_DRIVE_MODE1)])
                            &&& r == outcome(t[6])
                        }
                    }
                }
            }
        }
    }
}

/// The status flags after a run of `begin`: from the last status read
/// that succeeded, else `old`.
pub open spec fn begin_status(t: Seq<AqTxn>, old: CCS811_STATUS_REG_t) -> CCS811_STATUS_REG_t {
    if t.len() >= 5 && got(t[4]) is Some {
        status_of(byte_of(t[4]))
    } else if t.len() >= 3 && got(t[2]) is Some {
        status_of(byte_of(t[2]))
    } else {
        old
    }
}

/// The state of a CCS811 driver.
pub struct AirQuality<I2C: I2CBus, D: DelayMs, P: Printer> {
    _t_voc: u16,
    _co2: u16,
    _v_ref: u16,
    _v_ntc: u16,
    error_id_reg: CCS811_ERROR_ID_REG_t,
    meas_mode_reg: CCS811_MEAS_MODE_REG_t,
    status_reg: CCS811_STATUS_REG_t,
    _i2c_slave_address: u8,
    _is_connected: bool,
    i2c: I2C,
    delay: D,
    printer: P,
    base: Ghost<Seq<AqOp>>,
    log: Ghost<Seq<AqTxn>>,
}

impl<I2C: I2CBus, D: DelayMs, P: Printer> AirQuality<I2C, D, P> {
    /// The transactions with the chip so far.
    pub closed spec fn txns(&self) -> Seq<AqTxn> {
        self.log@
    }

    /// The delays asked for so far.
    pub closed spec fn waits(&self) -> Seq<u16> {
        self.delay.waits()
    }

    /// What was printed so far.
    pub closed spec fn printed(&self) -> Seq<PrintOut> {
        self.printer.printed()
    }

    /// What was on the bus before the driver took it.
    pub closed spec fn bus_before(&self) -> Seq<AqOp> {
        self.base@
    }

    /// Whether the chip counts as connected.
    pub closed spec fn connected(&self) -> bool {
        self._is_connected
    }

    /// The last total volatile organic compounds reading, in ppb.
    pub closed spec fn tvoc(&self) -> u16 {
        self._t_voc
    }

    /// The last equivalent CO2 reading, in ppm.
    pub closed spec fn co2(&self) -> u16 {
        self._co2
    }

    /// The last reference-resistor voltage reading.
    pub closed spec fn vref(&self) -> u16 {
        self._v_ref
    }

    /// The last thermistor voltage reading.
    pub closed spec fn vntc(&self) -> u16 {
        self._v_ntc
    }

    /// The status flags last read.
    pub closed spec fn status(&self) -> CCS811_STATUS_REG_t {
        self.status_reg
    }

    /// The bus holds what was there before plus the transactions.
    pub closed spec fn wf(&self) -> bool {
        &&& self._i2c_slave_address == CCS811_I2C_ADDRESS
        &&& self.i2c.ops() == self.base@ + aq_ops_all(CCS811_I2C_ADDRESS, self.log@)
    }

    /// The transactions since state `o`.
    pub open spec fn since(&self, o: &Self) -> Seq<AqTxn> {
        self.txns().skip(o.txns().len() as int)
    }

    /// The delays since state `o`.
    pub open spec fn waited(&self, o: &Self) -> Seq<u16> {
        self.waits().skip(o.waits().len() as int)
    }

    /// This state follows `o`: transactions and delays continue `o`'s,
    /// nothing was printed, and the readings are kept.
    pub open spec fn after(&self, o: &Self) -> bool {
        &&& self.wf()
        &&& o.txns().len() <= self.txns().len()
        &&& self.txns().take(o.txns().len() as int) == o.txns()
        &&& o.waits().len() <= self.waits().len()
        &&& self.waits().take(o.waits().len() as int) == o.waits()
        &&& self.bus_before() == o.bus_before()
        &&& self.printed() == o.printed()
        &&& self.tvoc() == o.tvoc()
        &&& self.co2() == o.co2()
        &&& self.vref() == o.vref()
        &&& self.vntc() == o.vntc()
    }

    /// Only transactions happened.
    pub open spec fn only_io(&self, o: &Self) -> bool {
        &&& self.after(o)
        &&& self.waits() == o.waits()
        &&& self.connected() == o.connected()
        &&& self.status() == o.status()
    }

    #[verifier::spinoff_prover]
    #[verifier::rlimit(40)]
    proof fn lemma_after_trans(a: &Self, b: &Self, c: &Self)
        requires
            b.after(a),
            c.after(b),
        ensures
            c.after(a),
            c.since(a) == b.since(a) + c.since(b),
            c.waited(a) == b.waited(a) + c.waited(b),
    {
        assert(c.txns().take(a.txns().len() as int) =~= c.txns().take(b.txns().len() as int).take(
            a.txns().len() as int,
        ));
        assert(c.txns() =~= c.txns().take(b.txns().len() as int) + c.since(b));
        assert(b.txns() =~= b.txns().take(a.txns().len() as int) + b.since(a));
        assert(c.since(a) =~= b.since(a) + c.since(b));
        assert(c.waits().take(a.waits().len() as int) =~= c.waits().take(b.waits().len() as int).take(
            a.waits().len() as int,
        ));
        assert(c.waits() =~= c.waits().take(b.waits().len() as int) + c.waited(b));
        assert(b.waits() =~= b.waits().take(a.waits().len() as int) + b.waited(a));
        assert(c.waited(a) =~= b.waited(a) + c.waited(b));
    }

    /// A driver on `i2c`, not yet connected, its readings zero. The
    /// address asked for is not used: the driver talks to 0x5A.
    pub fn new(i2c: I2C, delay: D, printer: P, i2c_add: Option<u8>) -> (r: Self)
        ensures
            r.wf(),
            r.txns() == Seq::<AqTxn>::empty(),
            r.bus_before() == i2c.ops(),
            r.waits() == delay.waits(),
            r.printed() == printer.printed(),
            !r.connected(),
            r.tvoc() == 0 && r.co2() == 0 && r.vref() == 0 && r.vntc() == 0,
            r.status() == status_of(0),
    {
        let ghost b = i2c.ops();
        let r = AirQuality {
            _t_voc: 0,
            _co2: 0,
            _v_ref: 0,
            _v_ntc: 0,
            error_id_reg: CCS811_ERROR_ID_REG_t::new(),
            meas_mode_reg: CCS811_MEAS_MODE_REG_t::new(),
            status_reg: CCS811_STATUS_REG_t::new(),
            _i2c_slave_address: CCS811_I2C_ADDRESS,
            _is_connected: false,
            i2c,
            delay,
            printer,
            base: Ghost(b),
            log: Ghost(Seq::empty()),
        };
        proof {
            crate::bits::lemma_u8_masks();
            assert(0u8 & 0x01u8 == 0 && 0u8 & 0x08u8 == 0 && 0u8 & 0x10u8 == 0 && 0u8 & 0x80u8 == 0);
        }
        assert(r.i2c.ops() =~= r.base@ + aq_ops_all(CCS811_I2C_ADDRESS, r.log@));
        r
    }

    /// Append `t` to the log, the bus having done its operations since `o0`.
    fn log_txn(&mut self, Ghost(o0): Ghost<Seq<AqOp>>, Ghost(t): Ghost<AqTxn>)
        requires
            old(self)._i2c_slave_address == CCS811_I2C_ADDRESS,
            o0 == old(self).base@ + aq_ops_all(CCS811_I2C_ADDRESS, old(self).log@),
            old(self).i2c.ops() == o0 + aq_ops(CCS811_I2C_ADDRESS, t),
        ensures
            final(self).wf(),
            final(self).only_io(old(self)),
            final(self).since(old(self)) == seq![t],
    {
        let ghost l0 = self.log@;
        proof {
            assert(l0.push(t).drop_last() =~= l0);
        }
        self.log = Ghost(self.log@.push(t));
        assert(self.i2c.ops() =~= self.base@ + aq_ops_all(CCS811_I2C_ADDRESS, self.log@));
        assert(self.log@.take(l0.len() as int) =~= l0);
        assert(self.log@.skip(l0.len() as int) =~= seq![t]);
        assert(self.waits().take(self.waits().len() as int) =~= self.waits());
    }

    /// Read `n` bytes of register `reg`; none when the chip did not
    /// acknowledge or not exactly `n` bytes were available.
    fn read_multi_bytes(&mut self, reg: u8, n: u8) -> (r: Option<Vec<u8>>)
        requires
            old(self).wf(),
        ensures
            final(self).only_io(old(self)),
            final(self).since(old(self)).len() == 1,
            reads(final(self).since(old(self))[0], reg, n),
            match r {
                Some(v) => got(final(self).since(old(self))[0]) == Some(v@),
                None => got(final(self).since(old(self))[0]) is None,
            },
    {
        let addr = self._i2c_slave_address;
        let ghost o0 = self.i2c.ops();
        self.i2c.begin_transmission(addr);
        self.i2c.write_byte(reg);
        let s = self.i2c.end_transmission();
        if s != 0 {
            let ghost t = AqTxn::Read(reg, s, n, None);
            assert(self.i2c.ops() =~= o0 + aq_ops(CCS811_I2C_ADDRESS, t));
            self.log_txn(Ghost(o0), Ghost(t));
            return None;
        }
        self.i2c.request_from(addr, n, 1);
        if self.i2c.available() != n {
            let ghost t = AqTxn::Read(reg, 0, n, None);
            assert(self.i2c.ops() =~= o0 + aq_ops(CCS811_I2C_ADDRESS, t));
            self.log_txn(Ghost(o0), Ghost(t));
            return None;
        }
        let ghost start = self.i2c.ops();
        let mut bytes: Vec<u8> = Vec::new();
        let mut i: u8 = 0;
        while i < n
            invariant
                i <= n,
                bytes@.len() == i,
                self.i2c.ops() == start + bytes@.map_values(|v: u8| AqOp::Read(v)),
                self._i2c_slave_address == old(self)._i2c_slave_address,
                self._is_connected == old(self)._is_connected,
                self.delay == old(self).delay,
                self.printer == old(self).printer,
                self.base == old(self).base,
                self.log == old(self).log,
                self._t_voc == old(self)._t_voc,
                self._co2 == old(self)._co2,
                self._v_ref == old(self)._v_ref,
                self._v_ntc == old(self)._v_ntc,
                self.status_reg == old(self).status_reg,
            decreases n - i,
        {
            let b = self.i2c.read_byte();
            proof {
                assert(bytes@.push(b).map_values(|v: u8| AqOp::Read(v)) =~= bytes@.map_values(
                    |v: u8| AqOp::Read(v),
                ).push(AqOp::Read(b)));
            }
            bytes.push(b);
            i = i + 1;
        }
        let ghost t = AqTxn::Read(reg, 0, n, Some(bytes@));
        assert(self.i2c.ops() =~= o0 + aq_ops(CCS811_I2C_ADDRESS, t));
        self.log_txn(Ghost(o0), Ghost(t));
        Some(bytes)
    }

    /// Read one byte of register `reg` into `val`: the status; `val` is
    /// left as it was on failure.
    fn read_byte(&mut self, reg: u8, val: &mut u8) -> (r: CCS811_STATUS_t)
        requires
            old(self).wf(),
        ensures
            final(self).only_io(old(self)),
            final(self).since(old(self)).len() == 1,
            reads(final(self).since(old(self))[0], reg, 1),
            r == outcome(final(self).since(old(self))[0]),
            *final(val) == if r == CCS811_STATUS_t::SENSOR_SUCCESS {
                byte_of(final(self).since(old(self))[0])
            } else {
                *old(val)
            },
    {
        match self.read_multi_bytes(reg, 1) {
            Some(v) => {
                *val = v[0];
                CCS811_STATUS_t::SENSOR_SUCCESS
            },
            None => CCS811_STATUS_t::SENSOR_I2C_ERROR,
        }
    }

    /// Write the bytes `out` to register `reg`: the status.
    fn write_multi_bytes(&mut self, reg: u8, out: &[u8]) -> (r: CCS811_STATUS_t)
        requires
            old(self).wf(),
        ensures
            final(self).only_io(old(self)),
            final(self).since(old(self)).len() == 1,
            writes(final(self).since(old(self))[0], reg, out@),
            r == outcome(final(self).since(old(self))[0]),
    {
        let addr = self._i2c_slave_address;
        let ghost o0 = self.i2c.ops();
        self.i2c.begin_transmission(addr);
        self.i2c.write_byte(reg);
        let ghost start = self.i2c.ops();
        let mut i: usize = 0;
        while i < out.len()
            invariant
                i <= out@.len(),
                self.i2c.ops() == start + out@.take(i as int).map_values(|v: u8| AqOp::Write(v)),
                self._i2c_slave_address == old(self)._i2c_slave_address,
                self._is_connected == old(self)._is_connected,
                self.delay == old(self).delay,
                self.printer == old(self).printer,
                self.base == old(self).base,
                self.log == old(self).log,
                self._t_voc == old(self)._t_voc,
                self._co2 == old(self)._co2,
                self._v_ref == old(self)._v_ref,
                self._v_ntc == old(self)._v_ntc,
                self.status_reg == old(self).status_reg,
            decreases out.len() - i,
        {
            self.i2c.write_byte(out[i]);
            proof {
                assert(out@.take(i + 1).map_values(|v: u8| AqOp::Write(v)) =~= out@.take(i as int).map_values(
                    |v: u8| AqOp::Write(v),
                ).push(AqOp::Write(out@[i as int])));
            }
            i = i + 1;
        }
        let s = self.i2c.end_transmission();
        let ghost t = AqTxn::Write(reg, out@, s);
        assert(out@.take(out@.len() as int) =~= out@);
        assert(self.i2c.ops() =~= o0 + aq_ops(CCS811_I2C_ADDRESS, t));
        self.log_txn(Ghost(o0), Ghost(t));
        if s == 0 {
            CCS811_STATUS_t::SENSOR_SUCCESS
        } else {
            CCS811_STATUS_t::SENSOR_I2C_ERROR
        }
    }

    /// Address register `reg` without data: the status.
    fn write_byte_reg(&mut self, reg: u8) -> (r: CCS811_STATUS_t)
        requires
            old(self).wf(),
        ensures
            final(self).only_io(old(self)),
            final(self).since(old(self)).len() == 1,
            writes(final(self).since(old(self))[0], reg, seq![]),
            r == outcome(final(self).since(old(self))[0]),
    {
        let empty: [u8; 0] = [];
        let r = self.write_multi_bytes(reg, &empty);
        assert(empty@ =~= Seq::<u8>::empty());
        r
    }

    /// Write `val` to register `reg`: the status.
    fn write_byte_reg_val(&mut self, reg: u8, val: u8) -> (r: CCS811_STATUS_t)
        requires
            old(self).wf(),
        ensures
            final(self).only_io(old(self)),
            final(self).since(old(self)).len() == 1,
            writes(final(self).since(old(self))[0], reg, seq![val]),
            r == outcome(final(self).since(old(self))[0]),
    {
        let one: [u8; 1] = [val];
        let r = self.write_multi_bytes(reg, &one);
        assert(one@ =~= seq![val]);
        r
    }

    /// Address the chip without data: whether it answers.
    fn write_address(&mut self) -> (r: bool)
        requires
            old(self).wf(),
        ensures
            final(self).only_io(old(self)),
            final(self).since(old(self)).len() == 1,
            final(self).since(old(self))[0] matches AqTxn::Probe(s) && r == (s == 0),
    {
        let addr = self._i2c_slave_address;
        let ghost o0 = self.i2c.ops();
        self.i2c.begin_transmission(addr);
        let s = self.i2c.end_transmission();
        let ghost t = AqTxn::Probe(s);
        assert(self.i2c.ops() =~= o0 + aq_ops(CCS811_I2C_ADDRESS, t));
        self.log_txn(Ghost(o0), Ghost(t));
        s == 0
    }

    /// Soft-reset the chip with its four-byte key: the status.
    pub fn reset(&mut self) -> (r: CCS811_STATUS_t)
        requires
            old(self).wf(),
        ensures
            final(self).only_io(old(self)),
            final(self).since(old(self)).len() == 1,
            writes(final(self).since(old(self))[0], CCS811_SOFT_RESET_REG, reset_key()),
            r == outcome(final(self).since(old(self))[0]),
    {
        let key: [u8; 4] = [0x11, 0xE5, 0x72, 0x8A];
        let r = self.write_multi_bytes(CCS811_SOFT_RESET_REG, &key);
        assert(key@ =~= reset_key());
        r
    }

    /// Read the measurement-mode byte, change it by `f`, and write it back:
    /// the status.
    fn update_meas_mode(&mut self, set: u8, clear: u8) -> (r: CCS811_STATUS_t)
        requires
            old(self).wf(),
        ensures
            final(self).only_io(old(self)),
            modified(final(self).since(old(self)), |v: u8| (v & !clear) | set, r),
    {
        let ghost o = *self;
        let mut data: u8 = 0;
        let result = self.read_byte(CCS811_MEAS_MODE_REG, &mut data);
        if result != CCS811_STATUS_t::SENSOR_SUCCESS {
            return result;
        }
        let ghost q1 = *self;
        data = (data & !clear) | set;
        let r = self.write_byte_reg_val(CCS811_MEAS_MODE_REG, data);
        proof {
            Self::lemma_after_trans(&o, &q1, self);
        }
        r
    }

    /// Turn the data-ready interrupt on: the status.
    pub fn enable_data_interrupt(&mut self) -> (r: CCS811_STATUS_t)
        requires
            old(self).wf(),
        ensures
            final(self).only_io(old(self)),
            modified(final(self).since(old(self)), |v: u8| v | CCS811_INT_DATARDY_MSK, r),
    {
        let r = self.update_meas_mode(CCS811_INT_DATARDY_MSK, 0);
        proof {
            crate::bits::lemma_u8_masks();
        }
        assert((|v: u8| (v & !0u8) | CCS811_INT_DATARDY_MSK) =~= (|v: u8| v | CCS811_INT_DATARDY_MSK));
        r
    }

    /// Turn the data-ready interrupt off: the status.
    pub fn disable_data_interrupt(&mut self) -> (r: CCS811_STATUS_t)
        requires
            old(self).wf(),
        ensures
            final(self).only_io(old(self)),
            modified(final(self).since(old(self)), |v: u8| v & !CCS811_INT_DATARDY_MSK, r),
    {
        let r = self.update_meas_mode(0, CCS811_INT_DATARDY_MSK);
        proof {
            crate::bits::lemma_u8_masks();
        }
        assert((|v: u8| (v & !CCS811_INT_DATARDY_MSK) | 0u8) =~= (|v: u8| v & !CCS811_INT_DATARDY_MSK));
        r
    }

    /// Turn the threshold interrupt on: the status.
    pub fn enable_thresh_interrupt(&mut self) -> (r: CCS811_STATUS_t)
        requires
            old(self).wf(),
        ensures
            final(self).only_io(old(self)),
            modified(final(self).since(old(self)), |v: u8| v | CCS811_INT_THRESH_MSK, r),
    {
        let r = self.update_meas_mode(CCS811_INT_THRESH_MSK, 0);
        proof {
            crate::bits::lemma_u8_masks();
        }
        assert((|v: u8| (v & !0u8) | CCS811_INT_THRESH_MSK) =~= (|v: u8| v | CCS811_INT_THRESH_MSK));
        r
    }

    /// Turn the threshold interrupt off: the status.
    pub fn disable_thresh_interrupt(&mut self) -> (r: CCS811_STATUS_t)
        requires
            old(self).wf(),
        ensures
            final(self).only_io(old(self)),
            modified(final(self).since(old(self)), |v: u8| v & !CCS811_INT_THRESH_MSK, r),
    {
        let r = self.update_meas_mode(0, CCS811_INT_THRESH_MSK);
        proof {
            crate::bits::lemma_u8_masks();
        }
        assert((|v: u8| (v & !CCS811_INT_THRESH_MSK) | 0u8) =~= (|v: u8| v & !CCS811_INT_THRESH_MSK));
        r
    }

    /// Set the drive mode (bits 4 to 6 of the measurement-mode register):
    /// the status.
    pub fn set_drive_mode(&mut self, mode: u8) -> (r: CCS811_STATUS_t)
        requires
            old(self).wf(),
        ensures
            final(self).only_io(old(self)),
            modified(final(self).since(old(self)), |v: u8| with_drive_mode(v, mode), r),
    {
        let shifted: u8 = mode << CCS811_DRIVE_MODE_POS;
        let r = self.update_meas_mode(shifted, CCS811_DRIVE_MODE_MSK);
        assert((|v: u8| (v & !CCS811_DRIVE_MODE_MSK) | shifted) =~= (|v: u8| with_drive_mode(v, mode)));
        r
    }

    /// Read the status register into the driver's flags: the status (the
    /// flags are kept on failure).
    pub fn get_status_reg(&mut self) -> (r: CCS811_STATUS_t)
        requires
            old(self).wf(),
        ensures
            final(self).after(old(self)),
            final(self).waits() == old(self).waits(),
            final(self).connected() == old(self).connected(),
            final(self).since(old(self)).len() == 1,
            reads(final(self).since(old(self))[0], CCS811_STATUS_REG, 1),
            r == outcome(final(self).since(old(self))[0]),
            final(self).status() == if r == CCS811_STATUS_t::SENSOR_SUCCESS {
                status_of(byte_of(final(self).since(old(self))[0]))
            } else {
                old(self).status()
            },
    {
        let mut val: u8 = 0;
        let result = self.read_byte(CCS811_STATUS_REG, &mut val);
        if result == CCS811_STATUS_t::SENSOR_SUCCESS {
            self.status_reg = CCS811_STATUS_REG_t::from_byte(val);
        }
        result
    }

    /// Read the status register into `status`: the status (`status` is
    /// kept on failure).
    pub fn get_status_reg_out(&mut self, status: &mut CCS811_STATUS_REG_t) -> (r: CCS811_STATUS_t)
        requires
            old(self).wf(),
        ensures
            final(self).only_io(old(self)),
            final(self).since(old(self)).len() == 1,
            reads(final(self).since(old(self))[0], CCS811_STATUS_REG, 1),
            r == outcome(final(self).since(old(self))[0]),
            *final(status) == if r == CCS811_STATUS_t::SENSOR_SUCCESS {
                status_of(byte_of(final(self).since(old(self))[0]))
            } else {
                *old(status)
            },
    {
        let mut val: u8 = 0;
        let result = self.read_byte(CCS811_STATUS_REG, &mut val);
        if result == CCS811_STATUS_t::SENSOR_SUCCESS {
            *status = CCS811_STATUS_REG_t::from_byte(val);
        }
        result
    }

    /// Read the measurement-mode register into `meas_mode`: the status
    /// (`meas_mode` is kept on failure).
    pub fn get_meas_mode_reg(&mut self, meas_mode: &mut CCS811_MEAS_MODE_REG_t) -> (r: CCS811_STATUS_t)
        requires
            old(self).wf(),
        ensures
            final(self).only_io(old(self)),
            final(self).since(old(self)).len() == 1,
            reads(final(self).since(old(self))[0], CCS811_MEAS_MODE_REG, 1),
            r == outcome(final(self).since(old(self))[0]),
            *final(meas_mode) == if r == CCS811_STATUS_t::SENSOR_SUCCESS {
                meas_mode_of(byte_of(final(self).since(old(self))[0]))
            } else {
                *old(meas_mode)
            },
    {
        let mut val: u8 = 0;
        let result = self.read_byte(CCS811_MEAS_MODE_REG, &mut val);
        if result == CCS811_STATUS_t::SENSOR_SUCCESS {
            *meas_mode = CCS811_MEAS_MODE_REG_t::from_byte(val);
        }
        result
    }

    /// Read the error register into `error_id`: the status (`error_id` is
    /// kept on failure).
    pub fn get_error_id_reg(&mut self, error_id: &mut CCS811_ERROR_ID_REG_t) -> (r: CCS811_STATUS_t)
        requires
            old(self).wf(),
        ensures
            final(self).only_io(old(self)),
            final(self).since(old(self)).len() == 1,
            reads(final(self).since(old(self))[0], CCS811_ERROR_ID_REG, 1),
            r == outcome(final(self).since(old(self))[0]),
            *final(error_id) == if r == CCS811_STATUS_t::SENSOR_SUCCESS {
                error_id_of(byte_of(final(self).since(old(self))[0]))
            } else {
                *old(error_id)
            },
    {
        let mut val: u8 = 0;
        let result = self.read_byte(CCS811_ERROR_ID_REG, &mut val);
        if result == CCS811_STATUS_t::SENSOR_SUCCESS {
            *error_id = CCS811_ERROR_ID_REG_t::from_byte(val);
        }
        result
    }

    /// The hardware ID, or 0 when the read failed.
    pub fn get_hw_id(&mut self) -> (r: u8)
        requires
            old(self).wf(),
        ensures
            final(self).only_io(old(self)),
            final(self).since(old(self)).len() == 1,
            reads(final(self).since(old(self))[0], CCS811_HW_ID_REG, 1),
            r == if got(final(self).since(old(self))[0]) is Some {
                byte_of(final(self).since(old(self))[0])
            } else {
                0
            },
    {
        let mut hw_id: u8 = 0;
        let result = self.read_byte(CCS811_HW_ID_REG, &mut hw_id);
        if result != CCS811_STATUS_t::SENSOR_SUCCESS {
            return 0;
        }
        hw_id
    }

    /// Whether a new result is ready: the status register's data-ready flag
    /// (false when the read failed).
    pub fn is_data_available(&mut self) -> (r: bool)
        requires
            old(self).wf(),
        ensures
            final(self).after(old(self)),
            final(self).waits() == old(self).waits(),
            final(self).connected() == old(self).connected(),
            final(self).since(old(self)).len() == 1,
            reads(final(self).since(old(self))[0], CCS811_STATUS_REG, 1),
            got(final(self).since(old(self))[0]) is Some ==> r == status_of(byte_of(final(self).since(old(self))[0])).data_ready
                && final(self).status() == status_of(byte_of(final(self).since(old(self))[0])),
            got(final(self).since(old(self))[0]) is None ==> !r && final(self).status() == old(self).status(),
    {
        if self.get_status_reg() != CCS811_STATUS_t::SENSOR_SUCCESS {
            return false;
        }
        self.status_reg.data_ready
    }

    /// The hardware version as "major.minor" (the high and low nibble) in
    /// a ten-byte buffer, zero-terminated; none when the read failed.
    pub fn get_hw_version(&mut self) -> (r: Option<[u8; 10]>)
        requires
            old(self).wf(),
        ensures
            final(self).only_io(old(self)),
            final(self).since(old(self)).len() == 1,
            reads(final(self).since(old(self))[0], CCS811_HW_VER_REG, 1),
            match r {
                Some(b) => got(final(self).since(old(self))[0]) is Some && b@ == version_buffer(
                    seq![byte_of(final(self).since(old(self))[0]) / 16, byte_of(final(self).since(old(self))[0]) % 16],
                ),
                None => got(final(self).since(old(self))[0]) is None,
            },
    {
        let mut data: u8 = 0;
        if self.read_byte(CCS811_HW_VER_REG, &mut data) != CCS811_STATUS_t::SENSOR_SUCCESS {
            return None;
        }
        let major = data >> 4u8;
        let minor = data & 0x0F;
        proof {
            crate::bits::lemma_u8_low_bits();
        }
        Some(fmt_version_2(major, minor))
    }

    /// A firmware version from register `reg` as "major.minor.patch" (the
    /// nibbles of the first byte, then the second byte).
    fn read_fw_version(&mut self, reg: u8) -> (r: Option<[u8; 10]>)
        requires
            old(self).wf(),
        ensures
            final(self).only_io(old(self)),
            final(self).since(old(self)).len() == 1,
            reads(final(self).since(old(self))[0], reg, 2),
            match r {
                Some(b) => got(final(self).since(old(self))[0]) is Some && b@ == fw_version_buffer(
                    got(final(self).since(old(self))[0])->0,
                ),
                None => got(final(self).since(old(self))[0]) is None,
            },
    {
        match self.read_multi_bytes(reg, 2) {
            Some(data) => {
                let d0 = data[0];
                let major = d0 >> 4u8;
                let minor = d0 & 0x0F;
                proof {
                    crate::bits::lemma_u8_low_bits();
                }
                Some(fmt_version_3(major, minor, data[1]))
            },
            None => None,
        }
    }

    /// The boot firmware version, "major.minor.patch"; none when the read
    /// failed.
    pub fn get_fw_boot_version(&mut self) -> (r: Option<[u8; 10]>)
        requires
            old(self).wf(),
        ensures
            final(self).only_io(old(self)),
            final(self).since(old(self)).len() == 1,
            reads(final(self).since(old(self))[0], CCS811_FW_BOOT_VER_REG, 2),
            match r {
                Some(b) => got(final(self).since(old(self))[0]) is Some && b@ == fw_version_buffer(
                    got(final(self).since(old(self))[0])->0,
                ),
                None => got(final(self).since(old(self))[0]) is None,
            },
    {
        self.read_fw_version(CCS811_FW_BOOT_VER_REG)
    }

    /// The application firmware version, "major.minor.patch"; none when
    /// the read failed.
    pub fn get_fw_app_version(&mut self) -> (r: Option<[u8; 10]>)
        requires
            old(self).wf(),
        ensures
            final(self).only_io(old(self)),
            final(self).since(old(self)).len() == 1,
            reads(final(self).since(old(self))[0], CCS811_FW_APP_VER_REG, 2),
            match r {
                Some(b) => got(final(self).since(old(self))[0]) is Some && b@ == fw_version_buffer(
                    got(final(self).since(old(self))[0])->0,
                ),
                None => got(final(self).since(old(self))[0]) is None,
            },
    {
        self.read_fw_version(CCS811_FW_APP_VER_REG)
    }


    /// Wait `ms` milliseconds.
    fn wait(&mut self, ms: u16)
        requires
            old(self).wf(),
        ensures
            final(self).after(old(self)),
            final(self).since(old(self)) == Seq::<AqTxn>::empty(),
            final(self).waited(old(self)) == seq![ms],
            final(self).connected() == old(self).connected(),
            final(self).status() == old(self).status(),
    {
        self.delay.delay_ms(ms);
        assert(self.waits().take(old(self).waits().len() as int) =~= old(self).waits());
        assert(self.txns().take(old(self).txns().len() as int) =~= old(self).txns());
        assert(self.since(old(self)) =~= Seq::<AqTxn>::empty());
        assert(self.waited(old(self)) =~= seq![ms]);
    }

    /// Bring the chip up: reset it, wait, check its identity and that a
    /// valid application is present, start the application, wait, check
    /// that it runs, and select drive mode 1. Returns the first failure's
    /// status, else success, and then counts the chip as connected.
    #[verifier::rlimit(40)]
    pub fn begin(&mut self) -> (r: CCS811_STATUS_t)
        requires
            old(self).wf(),
        ensures
            final(self).after(old(self)),
            begin_run(final(self).since(old(self)), final(self).waited(old(self)), r),
            final(self).status() == begin_status(final(self).since(old(self)), old(self).status()),
            final(self).connected() == (old(self).connected() || r == CCS811_STATUS_t::SENSOR_SUCCESS),
    {
        let ghost o = *self;
        let result = self.reset();
        let ghost t0 = self.since(&o)[0];
        proof {
            assert(self.since(&o) =~= seq![t0]);
            assert(self.waited(&o) =~= Seq::<u16>::empty());
        }
        if result != CCS811_STATUS_t::SENSOR_SUCCESS {
            return result;
        }
        let ghost q1 = *self;
        self.wait(CCS811_START_DELAY);
        let ghost q2 = *self;
        proof {
            Self::lemma_after_trans(&o, &q1, &q2);
            assert(q2.since(&o) =~= seq![t0]);
        }
        let id = self.get_hw_id();
        let ghost q3 = *self;
        let ghost t1 = q3.since(&q2)[0];
        proof {
            Self::lemma_after_trans(&o, &q2, &q3);
            assert(q3.since(&o) =~= seq![t0, t1]);
            assert(q3.waited(&o) =~= seq![CCS811_START_DELAY]);
        }
        if id != CCS811_HW_ID {
            return CCS811_STATUS_t::SENSOR_ID_ERROR;
        }
        let st = self.get_status_reg();
        let ghost q4 = *self;
        let ghost t2 = q4.since(&q3)[0];
        proof {
            Self::lemma_after_trans(&o, &q3, &q4);
            assert(q4.since(&o) =~= seq![t0, t1, t2]);
            assert(q4.waited(&o) =~= seq![CCS811_START_DELAY]);
        }
        if st != CCS811_STATUS_t::SENSOR_SUCCESS {
            return CCS811_STATUS_t::SENSOR_I2C_ERROR;
        }
        if !self.status_reg.app_valid || self.status_reg.error {
            return CCS811_STATUS_t::SENSOR_INTERNAL_ERROR;
        }
        let ws = self.write_byte_reg(CCS811_APP_START_REG);
        let ghost q5 = *self;
        let ghost t3 = q5.since(&q4)[0];
        proof {
            Self::lemma_after_trans(&o, &q4, &q5);
            assert(q5.since(&o) =~= seq![t0, t1, t2, t3]);
            assert(q5.waited(&o) =~= seq![CCS811_START_DELAY]);
        }
        if ws != CCS811_STATUS_t::SENSOR_SUCCESS {
            return CCS811_STATUS_t::SENSOR_I2C_ERROR;
        }
        self.wait(CCS811_START_DELAY);
        let ghost q6 = *self;
        proof {
            Self::lemma_after_trans(&o, &q5, &q6);
            assert(q6.since(&o) =~= seq![t0, t1, t2, t3]);
            assert(q6.waited(&o) =~= seq![CCS811_START_DELAY, CCS811_START_DELAY]);
        }
        let st2 = self.get_status_reg();
        let ghost q7 = *self;
        let ghost t4 = q7.since(&q6)[0];
        proof {
            Self::lemma_after_trans(&o, &q6, &q7);
            assert(q7.since(&o) =~= seq![t0, t1, t2, t3, t4]);
            assert(q7.waited(&o) =~= seq![CCS811_START_DELAY, CCS811_START_DELAY]);
        }
        if st2 != CCS811_STATUS_t::SENSOR_SUCCESS {
            return CCS811_STATUS_t::SENSOR_I2C_ERROR;
        }
        if !self.status_reg.fw_mode {
            return CCS811_STATUS_t::SENSOR_INTERNAL_ERROR;
        }
        let dm = self.set_drive_mode(CCS811_DRIVE_MODE1);
        proof {
            Self::lemma_after_trans(&o, &q7, self);
            let d = self.since(&q7);
            if d.len() == 1 {
                assert(self.since(&o) =~= seq![t0, t1, t2, t3, t4, d[0]]);
            } else {
                assert(self.since(&o) =~= seq![t0, t1, t2, t3, t4, d[0], d[1]]);
            }
            assert(self.waited(&o) =~= seq![CCS811_START_DELAY, CCS811_START_DELAY]);
        }
        if dm != CCS811_STATUS_t::SENSOR_SUCCESS {
            return CCS811_STATUS_t::SENSOR_I2C_ERROR;
        }
        self._is_connected = true;
        CCS811_STATUS_t::SENSOR_SUCCESS
    }

    /// Probe the chip; when it answers and was not connected, begin it.
    /// It counts as connected exactly when it answered.
    pub fn ping(&mut self) -> (r: bool)
        requires
            old(self).wf(),
        ensures
            final(self).after(old(self)),
            final(self).connected() == r,
            final(self).since(old(self)).len() >= 1,
            final(self).since(old(self))[0] matches AqTxn::Probe(s) && r == (s == 0),
            !(!old(self).connected() && r) ==> final(self).since(old(self)).len() == 1 && final(self).waits()
                == old(self).waits() && final(self).status() == old(self).status(),
            !old(self).connected() && r ==> exists|b: CCS811_STATUS_t|
                begin_run(final(self).since(old(self)).skip(1), final(self).waited(old(self)), b),
            !old(self).connected() && r ==> final(self).status() == begin_status(
                final(self).since(old(self)).skip(1),
                old(self).status(),
            ),
    {
        let ghost o = *self;
        let get_connect_sts = self.write_address();
        let ghost mut began = CCS811_STATUS_t::SENSOR_SUCCESS;
        if !self._is_connected && get_connect_sts {
            let ghost q1 = *self;
            let b = self.begin();
            proof {
                Self::lemma_after_trans(&o, &q1, self);
                assert(self.since(&o).skip(1) =~= self.since(&q1));
                assert(q1.waited(&o) =~= Seq::<u16>::empty());
                assert(self.waited(&o) =~= self.waited(&q1));
                began = b;
            }
        }
        self._is_connected = get_connect_sts;
        assert(!o.connected() && get_connect_sts ==> begin_run(self.since(&o).skip(1), self.waited(&o), began));
        get_connect_sts
    }

    /// Read the algorithm results: eCO2 and TVOC, each big-endian, kept
    /// on success; the status.
    pub fn read_algorithm_results(&mut self) -> (r: CCS811_STATUS_t)
        requires
            old(self).wf(),
        ensures
            final(self).since(old(self)).len() == 1,
            reads(final(self).since(old(self))[0], CCS811_ALG_RESULT_DATA_REG, 4),
            r == outcome(final(self).since(old(self))[0]),
            r != CCS811_STATUS_t::SENSOR_SUCCESS ==> final(self).only_io(old(self)),
            r == CCS811_STATUS_t::SENSOR_SUCCESS ==> final(self).co2() == be16_at(final(self).since(old(self))[0], 0)
                && final(self).tvoc() == be16_at(final(self).since(old(self))[0], 2),
            final(self).wf(),
            final(self).txns().take(old(self).txns().len() as int) == old(self).txns(),
            final(self).waits() == old(self).waits(),
            final(self).printed() == old(self).printed(),
            final(self).connected() == old(self).connected(),
            final(self).status() == old(self).status(),
            final(self).vref() == old(self).vref(),
            final(self).vntc() == old(self).vntc(),
            final(self).bus_before() == old(self).bus_before(),
    {
        match self.read_multi_bytes(CCS811_ALG_RESULT_DATA_REG, 4) {
            Some(data) => {
                self._co2 = be16(data[0], data[1]);
                self._t_voc = be16(data[2], data[3]);
                CCS811_STATUS_t::SENSOR_SUCCESS
            },
            None => CCS811_STATUS_t::SENSOR_I2C_ERROR,
        }
    }

    /// Read the thermistor voltages: the reference and the thermistor
    /// voltage, each big-endian, kept on success; the status.
    pub fn read_ntc_voltages(&mut self) -> (r: CCS811_STATUS_t)
        requires
            old(self).wf(),
        ensures
            final(self).since(old(self)).len() == 1,
            reads(final(self).since(old(self))[0], CCS811_NTC_REG, 4),
            r == outcome(final(self).since(old(self))[0]),
            r != CCS811_STATUS_t::SENSOR_SUCCESS ==> final(self).only_io(old(self)),
            r == CCS811_STATUS_t::SENSOR_SUCCESS ==> final(self).vref() == be16_at(final(self).since(old(self))[0], 0)
                && final(self).vntc() == be16_at(final(self).since(old(self))[0], 2),
            final(self).wf(),
            final(self).txns().take(old(self).txns().len() as int) == old(self).txns(),
            final(self).waits() == old(self).waits(),
            final(self).printed() == old(self).printed(),
            final(self).connected() == old(self).connected(),
            final(self).status() == old(self).status(),
            final(self).tvoc() == old(self).tvoc(),
            final(self).co2() == old(self).co2(),
            final(self).bus_before() == old(self).bus_before(),
    {
        match self.read_multi_bytes(CCS811_NTC_REG, 4) {
            Some(data) => {
                self._v_ref = be16(data[0], data[1]);
                self._v_ntc = be16(data[2], data[3]);
                CCS811_STATUS_t::SENSOR_SUCCESS
            },
            None => CCS811_STATUS_t::SENSOR_I2C_ERROR,
        }
    }

    /// Write the baseline, most significant byte first: the status.
    pub fn set_base_line(&mut self, base_line: u16) -> (r: CCS811_STATUS_t)
        requires
            old(self).wf(),
        ensures
            final(self).only_io(old(self)),
            final(self).since(old(self)).len() == 1,
            writes(final(self).since(old(self))[0], CCS811_BASELINE_REG, seq![(base_line / 256) as u8, (base_line % 256) as u8]),
            r == outcome(final(self).since(old(self))[0]),
    {
        let data: [u8; 2] = [(base_line >> 8u16) as u8, (base_line & 0xFF) as u8];
        proof {
            crate::bits::lemma_u16_bytes();
        }
        let r = self.write_multi_bytes(CCS811_BASELINE_REG, &data);
        assert(data@ =~= seq![(base_line / 256) as u8, (base_line % 256) as u8]);
        r
    }

    /// The baseline as read, most significant byte first (the order in
    /// which `set_base_line` writes it), or 0 when the read failed.
    pub fn get_base_line(&mut self) -> (r: u16)
        requires
            old(self).wf(),
        ensures
            final(self).only_io(old(self)),
            final(self).since(old(self)).len() == 1,
            reads(final(self).since(old(self))[0], CCS811_BASELINE_REG, 2),
            r == match got(final(self).since(old(self))[0]) {
                Some(d) => (d[0] * 256 + d[1]) as u16,
                None => 0u16,
            },
    {
        match self.read_multi_bytes(CCS811_BASELINE_REG, 2) {
            Some(data) => be16(data[0], data[1]),
            None => 0,
        }
    }

    /// Write the humidity and temperature compensation codes (each in
    /// 1/512 units, the temperature offset by 25 degrees), most
    /// significant byte first: the status.
    pub fn write_environment_codes(&mut self, rh: u16, temp: u16) -> (r: CCS811_STATUS_t)
        requires
            old(self).wf(),
        ensures
            final(self).only_io(old(self)),
            final(self).since(old(self)).len() == 1,
            writes(
                final(self).since(old(self))[0],
                CCS811_ENV_DATA_REG,
                seq![(rh / 256) as u8, (rh % 256) as u8, (temp / 256) as u8, (temp % 256) as u8],
            ),
            r == outcome(final(self).since(old(self))[0]),
    {
        let data: [u8; 4] = [(rh >> 8u16) as u8, (rh & 0xFF) as u8, (temp >> 8u16) as u8, (temp & 0xFF) as u8];
        proof {
            crate::bits::lemma_u16_bytes();
        }
        let r = self.write_multi_bytes(CCS811_ENV_DATA_REG, &data);
        assert(data@ =~= seq![(rh / 256) as u8, (rh % 256) as u8, (temp / 256) as u8, (temp % 256) as u8]);
        r
    }

    /// The last TVOC reading in ppb; printed as "TVOC: <n>ppb" when `print`.
    pub fn get_tvoc(&mut self, print: bool) -> (r: u16)
        requires
            old(self).wf(),
        ensures
            r == old(self).tvoc(),
            final(self).wf(),
            final(self).txns() == old(self).txns(),
            final(self).waits() == old(self).waits(),
            final(self).connected() == old(self).connected(),
            final(self).printed() == old(self).printed() + if print {
                seq![PrintOut::Text("TVOC: "@), PrintOut::Number(r), PrintOut::Line("ppb"@)]
            } else {
                Seq::<PrintOut>::empty()
            },
    {
        if print {
            self.printer.print_str("TVOC: ");
            self.printer.print_u16(self._t_voc);
            self.printer.println_str("ppb");
        }
        assert(self.printed() =~= old(self).printed() + if print {
            seq![PrintOut::Text("TVOC: "@), PrintOut::Number(self._t_voc), PrintOut::Line("ppb"@)]
        } else {
            Seq::<PrintOut>::empty()
        });
        self._t_voc
    }

    /// The last eCO2 reading in ppm; printed as "eCO2: <n>ppm" when `print`.
    pub fn get_co2(&mut self, print: bool) -> (r: u16)
        requires
            old(self).wf(),
        ensures
            r == old(self).co2(),
            final(self).wf(),
            final(self).txns() == old(self).txns(),
            final(self).waits() == old(self).waits(),
            final(self).connected() == old(self).connected(),
            final(self).printed() == old(self).printed() + if print {
                seq![PrintOut::Text("eCO2: "@), PrintOut::Number(r), PrintOut::Line("ppm"@)]
            } else {
                Seq::<PrintOut>::empty()
            },
    {
        if print {
            self.printer.print_str("eCO2: ");
            self.printer.print_u16(self._co2);
            self.printer.println_str("ppm");
        }
        assert(self.printed() =~= old(self).printed() + if print {
            seq![PrintOut::Text("eCO2: "@), PrintOut::Number(self._co2), PrintOut::Line("ppm"@)]
        } else {
            Seq::<PrintOut>::empty()
        });
        self._co2
    }

    /// The last reference-resistor voltage reading.
    pub fn get_v_ref(&self) -> (r: u16)
        ensures
            r == self.vref(),
    {
        self._v_ref
    }

    /// The last thermistor voltage reading.
    pub fn get_v_ntc(&self) -> (r: u16)
        ensures
            r == self.vntc(),
    {
        self._v_ntc
    }

}

} // verus!
