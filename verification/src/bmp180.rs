//! Driver of the MYOSA barometric pressure board (BMP180 on I2C address
//! 0x77): calibration, raw temperature and pressure measurements, and the
//! datasheet's integer compensation of the pressure.
use vstd::prelude::*;
pub use crate::wire::{I2CBus, DelayMs, I2cOp};

verus! {

/// Written to the soft reset register to reset the chip.
pub const BMP180_SOFT_REST_VALUE: u8 = 0xB6;
/// Written to the control register to measure the temperature.
pub const BMP180_GET_TEMPERATURE: u8 = 0x2E;
pub const BMP180_GET_PRESSURE_OSS0: u8 = 0x34;
pub const BMP180_GET_PRESSURE_OSS1: u8 = 0x74;
pub const BMP180_GET_PRESSURE_OSS2: u8 = 0xB4;
pub const BMP180_GET_PRESSURE_OSS3: u8 = 0xF4;
pub const BMP180_I2C_ADDRESS: u8 = 0x77;
pub const BMP180_CHIP_ID: u8 = 0x55;
/// The error code of the readings.
pub const BMP180_ERROR: u8 = 255;
pub const BMP180_MAX_COEFF_REGS: u8 = 11;

/// The chip's registers.
#[derive(Clone, Copy, Debug, PartialEq, Eq, Structural)]
pub enum Bmp180Reg {
    AC1_REG,
    AC2_REG,
    AC3_REG,
    AC4_REG,
    AC5_REG,
    AC6_REG,
    B1_REG,
    B2_REG,
    MB_REG,
    MC_REG,
    MD_REG,
    ADC_OUT_XLSB_REG,
    ADC_OUT_LSB_REG,
    ADC_OUT_MSB_REG,
    CONTROL_REG,
    SOFT_RESET_REG,
    CHIP_ID_REG,
}

impl Bmp180Reg {
    pub open spec fn spec_addr(self) -> u8 {
        match self {
            Bmp180Reg::AC1_REG => 0xAA,
            Bmp180Reg::AC2_REG => 0xAC,
            Bmp180Reg::AC3_REG => 0xAE,
            Bmp180Reg::AC4_REG => 0xB0,
            Bmp180Reg::AC5_REG => 0xB2,
            Bmp180Reg::AC6_REG => 0xB4,
            Bmp180Reg::B1_REG => 0xB6,
            Bmp180Reg::B2_REG => 0xB8,
            Bmp180Reg::MB_REG => 0xBA,
            Bmp180Reg::MC_REG => 0xBC,
            Bmp180Reg::MD_REG => 0xBE,
            Bmp180Reg::ADC_OUT_XLSB_REG => 0xF8,
            Bmp180Reg::ADC_OUT_LSB_REG => 0xF7,
            Bmp180Reg::ADC_OUT_MSB_REG => 0xF6,
            Bmp180Reg::CONTROL_REG => 0xF4,
            Bmp180Reg::SOFT_RESET_REG => 0xE0,
            Bmp180Reg::CHIP_ID_REG => 0xD0,
        }
    }

    /// The register's address.
    #[verifier::when_used_as_spec(spec_addr)]
    pub fn addr(self) -> (r: u8)
        ensures
            r == self.spec_addr(),
    {
        match self {
            Bmp180Reg::AC1_REG => 0xAA,
            Bmp180Reg::AC2_REG => 0xAC,
            Bmp180Reg::AC3_REG => 0xAE,
            Bmp180Reg::AC4_REG => 0xB0,
            Bmp180Reg::AC5_REG => 0xB2,
            Bmp180Reg::AC6_REG => 0xB4,
            Bmp180Reg::B1_REG => 0xB6,
            Bmp180Reg::B2_REG => 0xB8,
            Bmp180Reg::MB_REG => 0xBA,
            Bmp180Reg::MC_REG => 0xBC,
            Bmp180Reg::MD_REG => 0xBE,
            Bmp180Reg::ADC_OUT_XLSB_REG => 0xF8,
            Bmp180Reg::ADC_OUT_LSB_REG => 0xF7,
            Bmp180Reg::ADC_OUT_MSB_REG => 0xF6,
            Bmp180Reg::CONTROL_REG => 0xF4,
            Bmp180Reg::SOFT_RESET_REG => 0xE0,
            Bmp180Reg::CHIP_ID_REG => 0xD0,
        }
    }
}

/// Pressure oversampling: more samples, more time, less noise.
#[derive(Clone, Copy, Debug, PartialEq, Eq, Structural)]
pub enum Bmp180AccuracyMode {
    ULTRA_LOW_POWER,
    STANDARD,
    HIGH_RESOLUTION,
    ULTRA_HIGH_RESOLUTION,
}

impl Bmp180AccuracyMode {
    pub open spec fn spec_oss(self) -> u8 {
        match self {
            Bmp180AccuracyMode::ULTRA_LOW_POWER => 0,
            Bmp180AccuracyMode::STANDARD => 1,
            Bmp180AccuracyMode::HIGH_RESOLUTION => 2,
            Bmp180AccuracyMode::ULTRA_HIGH_RESOLUTION => 3,
        }
    }

    /// The oversampling setting (0 to 3).
    #[verifier::when_used_as_spec(spec_oss)]
    pub fn oss(self) -> (r: u8)
        ensures
            r == self.spec_oss(),
    {
        match self {
            Bmp180AccuracyMode::ULTRA_LOW_POWER => 0,
            Bmp180AccuracyMode::STANDARD => 1,
            Bmp180AccuracyMode::HIGH_RESOLUTION => 2,
            Bmp180AccuracyMode::ULTRA_HIGH_RESOLUTION => 3,
        }
    }
}

/// The calibration coefficients stored in the chip.
#[derive(Clone, Copy, Debug)]
pub struct Bmp180CalibCoeff {
    pub _AC1: i16,
    pub _AC2: i16,
    pub _AC3: i16,
    pub _AC4: u16,
    pub _AC5: u16,
    pub _AC6: u16,
    pub _B1: i16,
    pub _B2: i16,
    pub _MB: i16,
    pub _MC: i16,
    pub _MD: i16,
}

impl Bmp180CalibCoeff {
    /// All coefficients zero.
    pub fn new() -> (r: Self)
        ensures
            r == zero_coeff(),
    {
        Bmp180CalibCoeff {
            _AC1: 0,
            _AC2: 0,
            _AC3: 0,
            _AC4: 0,
            _AC5: 0,
            _AC6: 0,
            _B1: 0,
            _B2: 0,
            _MB: 0,
            _MC: 0,
            _MD: 0,
        }
    }
}

/// All coefficients zero.
pub open spec fn zero_coeff() -> Bmp180CalibCoeff {
    Bmp180CalibCoeff {
        _AC1: 0,
        _AC2: 0,
        _AC3: 0,
        _AC4: 0,
        _AC5: 0,
        _AC6: 0,
        _B1: 0,
        _B2: 0,
        _MB: 0,
        _MC: 0,
        _MD: 0,
    }
}

/// Integer division rounded toward zero, as 32-bit division does.
pub open spec fn tdiv(a: int, b: int) -> int {
    let q = iabs(a) / iabs(b);
    if (a >= 0) == (b >= 0) {
        q
    } else {
        -q
    }
}

pub open spec fn iabs(v: int) -> int {
    if v < 0 {
        -v
    } else {
        v
    }
}

pub open spec fn i32_fits(v: int) -> bool {
    i32::MIN <= v <= i32::MAX
}

pub open spec fn u32_fits(v: int) -> bool {
    0 <= v <= u32::MAX
}

/// A 32-bit value shifted right by `n` (sign-extending).
pub open spec fn asr(v: int, n: u32) -> int {
    ((v as i32) >> n) as int
}

/// A 32-bit value shifted left by `n`, the bits shifted out dropped.
pub open spec fn shl(v: int, n: u32) -> int {
    ((v as i32) << n) as int
}

/// `b5` of the datasheet from the raw temperature `ut`: `None` when the
/// 32-bit arithmetic would overflow or divide by zero.
pub open spec fn b5_spec(c: Bmp180CalibCoeff, ut: int) -> Option<int> {
    let p = (ut - c._AC6) * c._AC5;
    if !i32_fits(ut - c._AC6) || !i32_fits(p) {
        None
    } else {
        let x1 = asr(p, 15);
        let den = x1 + c._MD;
        if !i32_fits(den) || den == 0 {
            None
        } else {
            let x2 = tdiv(c._MC * 2048, den);
            if i32_fits(x1 + x2) {
                Some(x1 + x2)
            } else {
                None
            }
        }
    }
}

/// The compensated pressure (Pa) from the raw temperature `ut` and raw
/// pressure `up` with oversampling `oss`, by the datasheet's integer
/// algorithm; `Some(255)` when `b4` is 0; `None` when the arithmetic would
/// overflow or divide by zero.
pub open spec fn pressure_spec(c: Bmp180CalibCoeff, oss: u8, ut: int, up: int) -> Option<int> {
    match b5_spec(c, ut) {
        None => None,
        Some(b5) => {
            let b6 = b5 - 4000;
            let sq = b6 * b6;
            let x1 = asr(c._B2 * asr(sq, 12), 11);
            let x2 = asr(c._AC2 * b6, 11);
            let x3 = x1 + x2;
            let s = c._AC1 * 4 + x3;
            let b3_num = shl(s, oss as u32) + 2;
            let b3 = tdiv(b3_num, 4);
            let y1 = asr(c._AC3 * b6, 13);
            let y2 = asr(c._B1 * asr(sq, 12), 16);
            let y3 = asr(y1 + y2 + 2, 2);
            let b4p = c._AC4 * ((y3 + 32768) as u32);
            let b4 = ((b4p as u32) >> 15u32) as int;
            let d = up - b3;
            let b7 = ((d as u32) as int) * ((50000u32 >> (oss as u32)) as int);
            if !(i32_fits(b6) && i32_fits(sq) && i32_fits(c._B2 * asr(sq, 12)) && i32_fits(c._AC2 * b6) && i32_fits(
                x3,
            ) && i32_fits(s) && i32_fits(b3_num) && i32_fits(c._AC3 * b6) && i32_fits(c._B1 * asr(sq, 12))
                && i32_fits(y1 + y2) && i32_fits(y1 + y2 + 2) && i32_fits(y3 + 32768) && u32_fits(b4p)
                && i32_fits(d) && u32_fits(b7)) {
                None
            } else if b4 == 0 {
                Some(BMP180_ERROR as int)
            } else {
                let pu = if b7 < 0x8000_0000 {
                    (b7 * 2) / b4
                } else {
                    (b7 / b4) * 2
                };
                if !u32_fits(pu) {
                    None
                } else {
                    let p = (pu as i32) as int;
                    let q = asr(p, 8);
                    let sqq = if q * q > i32::MAX {
                        i32::MAX as int
                    } else {
                        q * q
                    };
                    let z1 = sqq * 3038;
                    let z2 = -7357 * p;
                    if !(i32_fits(z1) && i32_fits(z2) && i32_fits(asr(z1, 16) + asr(z2, 16)) && i32_fits(
                        asr(z1, 16) + asr(z2, 16) + 3791,
                    ) && i32_fits(p + asr(asr(z1, 16) + asr(z2, 16) + 3791, 4))) {
                        None
                    } else {
                        Some(p + asr(asr(z1, 16) + asr(z2, 16) + 3791, 4))
                    }
                }
            }
        }
    }
}

/// `2` to the power `oss` (oversampling takes `2^oss` samples).
pub open spec fn samples(oss: u8) -> int {
    if oss == 0 {
        1
    } else if oss == 1 {
        2
    } else if oss == 2 {
        4
    } else {
        8
    }
}

/// The numerator of the datasheet's `b3` (the pressure offset) at
/// oversampling `oss`, before its division by 4.
pub open spec fn offset_num(c: Bmp180CalibCoeff, oss: u8, ut: int) -> int {
    match b5_spec(c, ut) {
        None => 0,
        Some(b5) => {
            let b6 = b5 - 4000;
            let x3 = asr(c._B2 * asr(b6 * b6, 12), 11) + asr(c._AC2 * b6, 11);
            shl(c._AC1 * 4 + x3, oss as u32) + 2
        },
    }
}

/// The datasheet's `b3`: the raw reading that stands for zero pressure
/// difference at oversampling `oss`.
pub open spec fn pressure_offset(c: Bmp180CalibCoeff, oss: u8, ut: int) -> int {
    tdiv(offset_num(c, oss, ut), 4)
}

proof fn lemma_shift_50000()
    by (bit_vector)
    ensures
        50000u32 >> 0u32 == 50000u32,
        50000u32 >> 1u32 == 25000u32,
        50000u32 >> 2u32 == 12500u32,
        50000u32 >> 3u32 == 6250u32,
{
}

/// Oversampling only refines the measurement: a raw reading that lies `d`
/// counts above the offset at oversampling 0 and `d * 2^oss` counts above
/// it at oversampling `oss` (the same air, measured with `2^oss` samples)
/// gives the same pressure, for every calibration and temperature.
pub proof fn lemma_oversampling_same_pressure(c: Bmp180CalibCoeff, oss: u8, ut: int, d: int)
    requires
        oss <= 3,
        d >= 0,
        pressure_spec(c, 0, ut, pressure_offset(c, 0, ut) + d) is Some,
        i32_fits(offset_num(c, oss, ut)),
        i32_fits(d * samples(oss)),
        i32_fits(pressure_offset(c, oss, ut) + d * samples(oss)),
    ensures
        pressure_spec(c, oss, ut, pressure_offset(c, oss, ut) + d * samples(oss)) == pressure_spec(
            c,
            0,
            ut,
            pressure_offset(c, 0, ut) + d,
        ),
{
    lemma_shift_50000();
    let ds = d * samples(oss);
    let k = (50000u32 >> (oss as u32)) as int;
    if oss == 0 {
        assert(oss as u32 == 0u32);
        assert(k == 50000 && samples(oss) == 1);
    } else if oss == 1 {
        assert(oss as u32 == 1u32);
        assert(k == 25000 && samples(oss) == 2);
    } else if oss == 2 {
        assert(oss as u32 == 2u32);
        assert(k == 12500 && samples(oss) == 4);
    } else {
        assert(oss as u32 == 3u32);
        assert(k == 6250 && samples(oss) == 8);
    }
    assert(ds * k == d * 50000);
    assert(((ds as u32) as int) == ds);
    assert(((d as u32) as int) == d);
}

/// The value a checked 32-bit computation gives, as a spec value.
pub open spec fn opt_int(o: Option<i32>) -> Option<int> {
    match o {
        Some(v) => Some(v as int),
        None => None,
    }
}

/// `a / b` rounded toward zero, for 32-bit operands.
fn div_trunc(a: i64, b: i64) -> (r: i64)
    requires
        b != 0,
        i32_fits(a as int),
        i32_fits(b as int),
    ensures
        r == tdiv(a as int, b as int),
        -0x8000_0000 <= r <= 0x8000_0000,
{
    let ua: i64 = if a < 0 {
        -a
    } else {
        a
    };
    let ub: i64 = if b < 0 {
        -b
    } else {
        b
    };
    let q = ua / ub;
    assert(q <= ua) by (nonlinear_arith)
        requires q == ua / ub, ub >= 1, ua >= 0;
    if (a >= 0) == (b >= 0) {
        q
    } else {
        -q
    }
}

fn fits32(v: i64) -> (r: bool)
    ensures
        r == i32_fits(v as int),
{
    -0x8000_0000 <= v && v <= 0x7FFF_FFFF
}

/// `b5` of the datasheet from the raw temperature `ut`; `None` when the
/// 32-bit arithmetic would overflow or divide by zero.
pub fn compute_b5(c: &Bmp180CalibCoeff, ut: i32) -> (r: Option<i32>)
    ensures
        opt_int(r) == b5_spec(*c, ut as int),
{
    let d = ut as i64 - c._AC6 as i64;
    if !fits32(d) {
        return None;
    }
    assert(-0x8000_0000 * 0x10000 <= d * c._AC5 <= 0x8000_0000 * 0x10000) by (nonlinear_arith)
        requires -0x8000_0000 <= d <= 0x7FFF_FFFF, 0 <= c._AC5 <= 0xFFFF;
    let p = d * c._AC5 as i64;
    if !fits32(p) {
        return None;
    }
    let x1 = (p as i32) >> 15u32;
    let den = x1 as i64 + c._MD as i64;
    if !fits32(den) || den == 0 {
        return None;
    }
    let x2 = div_trunc(c._MC as i64 * 2048, den);
    let sum = x1 as i64 + x2 as i64;
    if !fits32(sum) {
        return None;
    }
    Some(sum as i32)
}

fn fits_u32(v: i64) -> (r: bool)
    ensures
        r == u32_fits(v as int),
{
    0 <= v && v <= 0xFFFF_FFFF
}

/// The compensated pressure (Pa) from raw temperature `ut` and raw
/// pressure `up` with oversampling `oss`, by the datasheet's integer
/// algorithm: `Some(255)` (the error code) when its `b4` is 0, `None` when
/// the 32-bit arithmetic would overflow or divide by zero.
#[verifier::rlimit(60)]
pub fn compensate_pressure(c: &Bmp180CalibCoeff, oss: u8, ut: i32, up: i32) -> (r: Option<i32>)
    requires
        oss <= 3,
    ensures
        opt_int(r) == pressure_spec(*c, oss, ut as int, up as int),
{
    let b5 = match compute_b5(c, ut) {
        Some(v) => v,
        None => {
            return None;
        },
    };
    let b6w = b5 as i64 - 4000;
    if !fits32(b6w) {
        return None;
    }
    let b6 = b6w as i32;
    assert(0 <= b6 * b6 <= 0x4000_0000_0000_0000) by (nonlinear_arith)
        requires -0x8000_0000 <= b6 <= 0x7FFF_FFFF;
    let sqw = b6 as i64 * b6 as i64;
    if !fits32(sqw) {
        return None;
    }
    let sq = sqw as i32;
    let sq12 = sq >> 12u32;
    assert(-0x8000_0000 * 0x8000 <= c._B2 * sq12 <= 0x8000_0000 * 0x8000) by (nonlinear_arith)
        requires -0x8000_0000 <= sq12 <= 0x7FFF_FFFF, -0x8000 <= c._B2 <= 0x7FFF;
    let t1 = c._B2 as i64 * sq12 as i64;
    assert(-0x8000_0000 * 0x8000 <= c._AC2 * b6 <= 0x8000_0000 * 0x8000) by (nonlinear_arith)
        requires -0x8000_0000 <= b6 <= 0x7FFF_FFFF, -0x8000 <= c._AC2 <= 0x7FFF;
    let t2 = c._AC2 as i64 * b6 as i64;
    if !fits32(t1) || !fits32(t2) {
        return None;
    }
    let x1 = (t1 as i32) >> 11u32;
    let x2 = (t2 as i32) >> 11u32;
    let x3w = x1 as i64 + x2 as i64;
    if !fits32(x3w) {
        return None;
    }
    let x3 = x3w as i32;
    let sw = c._AC1 as i64 * 4 + x3 as i64;
    if !fits32(sw) {
        return None;
    }
    let s = sw as i32;
    let b3nw = (s << (oss as u32)) as i64 + 2;
    if !fits32(b3nw) {
        return None;
    }
    let b3 = div_trunc(b3nw, 4);
    assert(-0x8000_0000 * 0x8000 <= c._AC3 * b6 <= 0x8000_0000 * 0x8000) by (nonlinear_arith)
        requires -0x8000_0000 <= b6 <= 0x7FFF_FFFF, -0x8000 <= c._AC3 <= 0x7FFF;
    let t3 = c._AC3 as i64 * b6 as i64;
    assert(-0x8000_0000 * 0x8000 <= c._B1 * sq12 <= 0x8000_0000 * 0x8000) by (nonlinear_arith)
        requires -0x8000_0000 <= sq12 <= 0x7FFF_FFFF, -0x8000 <= c._B1 <= 0x7FFF;
    let t4 = c._B1 as i64 * sq12 as i64;
    if !fits32(t3) || !fits32(t4) {
        return None;
    }
    let y1 = (t3 as i32) >> 13u32;
    let y2 = (t4 as i32) >> 16u32;
    let y12 = y1 as i64 + y2 as i64;
    if !fits32(y12) || !fits32(y12 + 2) {
        return None;
    }
    let y3 = ((y12 + 2) as i32) >> 2u32;
    let y3p = y3 as i64 + 32768;
    if !fits32(y3p) {
        return None;
    }
    let m: u32 = #[verifier::truncate] ((y3p as i32) as u32);
    assert(c._AC4 * m <= 0xFFFF * 0xFFFF_FFFF) by (nonlinear_arith)
        requires c._AC4 <= 0xFFFF, m <= 0xFFFF_FFFF;
    let b4pw = c._AC4 as i64 * m as i64;
    let dw = up as i64 - b3;
    if !fits_u32(b4pw) || !fits32(dw) {
        return None;
    }
    let b4 = (b4pw as u32) >> 15u32;
    let dm: u32 = #[verifier::truncate] ((dw as i32) as u32);
    let k: u32 = 50000u32 >> (oss as u32);
    assert(50000u32 >> (oss as u32) <= 50000u32) by (bit_vector)
        requires oss <= 3;
    assert(dm * k <= 0xFFFF_FFFF * 50000) by (nonlinear_arith)
        requires dm <= 0xFFFF_FFFF, k <= 50000;
    let b7w = dm as i64 * k as i64;
    if !fits_u32(b7w) {
        return None;
    }
    let b7 = b7w as u32;
    if b4 == 0 {
        return Some(BMP180_ERROR as i32);
    }
    let pu: u32;
    if b7 < 0x8000_0000 {
        pu = (b7 * 2) / b4;
    } else {
        let q = b7 / b4;
        if q > 0x7FFF_FFFF {
            return None;
        }
        pu = q * 2;
    }
    let p: i32 = #[verifier::truncate] (pu as i32);
    let q = p >> 8u32;
    assert(0 <= q * q <= 0x4000_0000_0000_0000) by (nonlinear_arith)
        requires -0x8000_0000 <= q <= 0x7FFF_FFFF;
    let q2 = q as i64 * q as i64;
    let sqq: i32 = if q2 > 0x7FFF_FFFF {
        0x7FFF_FFFF
    } else {
        q2 as i32
    };
    assert(q2 >= 0) by (nonlinear_arith)
        requires q2 == q * q;
    assert(sqq * 3038 <= 0x7FFF_FFFF * 3038) by (nonlinear_arith)
        requires 0 <= sqq <= 0x7FFF_FFFF;
    let z1w = sqq as i64 * 3038;
    assert(-7357 * 0x8000_0000 <= -7357 * p <= 7357 * 0x8000_0000) by (nonlinear_arith)
        requires -0x8000_0000 <= p <= 0x7FFF_FFFF;
    let z2w = -7357 * p as i64;
    if !fits32(z1w) || !fits32(z2w) {
        return None;
    }
    let aw = ((z1w as i32) >> 16u32) as i64 + ((z2w as i32) >> 16u32) as i64;
    if !fits32(aw) || !fits32(aw + 3791) {
        return None;
    }
    let rw = p as i64 + (((aw + 3791) as i32) >> 4u32) as i64;
    if !fits32(rw) {
        return None;
    }
    Some(rw as i32)
}

/// One register-level exchange with the chip, with its outcome.
pub enum BmpTxn {
    /// The address alone, and the end status.
    Probe(u8),
    /// A register write: register, value, end status.
    Write(u8, u8, u8),
    /// A one-byte read: register, end status, the request's reply, and the
    /// byte when exactly one was available.
    Read8(u8, u8, u8, Option<u8>),
    /// A two-byte read: register, end status, the request's reply, and the
    /// bytes (most significant first) when exactly two were available.
    Read16(u8, u8, u8, Option<(u8, u8)>),
}

/// The bus operations of a transaction with the chip at `a`.
pub open spec fn bmp_ops(a: u8, t: BmpTxn) -> Seq<I2cOp> {
    match t {
        BmpTxn::Probe(s) => seq![I2cOp::BeginTransmission(a), I2cOp::EndTransmission(s)],
        BmpTxn::Write(reg, v, s) => seq![
            I2cOp::BeginTransmission(a),
            I2cOp::Write(reg),
            I2cOp::Write(v),
            I2cOp::EndTransmission(s),
        ],
        BmpTxn::Read8(reg, s, q, b) => seq![I2cOp::BeginTransmission(a), I2cOp::Write(reg), I2cOp::EndTransmission(s)]
            + if s != 0 {
            seq![]
        } else {
            seq![I2cOp::RequestFrom(a, 1, q)] + match b {
                Some(v) => seq![I2cOp::Read(v)],
                None => seq![],
            }
        },
        BmpTxn::Read16(reg, s, q, b) => seq![I2cOp::BeginTransmission(a), I2cOp::Write(reg), I2cOp::EndTransmission(s)]
            + if s != 0 {
            seq![]
        } else {
            seq![I2cOp::RequestFrom(a, 2, q)] + match b {
                Some((h, l)) => seq![I2cOp::Read(h), I2cOp::Read(l)],
                None => seq![],
            }
        },
    }
}

pub open spec fn bmp_ops_all(a: u8, ts: Seq<BmpTxn>) -> Seq<I2cOp>
    decreases ts.len(),
{
    if ts.len() == 0 {
        seq![]
    } else {
        bmp_ops_all(a, ts.drop_last()) + bmp_ops(a, ts.last())
    }
}

/// What a one-byte read returned: the byte, or `BMP180_ERROR`.
pub open spec fn read8_value(t: BmpTxn) -> u8 {
    match t {
        BmpTxn::Read8(_, s, _, b) => if s == 0 && b is Some {
            b->0
        } else {
            BMP180_ERROR
        },
        _ => BMP180_ERROR,
    }
}

/// What a two-byte read returned: the big-endian value, or `BMP180_ERROR`.
pub open spec fn read16_value(t: BmpTxn) -> u16 {
    match t {
        BmpTxn::Read16(_, s, _, b) => if s == 0 && b is Some {
            (((b->0).0 as u16) << 8u16) | ((b->0).1 as u16)
        } else {
            BMP180_ERROR as u16
        },
        _ => BMP180_ERROR as u16,
    }
}

/// `t` reads one byte of register `reg`.
pub open spec fn reads8(t: BmpTxn, reg: u8) -> bool {
    t matches BmpTxn::Read8(r, _, _, _) && r == reg
}

/// `t` reads two bytes from register `reg`.
pub open spec fn reads16(t: BmpTxn, reg: u8) -> bool {
    t matches BmpTxn::Read16(r, _, _, _) && r == reg
}

/// `t` writes `v` to register `reg`; `ok` when the chip acknowledged.
pub open spec fn writes8(t: BmpTxn, reg: u8, v: u8, ok: bool) -> bool {
    t matches BmpTxn::Write(r, w, s) && r == reg && w == v && ok == (s == 0)
}

/// The calibration registers, in the order they are read.
pub open spec fn calib_regs() -> Seq<u8> {
    seq![0xAAu8, 0xAE, 0xAC, 0xB2, 0xB0, 0xB4, 0xB6, 0xB8, 0xBA, 0xBC, 0xBE]
}

/// The coefficients read by the eleven transactions `t` (in the order of
/// `calib_regs`); a failed read gives 255.
pub open spec fn calib_from(t: Seq<BmpTxn>) -> Bmp180CalibCoeff {
    Bmp180CalibCoeff {
        _AC1: read16_value(t[0]) as i16,
        _AC3: read16_value(t[1]) as i16,
        _AC2: read16_value(t[2]) as i16,
        _AC5: read16_value(t[3]),
        _AC4: read16_value(t[4]),
        _AC6: read16_value(t[5]),
        _B1: read16_value(t[6]) as i16,
        _B2: read16_value(t[7]) as i16,
        _MB: read16_value(t[8]) as i16,
        _MC: read16_value(t[9]) as i16,
        _MD: read16_value(t[10]) as i16,
    }
}

/// `t` is the calibration read.
pub open spec fn reads_calib(t: Seq<BmpTxn>) -> bool {
    t.len() == 11 && forall|i: int| 0 <= i < 11 ==> reads16(#[trigger] t[i], calib_regs()[i])
}

/// A temperature measurement: the command, then (if acknowledged) a 5 ms
/// wait and the two-byte result; `r` is the raw value or `BMP180_ERROR`.
pub open spec fn temp_read(t: Seq<BmpTxn>, w: Seq<u16>, r: u16) -> bool {
    &&& t.len() >= 1
    &&& t[0] matches BmpTxn::Write(reg, val, s) && reg == 0xF4 && val == BMP180_GET_TEMPERATURE && if s != 0 {
        t.len() == 1 && w.len() == 0 && r == BMP180_ERROR as u16
    } else {
        t.len() == 2 && reads16(t[1], 0xF6) && w == seq![5u16] && r == read16_value(t[1])
    }
}

/// The pressure command and its conversion wait (ms) for oversampling `acc`.
pub open spec fn pressure_cmd(acc: u8) -> (u8, u16) {
    if acc == 0 {
        (BMP180_GET_PRESSURE_OSS0, 5)
    } else if acc == 1 {
        (BMP180_GET_PRESSURE_OSS1, 8)
    } else if acc == 2 {
        (BMP180_GET_PRESSURE_OSS2, 14)
    } else {
        (BMP180_GET_PRESSURE_OSS3, 26)
    }
}

/// A pressure measurement: the command, then (if acknowledged) the wait,
/// the two-byte result and (if that is not the error code) the extra low
/// byte; `r` is the raw value (19 bits at most) or `BMP180_ERROR`.
pub open spec fn pressure_read(t: Seq<BmpTxn>, w: Seq<u16>, acc: u8, r: u32) -> bool {
    let (cmd, wait) = pressure_cmd(acc);
    &&& t.len() >= 1
    &&& t[0] matches BmpTxn::Write(reg, val, s) && reg == 0xF4 && val == cmd && if s != 0 {
        t.len() == 1 && w.len() == 0 && r == BMP180_ERROR as u32
    } else {
        &&& w == seq![wait]
        &&& t.len() >= 2
        &&& reads16(t[1], 0xF6)
        &&& if read16_value(t[1]) == BMP180_ERROR as u16 {
            t.len() == 2 && r == BMP180_ERROR as u32
        } else {
            &&& t.len() == 3
            &&& reads8(t[2], 0xF8)
            &&& r == ((((read16_value(t[1]) as u32) << 8u32) | (read8_value(t[2]) as u32)) >> ((8 - acc) as u32))
        }
    }
}

/// The raw temperature a measurement at the head of `t` gave.
pub open spec fn temp_value(t: Seq<BmpTxn>) -> u16 {
    if temp_len(t) == 2 {
        read16_value(t[1])
    } else {
        BMP180_ERROR as u16
    }
}

/// The raw pressure the pressure measurement `t` gave at oversampling `acc`.
pub open spec fn pressure_value(t: Seq<BmpTxn>, acc: u8) -> u32 {
    if !(t[0] matches BmpTxn::Write(_, _, s) && s == 0) {
        BMP180_ERROR as u32
    } else if read16_value(t[1]) == BMP180_ERROR as u16 {
        BMP180_ERROR as u32
    } else {
        (((read16_value(t[1]) as u32) << 8u32) | (read8_value(t[2]) as u32)) >> ((8 - acc) as u32)
    }
}

/// How many transactions a temperature measurement at the head of `t` took.
pub open spec fn temp_len(t: Seq<BmpTxn>) -> int {
    if t[0] matches BmpTxn::Write(_, _, s) && s == 0 {
        2
    } else {
        1
    }
}

/// The state of a BMP180 driver.
pub struct BarometricPressure<I2C: I2CBus, D: DelayMs> {
    _i2c_slave_address: u8,
    _is_connected: bool,
    _accuracy: u8,
    _calib_coeff: Bmp180CalibCoeff,
    i2c: I2C,
    delay: D,
    base: Ghost<Seq<I2cOp>>,
    log: Ghost<Seq<BmpTxn>>,
}

impl<I2C: I2CBus, D: DelayMs> BarometricPressure<I2C, D> {
    /// The transactions with the chip so far.
    pub closed spec fn txns(&self) -> Seq<BmpTxn> {
        self.log@
    }

    /// The delays asked for so far.
    pub closed spec fn waits(&self) -> Seq<u16> {
        self.delay.waits()
    }

    /// What was done on the bus.
    pub closed spec fn bus_ops(&self) -> Seq<I2cOp> {
        self.i2c.ops()
    }

    /// What was on the bus before the driver took it.
    pub closed spec fn bus_before(&self) -> Seq<I2cOp> {
        self.base@
    }

    /// Whether the chip counts as connected.
    pub closed spec fn connected(&self) -> bool {
        self._is_connected
    }

    /// The oversampling setting.
    pub closed spec fn accuracy(&self) -> u8 {
        self._accuracy
    }

    /// The calibration coefficients.
    pub closed spec fn coeff(&self) -> Bmp180CalibCoeff {
        self._calib_coeff
    }

    /// The bus holds what was there before plus the transactions; the
    /// oversampling setting is one of the four.
    pub closed spec fn wf(&self) -> bool {
        &&& self._i2c_slave_address == BMP180_I2C_ADDRESS
        &&& self._accuracy <= 3
        &&& self.i2c.ops() == self.base@ + bmp_ops_all(BMP180_I2C_ADDRESS, self.log@)
    }

    /// The transactions since state `o`.
    pub open spec fn since(&self, o: &Self) -> Seq<BmpTxn> {
        self.txns().skip(o.txns().len() as int)
    }

    /// The delays since state `o`.
    pub open spec fn waited(&self, o: &Self) -> Seq<u16> {
        self.waits().skip(o.waits().len() as int)
    }

    /// This state follows `o`: transactions and delays continue `o`'s.
    pub open spec fn after(&self, o: &Self) -> bool {
        &&& self.wf()
        &&& o.txns().len() <= self.txns().len()
        &&& self.txns().take(o.txns().len() as int) == o.txns()
        &&& o.waits().len() <= self.waits().len()
        &&& self.waits().take(o.waits().len() as int) == o.waits()
        &&& self.bus_before() == o.bus_before()
        &&& self.accuracy() == o.accuracy()
    }

    /// Only transactions happened.
    pub open spec fn only_io(&self, o: &Self) -> bool {
        &&& self.after(o)
        &&& self.waits() == o.waits()
        &&& self.connected() == o.connected()
        &&& self.coeff() == o.coeff()
    }

    proof fn lemma_after_trans(a: &Self, b: &Self, c: &Self)
        requires
            b.after(a),
            c.after(b),
        ensures
            c.after(a),
            c.since(a) == b.since(a) + c.since(b),
            c.waited(a) == b.waited(a) + c.waited(b),
    {
        assert(c.txns().take(a.txns().len() as int) =~= c.txns().take(b.txns().len() as int).take(a.txns().len() as int));
        assert(c.txns() =~= c.txns().take(b.txns().len() as int) + c.since(b));
        assert(b.txns() =~= b.txns().take(a.txns().len() as int) + b.since(a));
        assert(c.since(a) =~= b.since(a) + c.since(b));
        assert(c.waits().take(a.waits().len() as int) =~= c.waits().take(b.waits().len() as int).take(a.waits().len() as int));
        assert(c.waits() =~= c.waits().take(b.waits().len() as int) + c.waited(b));
        assert(b.waits() =~= b.waits().take(a.waits().len() as int) + b.waited(a));
        assert(c.waited(a) =~= b.waited(a) + c.waited(b));
    }

    /// A driver for the chip on `i2c` with oversampling `accr`, not yet
    /// connected, coefficients zero.
    pub fn new(i2c: I2C, delay: D, accr: Bmp180AccuracyMode) -> (r: Self)
        ensures
            r.wf(),
            r.txns() == Seq::<BmpTxn>::empty(),
            r.bus_before() == i2c.ops(),
            r.waits() == delay.waits(),
            !r.connected(),
            r.accuracy() == accr.spec_oss(),
            r.coeff() == zero_coeff(),
    {
        let ghost b = i2c.ops();
        let r = BarometricPressure {
            _accuracy: accr.oss(),
            _i2c_slave_address: BMP180_I2C_ADDRESS,
            _is_connected: false,
            _calib_coeff: Bmp180CalibCoeff::new(),
            i2c,
            delay,
            base: Ghost(b),
            log: Ghost(Seq::empty()),
        };
        assert(r.i2c.ops() =~= r.base@ + bmp_ops_all(BMP180_I2C_ADDRESS, r.log@));
        r
    }

    /// Change the oversampling setting.
    pub fn set_accuracy_mode(&mut self, mode: Bmp180AccuracyMode)
        requires
            old(self).wf(),
        ensures
            final(self).wf(),
            final(self).accuracy() == mode.spec_oss(),
            final(self).txns() == old(self).txns(),
            final(self).waits() == old(self).waits(),
            final(self).connected() == old(self).connected(),
            final(self).coeff() == old(self).coeff(),
            final(self).bus_before() == old(self).bus_before(),
    {
        self._accuracy = mode.oss();
    }

    /// Append `t` to the log, the bus having done its operations since `o0`.
    fn log_txn(&mut self, Ghost(o0): Ghost<Seq<I2cOp>>, Ghost(t): Ghost<BmpTxn>)
        requires
            old(self)._i2c_slave_address == BMP180_I2C_ADDRESS,
            old(self)._accuracy <= 3,
            o0 == old(self).base@ + bmp_ops_all(BMP180_I2C_ADDRESS, old(self).log@),
            old(self).i2c.ops() == o0 + bmp_ops(BMP180_I2C_ADDRESS, t),
        ensures
            final(self).wf(),
            final(self).after(old(self)),
            final(self).since(old(self)) == seq![t],
            final(self).waits() == old(self).waits(),
            final(self).connected() == old(self).connected(),
            final(self).coeff() == old(self).coeff(),
    {
        let ghost l0 = self.log@;
        proof {
            assert(l0.push(t).drop_last() =~= l0);
        }
        self.log = Ghost(self.log@.push(t));
        assert(self.i2c.ops() =~= self.base@ + bmp_ops_all(BMP180_I2C_ADDRESS, self.log@));
        assert(self.log@.take(l0.len() as int) =~= l0);
        assert(self.log@.skip(l0.len() as int) =~= seq![t]);
        assert(self.waits().take(self.waits().len() as int) =~= self.waits());
    }

    /// Read one byte of register `reg`; `BMP180_ERROR` when it failed.
    fn read8bit(&mut self, reg: Bmp180Reg) -> (r: u8)
        requires
            old(self).wf(),
        ensures
            final(self).only_io(old(self)),
            final(self).since(old(self)).len() == 1,
            reads8(final(self).since(old(self))[0], reg.spec_addr()),
            r == read8_value(final(self).since(old(self))[0]),
    {
        let addr = self._i2c_slave_address;
        let ra = reg.addr();
        let ghost o0 = self.i2c.ops();
        self.i2c.begin_transmission(addr);
        self.i2c.write_byte(ra);
        let s = self.i2c.end_transmission();
        if s != 0 {
            let ghost t = BmpTxn::Read8(ra, s, 0, None);
            assert(self.i2c.ops() =~= o0 + bmp_ops(BMP180_I2C_ADDRESS, t));
            self.log_txn(Ghost(o0), Ghost(t));
            return BMP180_ERROR;
        }
        let q = self.i2c.request_from(addr, 1);
        if self.i2c.available() != 1 {
            let ghost t = BmpTxn::Read8(ra, 0, q, None);
            assert(self.i2c.ops() =~= o0 + bmp_ops(BMP180_I2C_ADDRESS, t));
            self.log_txn(Ghost(o0), Ghost(t));
            return BMP180_ERROR;
        }
        let v = self.i2c.read_byte();
        let ghost t = BmpTxn::Read8(ra, 0, q, Some(v));
        assert(self.i2c.ops() =~= o0 + bmp_ops(BMP180_I2C_ADDRESS, t));
        self.log_txn(Ghost(o0), Ghost(t));
        v
    }

    /// Read two bytes from register `reg`, most significant first;
    /// `BMP180_ERROR` when it failed.
    fn read16bit(&mut self, reg: Bmp180Reg) -> (r: u16)
        requires
            old(self).wf(),
        ensures
            final(self).only_io(old(self)),
            final(self).since(old(self)).len() == 1,
            reads16(final(self).since(old(self))[0], reg.spec_addr()),
            r == read16_value(final(self).since(old(self))[0]),
    {
        let addr = self._i2c_slave_address;
        let ra = reg.addr();
        let ghost o0 = self.i2c.ops();
        self.i2c.begin_transmission(addr);
        self.i2c.write_byte(ra);
        let s = self.i2c.end_transmission();
        if s != 0 {
            let ghost t = BmpTxn::Read16(ra, s, 0, None);
            assert(self.i2c.ops() =~= o0 + bmp_ops(BMP180_I2C_ADDRESS, t));
            self.log_txn(Ghost(o0), Ghost(t));
            return BMP180_ERROR as u16;
        }
        let q = self.i2c.request_from(addr, 2);
        if self.i2c.available() != 2 {
            let ghost t = BmpTxn::Read16(ra, 0, q, None);
            assert(self.i2c.ops() =~= o0 + bmp_ops(BMP180_I2C_ADDRESS, t));
            self.log_txn(Ghost(o0), Ghost(t));
            return BMP180_ERROR as u16;
        }
        let h = self.i2c.read_byte();
        let mut value: u16 = (h as u16) << 8u16;
        let l = self.i2c.read_byte();
        value = value | l as u16;
        let ghost t = BmpTxn::Read16(ra, 0, q, Some((h, l)));
        assert(self.i2c.ops() =~= o0 + bmp_ops(BMP180_I2C_ADDRESS, t));
        self.log_txn(Ghost(o0), Ghost(t));
        value
    }

    /// Write `val` to register `reg`: whether the chip acknowledged.
    fn write8bit(&mut self, reg: Bmp180Reg, val: u8) -> (r: bool)
        requires
            old(self).wf(),
        ensures
            final(self).only_io(old(self)),
            final(self).since(old(self)).len() == 1,
            writes8(final(self).since(old(self))[0], reg.spec_addr(), val, r),
    {
        let addr = self._i2c_slave_address;
        let ra = reg.addr();
        let ghost o0 = self.i2c.ops();
        self.i2c.begin_transmission(addr);
        self.i2c.write_byte(ra);
        self.i2c.write_byte(val);
        let s = self.i2c.end_transmission();
        let ghost t = BmpTxn::Write(ra, val, s);
        assert(self.i2c.ops() =~= o0 + bmp_ops(BMP180_I2C_ADDRESS, t));
        self.log_txn(Ghost(o0), Ghost(t));
        s == 0
    }

    /// Address the chip without data: whether it answers.
    fn write_address(&mut self) -> (r: bool)
        requires
            old(self).wf(),
        ensures
            final(self).only_io(old(self)),
            final(self).since(old(self)).len() == 1,
            final(self).since(old(self))[0] matches BmpTxn::Probe(s) && r == (s == 0),
    {
        let addr = self._i2c_slave_address;
        let ghost o0 = self.i2c.ops();
        self.i2c.begin_transmission(addr);
        let s = self.i2c.end_transmission();
        let ghost t = BmpTxn::Probe(s);
        assert(self.i2c.ops() =~= o0 + bmp_ops(BMP180_I2C_ADDRESS, t));
        self.log_txn(Ghost(o0), Ghost(t));
        s == 0
    }

    /// Soft-reset the chip.
    pub fn reset(&mut self)
        requires
            old(self).wf(),
        ensures
            final(self).only_io(old(self)),
            final(self).since(old(self)).len() == 1,
            final(self).since(old(self))[0] matches BmpTxn::Write(r, v, _) && r == 0xE0 && v == BMP180_SOFT_REST_VALUE,
    {
        self.write8bit(Bmp180Reg::SOFT_RESET_REG, BMP180_SOFT_REST_VALUE);
    }

    /// The chip ID when it reads as a BMP180's, else `BMP180_ERROR`.
    pub fn get_device_id(&mut self) -> (r: u8)
        requires
            old(self).wf(),
        ensures
            final(self).only_io(old(self)),
            final(self).since(old(self)).len() == 1,
            reads8(final(self).since(old(self))[0], 0xD0),
            r == (if read8_value(final(self).since(old(self))[0]) == BMP180_CHIP_ID {
                BMP180_CHIP_ID
            } else {
                BMP180_ERROR
            }),
    {
        if self.read8bit(Bmp180Reg::CHIP_ID_REG) == BMP180_CHIP_ID {
            BMP180_CHIP_ID
        } else {
            BMP180_ERROR
        }
    }

    /// Read the eleven calibration coefficients (a failed read gives 255).
    fn read_calibration_coefficients(&mut self) -> (r: bool)
        requires
            old(self).wf(),
        ensures
            r,
            final(self).after(old(self)),
            final(self).waits() == old(self).waits(),
            final(self).connected() == old(self).connected(),
            reads_calib(final(self).since(old(self))),
            final(self).coeff() == calib_from(final(self).since(old(self))),
    {
        let ghost o = *self;
        let v0 = self.read16bit(Bmp180Reg::AC1_REG);
        let ghost q0 = *self;
        self._calib_coeff._AC1 = #[verifier::truncate] (v0 as i16);
        let v1 = self.read16bit(Bmp180Reg::AC3_REG);
        let ghost q1 = *self;
        self._calib_coeff._AC3 = #[verifier::truncate] (v1 as i16);
        let v2 = self.read16bit(Bmp180Reg::AC2_REG);
        let ghost q2 = *self;
        self._calib_coeff._AC2 = #[verifier::truncate] (v2 as i16);
        let v3 = self.read16bit(Bmp180Reg::AC5_REG);
        let ghost q3 = *self;
        self._calib_coeff._AC5 = v3;
        let v4 = self.read16bit(Bmp180Reg::AC4_REG);
        let ghost q4 = *self;
        self._calib_coeff._AC4 = v4;
        let v5 = self.read16bit(Bmp180Reg::AC6_REG);
        let ghost q5 = *self;
        self._calib_coeff._AC6 = v5;
        let v6 = self.read16bit(Bmp180Reg::B1_REG);
        let ghost q6 = *self;
        self._calib_coeff._B1 = #[verifier::truncate] (v6 as i16);
        let v7 = self.read16bit(Bmp180Reg::B2_REG);
        let ghost q7 = *self;
        self._calib_coeff._B2 = #[verifier::truncate] (v7 as i16);
        let v8 = self.read16bit(Bmp180Reg::MB_REG);
        let ghost q8 = *self;
        self._calib_coeff._MB = #[verifier::truncate] (v8 as i16);
        let v9 = self.read16bit(Bmp180Reg::MC_REG);
        let ghost q9 = *self;
        self._calib_coeff._MC = #[verifier::truncate] (v9 as i16);
        let v10 = self.read16bit(Bmp180Reg::MD_REG);
        let ghost q10 = *self;
        self._calib_coeff._MD = #[verifier::truncate] (v10 as i16);
        proof {
            assert(q0.after(&o));
            Self::lemma_after_trans(&o, &q0, &q1);
            Self::lemma_after_trans(&o, &q1, &q2);
            Self::lemma_after_trans(&o, &q2, &q3);
            Self::lemma_after_trans(&o, &q3, &q4);
            Self::lemma_after_trans(&o, &q4, &q5);
            Self::lemma_after_trans(&o, &q5, &q6);
            Self::lemma_after_trans(&o, &q6, &q7);
            Self::lemma_after_trans(&o, &q7, &q8);
            Self::lemma_after_trans(&o, &q8, &q9);
            Self::lemma_after_trans(&o, &q9, &q10);
            let t = q10.since(&o);
            assert(t.len() == 11);
            assert(t =~= q0.since(&o) + q1.since(&q0) + q2.since(&q1) + q3.since(&q2) + q4.since(&q3) + q5.since(&q4) + q6.since(&q5) + q7.since(&q6) + q8.since(&q7) + q9.since(&q8) + q10.since(&q9));
            assert(self.since(&o) == t);
            assert(reads_calib(t));
            assert(self.coeff() == calib_from(t));
        }
        true
    }

    /// Check the chip ID; when it is a BMP180's, count as connected and
    /// read the calibration.
    pub fn begin(&mut self) -> (r: bool)
        requires
            old(self).wf(),
        ensures
            final(self).after(old(self)),
            final(self).waits() == old(self).waits(),
            final(self).since(old(self)).len() >= 1,
            reads8(final(self).since(old(self))[0], 0xD0),
            r == (read8_value(final(self).since(old(self))[0]) == BMP180_CHIP_ID),
            r ==> final(self).connected() && reads_calib(final(self).since(old(self)).skip(1)) && final(self).coeff()
                == calib_from(final(self).since(old(self)).skip(1)),
            !r ==> final(self).since(old(self)).len() == 1 && final(self).connected() == old(self).connected()
                && final(self).coeff() == old(self).coeff(),
    {
        let ghost o = *self;
        if self.get_device_id() != BMP180_CHIP_ID {
            return false;
        }
        self._is_connected = true;
        let ghost q1 = *self;
        let ok = self.read_calibration_coefficients();
        proof {
            Self::lemma_after_trans(&o, &q1, self);
            assert(self.since(&o).skip(1) =~= self.since(&q1));
        }
        ok
    }

    /// Probe the chip; when it answers and was not connected before, run
    /// `begin` (its result ignored). Whether it answered becomes the
    /// connection flag.
    pub fn ping(&mut self) -> (r: bool)
        requires
            old(self).wf(),
        ensures
            final(self).after(old(self)),
            final(self).waits() == old(self).waits(),
            final(self).connected() == r,
            final(self).since(old(self)).len() >= 1,
            final(self).since(old(self))[0] matches BmpTxn::Probe(s) && r == (s == 0),
            !(!old(self).connected() && r) ==> final(self).since(old(self)).len() == 1 && final(self).coeff() == old(
                self,
            ).coeff(),
            !old(self).connected() && r ==> {
                let t = final(self).since(old(self)).skip(1);
                &&& t.len() >= 1
                &&& reads8(t[0], 0xD0)
                &&& if read8_value(t[0]) == BMP180_CHIP_ID {
                    reads_calib(t.skip(1)) && final(self).coeff() == calib_from(t.skip(1))
                } else {
                    t.len() == 1 && final(self).coeff() == old(self).coeff()
                }
            },
    {
        let ghost o = *self;
        let get_connect_sts = self.write_address();
        if !self._is_connected && get_connect_sts {
            let ghost q1 = *self;
            self.begin();
            proof {
                Self::lemma_after_trans(&o, &q1, self);
                assert(self.since(&o).skip(1) =~= self.since(&q1));
            }
        }
        self._is_connected = get_connect_sts;
        get_connect_sts
    }

    /// Measure the raw temperature: the command, a 5 ms wait, the result;
    /// `BMP180_ERROR` when the command was not acknowledged.
    fn read_raw_temperature(&mut self) -> (r: u16)
        requires
            old(self).wf(),
        ensures
            final(self).after(old(self)),
            final(self).connected() == old(self).connected(),
            final(self).coeff() == old(self).coeff(),
            temp_read(final(self).since(old(self)), final(self).waited(old(self)), r),
            r == temp_value(final(self).since(old(self))),
    {
        let ghost o = *self;
        if !self.write8bit(Bmp180Reg::CONTROL_REG, BMP180_GET_TEMPERATURE) {
            proof {
                assert(self.waited(&o) =~= Seq::<u16>::empty());
            }
            return BMP180_ERROR as u16;
        }
        let ghost q1 = *self;
        self.delay.delay_ms(5);
        let ghost q2 = *self;
        proof {
            assert(q2.txns() == q1.txns());
            assert(q2.waits().take(q1.waits().len() as int) =~= q1.waits());
            assert(q2.txns().take(q1.txns().len() as int) =~= q1.txns());
            assert(q2.after(&q1));
        }
        let v = self.read16bit(Bmp180Reg::ADC_OUT_MSB_REG);
        proof {
            Self::lemma_after_trans(&o, &q1, &q2);
            Self::lemma_after_trans(&o, &q2, self);
            assert(q1.waited(&o) =~= Seq::<u16>::empty());
            assert(q2.waited(&q1) =~= seq![5u16]);
            assert(self.waited(&q2) =~= Seq::<u16>::empty());
            assert(q2.since(&q1) =~= Seq::<BmpTxn>::empty());
            assert(self.waited(&o) =~= seq![5u16]);
        }
        v
    }

    /// Measure the raw pressure at the set oversampling: the command, its
    /// wait, the two-byte result and the extra low byte, combined into the
    /// raw value; `BMP180_ERROR` when the command was not acknowledged or
    /// the result read the error code.
    fn read_raw_pressure(&mut self) -> (r: u32)
        requires
            old(self).wf(),
        ensures
            final(self).after(old(self)),
            final(self).connected() == old(self).connected(),
            final(self).coeff() == old(self).coeff(),
            pressure_read(final(self).since(old(self)), final(self).waited(old(self)), old(self).accuracy(), r),
            r == pressure_value(final(self).since(old(self)), old(self).accuracy()),
            r <= 0xFF_FFFF,
    {
        let ghost o = *self;
        let reg_val: u8;
        let delay_ms: u8;
        match self._accuracy {
            0 => {
                reg_val = BMP180_GET_PRESSURE_OSS0;
                delay_ms = 5;
            },
            1 => {
                reg_val = BMP180_GET_PRESSURE_OSS1;
                delay_ms = 8;
            },
            2 => {
                reg_val = BMP180_GET_PRESSURE_OSS2;
                delay_ms = 14;
            },
            _ => {
                reg_val = BMP180_GET_PRESSURE_OSS3;
                delay_ms = 26;
            },
        }
        if !self.write8bit(Bmp180Reg::CONTROL_REG, reg_val) {
            proof {
                assert(self.waited(&o) =~= Seq::<u16>::empty());
            }
            return BMP180_ERROR as u32;
        }
        let ghost q1 = *self;
        self.delay.delay_ms(delay_ms as u16);
        let ghost q2 = *self;
        proof {
            assert(q2.txns() == q1.txns());
            assert(q2.waits().take(q1.waits().len() as int) =~= q1.waits());
            assert(q2.txns().take(q1.txns().len() as int) =~= q1.txns());
            assert(q2.after(&q1));
            Self::lemma_after_trans(&o, &q1, &q2);
            assert(q1.waited(&o) =~= Seq::<u16>::empty());
            assert(q2.waited(&q1) =~= seq![delay_ms as u16]);
            assert(q2.since(&q1) =~= Seq::<BmpTxn>::empty());
        }
        let val = self.read16bit(Bmp180Reg::ADC_OUT_MSB_REG);
        let ghost q3 = *self;
        proof {
            Self::lemma_after_trans(&o, &q2, &q3);
            assert(q3.waited(&q2) =~= Seq::<u16>::empty());
            assert(q3.waited(&o) =~= seq![delay_ms as u16]);
        }
        if val == BMP180_ERROR as u16 {
            return BMP180_ERROR as u32;
        }
        let mut raw_pressure: u32 = val as u32;
        raw_pressure = raw_pressure << 8u32;
        let x = self.read8bit(Bmp180Reg::ADC_OUT_XLSB_REG);
        raw_pressure = raw_pressure | x as u32;
        let sh: u32 = (8 - self._accuracy) as u32;
        assert(((((val as u32) << 8u32) | (x as u32)) >> sh) <= 0xFF_FFFFu32) by (bit_vector)
            requires 5 <= sh <= 8;
        raw_pressure = raw_pressure >> sh;
        proof {
            Self::lemma_after_trans(&o, &q3, self);
            assert(self.waited(&q3) =~= Seq::<u16>::empty());
            assert(self.waited(&o) =~= seq![delay_ms as u16]);
        }
        raw_pressure
    }

    /// The compensated pressure in Pa: a temperature and a pressure
    /// measurement through the datasheet's integer compensation;
    /// `BMP180_ERROR` when a measurement failed, `b4` was 0, or the
    /// compensation's 32-bit arithmetic would overflow or divide by zero.
    pub fn get_pressure(&mut self) -> (r: i32)
        requires
            old(self).wf(),
        ensures
            final(self).after(old(self)),
            final(self).connected() == old(self).connected(),
            final(self).coeff() == old(self).coeff(),
            ({
                let t = final(self).since(old(self));
                let w = final(self).waited(old(self));
                let n = temp_len(t);
                let ut = temp_value(t);
                &&& n <= t.len()
                &&& temp_read(t.take(n), w.take(n - 1), ut)
                &&& if ut == BMP180_ERROR as u16 {
                    t.len() == n && w.len() == n - 1 && r == BMP180_ERROR as i32
                } else {
                    let up = pressure_value(t.skip(n), old(self).accuracy());
                    &&& pressure_read(t.skip(n), w.skip(n - 1), old(self).accuracy(), up)
                    &&& r == if up == BMP180_ERROR as u32 {
                        BMP180_ERROR as i32
                    } else {
                        match pressure_spec(old(self).coeff(), old(self).accuracy(), ut as int, up as int) {
                            Some(p) => p as i32,
                            None => BMP180_ERROR as i32,
                        }
                    }
                }
            }),
    {
        let ghost o = *self;
        let ut16 = self.read_raw_temperature();
        let ghost q1 = *self;
        let ut = ut16 as i32;
        if ut == BMP180_ERROR as i32 {
            proof {
                let t = self.since(&o);
                let w = self.waited(&o);
                assert(t.take(temp_len(t)) =~= t);
                assert(w.take(temp_len(t) - 1) =~= w);
            }
            return BMP180_ERROR as i32;
        }
        let up32 = self.read_raw_pressure();
        proof {
            Self::lemma_after_trans(&o, &q1, self);
            let t = self.since(&o);
            let w = self.waited(&o);
            assert(t[0] == q1.since(&o)[0]);
            assert(t.take(temp_len(t)) =~= q1.since(&o));
            assert(t.skip(temp_len(t)) =~= self.since(&q1));
            assert(w.take(temp_len(t) - 1) =~= q1.waited(&o));
            assert(w.skip(temp_len(t) - 1) =~= self.waited(&q1));
        }
        let up = up32 as i32;
        if up == BMP180_ERROR as i32 {
            return BMP180_ERROR as i32;
        }
        match compensate_pressure(&self._calib_coeff, self._accuracy, ut, up) {
            Some(p) => p,
            None => BMP180_ERROR as i32,
        }
    }

    /// The temperature in tenths of a degree Celsius, `(b5 + 8) >> 4` of a
    /// raw measurement; none when the measurement failed (read the error
    /// code) or the 32-bit arithmetic of `b5` or `b5 + 8` would overflow or
    /// divide by zero.
    pub fn get_temperature_tenths(&mut self) -> (r: Option<i32>)
        requires
            old(self).wf(),
        ensures
            final(self).after(old(self)),
            final(self).connected() == old(self).connected(),
            final(self).coeff() == old(self).coeff(),
            temp_read(final(self).since(old(self)), final(self).waited(old(self)), temp_value(final(self).since(old(self)))),
            r == if temp_value(final(self).since(old(self))) == BMP180_ERROR as u16 {
                None
            } else {
                match b5_spec(old(self).coeff(), temp_value(final(self).since(old(self))) as int) {
                    Some(b5) => if i32_fits(b5 + 8) {
                        Some(asr(b5 + 8, 4) as i32)
                    } else {
                        None::<i32>
                    },
                    None => None::<i32>,
                }
            },
    {
        let ut = self.read_raw_temperature();
        if ut == BMP180_ERROR as u16 {
            return None;
        }
        match compute_b5(&self._calib_coeff, ut as i32) {
            Some(b5) => {
                if b5 > 0x7FFF_FFF7 {
                    return None;
                }
                Some((b5 + 8) >> 4u32)
            },
            None => None,
        }
    }

}

} // verus!
