//! Driver for the MPU6050 accelerometer and gyroscope on I2C: its
//! configuration registers, motion detection, and raw readings.
//!
//! Every exchange with the chip is recorded in a ghost log of transactions
//! (`AgTxn`); the contracts say which transactions each call makes and how
//! its result follows from what the chip answered. Scaling readings to
//! physical units, tilt angles and calibration averages are floating point
//! and are left to callers, who get raw values and range codes here.
use vstd::prelude::*;

verus! {

pub const MPU6050_ADDRESS_AD0_LOW: u8 = 0x68;
pub const MPU6050_ADDRESS_AD0_HIGH: u8 = 0x69;
pub const MPU6050_XA_OFFS_USRH_REG: u8 = 0x06;
pub const MPU6050_XG_OFFS_USRH_REG: u8 = 0x13;
pub const MPU6050_SMPLRT_DIV_REG: u8 = 0x19;
pub const MPU6050_CONFIG_REG: u8 = 0x1A;
pub const MPU6050_GYRO_CONFIG_REG: u8 = 0x1B;
pub const MPU6050_ACCEL_CONFIG_REG: u8 = 0x1C;
pub const MPU6050_MOTION_THR: u8 = 0x1F;
pub const MPU6050_MOTION_DUR: u8 = 0x20;
pub const MPU6050_ZERO_MOTION_THR: u8 = 0x21;
pub const MPU6050_ZERO_MOTION_DUR: u8 = 0x22;
pub const MPU6050_INT_ENABLE: u8 = 0x38;
pub const MPU6050_INT_STATUS: u8 = 0x3A;
pub const MPU6050_ACCEL_XOUT_H_REG: u8 = 0x3B;
pub const MPU6050_ACCEL_YOUT_H_REG: u8 = 0x3D;
pub const MPU6050_ACCEL_ZOUT_H_REG: u8 = 0x3F;
pub const MPU6050_TEMP_OUT_H_REG: u8 = 0x41;
pub const MPU6050_GYRO_XOUT_H_REG: u8 = 0x43;
pub const MPU6050_GYRO_YOUT_H_REG: u8 = 0x45;
pub const MPU6050_GYRO_ZOUT_H_REG: u8 = 0x47;
pub const MPU6050_SIGNAL_PATH_RESET_REG: u8 = 0x68;
pub const MPU6050_USER_CTRL_REG: u8 = 0x6A;
pub const MPU6050_PWR_MGMT_1_REG: u8 = 0x6B;
pub const MPU6050_PWR_MGMT_2_REG: u8 = 0x6C;
pub const MPU6050_WHO_AM_I_REG: u8 = 0x75;

pub const MPU_GYRO_CONFIG_FS_SEL_MASK: u8 = 0x18;
pub const MPU_GYRO_CONFIG_FS_SEL_POS: u8 = 0x03;
pub const MPU_GYRO_CONFIG_FS_SEL_250: u8 = 0x00;
pub const MPU_ACCEL_CONFIG_FS_SEL_MASK: u8 = 0x18;
pub const MPU_ACCEL_CONFIG_FS_SEL_POS: u8 = 0x03;
pub const MPU_ACCEL_CONFIG_FS_SEL_2g: u8 = 0x00;
pub const MPU_SIGNAL_PATH_GYRO_RESET_MSK: u8 = 0x04;
pub const MPU_SIGNAL_PATH_ACCEL_RESET_MSK: u8 = 0x02;
pub const MPU_SIGNAL_PATH_TEMP_RESET_MSK: u8 = 0x01;
pub const MPU_PWR_MGMT_1_DEVICE_RESET_MSK: u8 = 0x80;
pub const MPU_PWR_MGMT_1_SLEEP_MSK: u8 = 0x40;
pub const MPU_PWR_MGMT_1_CYCLE_MSK: u8 = 0x20;
pub const MPU_PWR_MGMT_1_TEMP_DIS_MSK: u8 = 0x08;
pub const MPU_PWR_MGMT_1_CLKSEL_MSK: u8 = 0x07;
pub const MPU_PWR_MGMT_1_CLKSEL_POS: u8 = 0x00;
pub const MPU6050_CLOCK_PLL_XGYRO: u8 = 0x01;
pub const MPU_PWR_MGMT_2_LP_WAKE_CTRL_MSK: u8 = 0xC0;
pub const MPU_PWR_MGMT_2_LP_WAKE_CTRL_POS: u8 = 0x06;
pub const MPU_PWR_MGMT_2_LP_STBY_XA_MSK: u8 = 0x20;
pub const MPU_PWR_MGMT_2_LP_STBY_YA_MSK: u8 = 0x10;
pub const MPU_PWR_MGMT_2_LP_STBY_ZA_MSK: u8 = 0x08;
pub const MPU_PWR_MGMT_2_LP_STBY_XG_MSK: u8 = 0x04;
pub const MPU_PWR_MGMT_2_LP_STBY_YG_MSK: u8 = 0x02;
pub const MPU_PWR_MGMT_2_LP_STBY_ZG_MSK: u8 = 0x01;
pub const MPU_INT_MOTION_DETECT_MSK: u8 = 0x40;
pub const MPU_INT_ZMOTION_DETECT_MSK: u8 = 0x20;
pub const MPU_WHO_AM_I_MSK: u8 = 0x7E;
/// What a range getter returns when the register could not be read.
pub const RANGE_UNKNOWN: u8 = 0x0F;

/// One operation on this sensor's I2C bus, with what it returned.
pub enum AgOp {
    Begin(u8),
    Write(u8),
    /// The end of a transmission and its status (0 on success).
    End(u8),
    /// A request: address and count.
    Request(u8, u8),
    Read(u8),
}

/// The I2C bus. `ops` is what was done on it so far; `pending` is what
/// `available` reports now.
pub trait I2CBus {
    spec fn ops(&self) -> Seq<AgOp>;

    spec fn pending(&self) -> u8;

    fn begin_transmission(&mut self, address: u8)
        ensures
            final(self).ops() == old(self).ops().push(AgOp::Begin(address)),
    ;

    fn write_byte(&mut self, data: u8)
        ensures
            final(self).ops() == old(self).ops().push(AgOp::Write(data)),
    ;

    fn end_transmission(&mut self) -> (r: u8)
        ensures
            final(self).ops() == old(self).ops().push(AgOp::End(r)),
    ;

    fn request_from(&mut self, address: u8, count: u8)
        ensures
            final(self).ops() == old(self).ops().push(AgOp::Request(address, count)),
    ;

    fn read_byte(&mut self) -> (r: u8)
        ensures
            final(self).ops() == old(self).ops().push(AgOp::Read(r)),
    ;

    fn available(&self) -> (r: u8)
        ensures
            r == self.pending(),
    ;
}

/// A delay provider; `waits` are the delays asked for so far, in ms.
pub trait DelayMs {
    spec fn waits(&self) -> Seq<u16>;

    fn delay_ms(&mut self, ms: u16)
        ensures
            final(self).waits() == old(self).waits().push(ms),
    ;
}

/// One exchange with the chip, with what the bus returned.
pub enum AgTxn {
    /// The address alone, and the end status.
    Probe(u8),
    /// A write to a register: register, data bytes, end status.
    Write(u8, Seq<u8>, u8),
    /// A read of a register: register, end status, count, and the bytes
    /// when exactly that many were available.
    Read(u8, u8, u8, Option<Seq<u8>>),
}

pub open spec fn ag_ops(a: u8, t: AgTxn) -> Seq<AgOp> {
    match t {
        AgTxn::Probe(s) => seq![AgOp::Begin(a), AgOp::End(s)],
        AgTxn::Write(reg, d, s) => seq![AgOp::Begin(a), AgOp::Write(reg)] + d.map_values(|v: u8| AgOp::Write(v))
            + seq![AgOp::End(s)],
        AgTxn::Read(reg, s, n, b) => seq![AgOp::Begin(a), AgOp::Write(reg), AgOp::End(s)] + if s != 0 {
            seq![]
        } else {
            seq![AgOp::Request(a, n)] + match b {
                Some(bs) => bs.map_values(|v: u8| AgOp::Read(v)),
                None => seq![],
            }
        },
    }
}

pub open spec fn ag_ops_all(a: u8, ts: Seq<AgTxn>) -> Seq<AgOp>
    decreases ts.len(),
{
    if ts.len() == 0 {
        seq![]
    } else {
        ag_ops_all(a, ts.drop_last()) + ag_ops(a, ts.last())
    }
}

/// `t` reads `n` bytes of register `reg`, holding `n` bytes when it holds any.
pub open spec fn reads(t: AgTxn, reg: u8, n: u8) -> bool {
    t matches AgTxn::Read(g, _, m, b) && g == reg && m == n && (b is Some ==> b->0.len() == n)
}

/// The bytes a read brought back, when it succeeded.
pub open spec fn got(t: AgTxn) -> Option<Seq<u8>> {
    match t {
        AgTxn::Read(_, s, _, b) => if s == 0 {
            b
        } else {
            None
        },
        _ => None,
    }
}

pub open spec fn byte_of(t: AgTxn) -> u8 {
    got(t)->0[0]
}

/// `t` writes `d` to register `reg`.
pub open spec fn writes(t: AgTxn, reg: u8, d: Seq<u8>) -> bool {
    t matches AgTxn::Write(g, e, _) && g == reg && e == d
}

/// Whether a write was acknowledged.
pub open spec fn written(t: AgTxn) -> bool {
    t matches AgTxn::Write(_, _, s) && s == 0
}

/// The byte `v` with the bits of `clear` cleared and those of `set` set.
pub open spec fn changed(v: u8, clear: u8, set: u8) -> u8 {
    (v & !clear) | set
}

/// `t` is a read-modify-write: a read of `reg` and, when it succeeded,
/// the changed byte written to `wreg`; `r` is whether both succeeded.
pub open spec fn rmw(t: Seq<AgTxn>, reg: u8, wreg: u8, clear: u8, set: u8, r: bool) -> bool {
    &&& t.len() >= 1
    &&& reads(t[0], reg, 1)
    &&& if got(t[0]) is None {
        t.len() == 1 && !r
    } else {
        t.len() == 2 && writes(t[1], wreg, seq![changed(byte_of(t[0]), clear, set)]) && r == written(t[1])
    }
}

/// `t` is a one-byte read of `reg`, and `r` is whether it succeeded with
/// a bit of `mask` set.
pub open spec fn flag_read(t: Seq<AgTxn>, reg: u8, mask: u8, r: bool) -> bool {
    &&& t.len() == 1
    &&& reads(t[0], reg, 1)
    &&& r == (got(t[0]) is Some && byte_of(t[0]) & mask != 0)
}

/// `t` is a one-byte read of `reg`, and `r` the bits of `mask` shifted
/// down by `pos`, or `dflt` when the read failed.
pub open spec fn field_read(t: Seq<AgTxn>, reg: u8, mask: u8, pos: u8, dflt: u8, r: u8) -> bool {
    &&& t.len() == 1
    &&& reads(t[0], reg, 1)
    &&& r == if got(t[0]) is Some {
        (byte_of(t[0]) & mask) >> pos
    } else {
        dflt
    }
}

/// `t` is a one-byte write of `v` to `reg`, and `r` whether it was
/// acknowledged.
pub open spec fn put(t: Seq<AgTxn>, reg: u8, v: u8, r: bool) -> bool {
    t.len() == 1 && writes(t[0], reg, seq![v]) && r == written(t[0])
}

/// The value of a big-endian pair of bytes as a signed 16-bit number.
pub open spec fn be_i16(h: u8, l: u8) -> i16 {
    (h * 256 + l) as i16
}

/// Three big-endian signed values from six bytes.
pub open spec fn triple(d: Seq<u8>) -> (i16, i16, i16) {
    (be_i16(d[0], d[1]), be_i16(d[2], d[3]), be_i16(d[4], d[5]))
}

/// The high and low bytes of a signed value, high first.
pub open spec fn be_bytes(v: i16) -> Seq<u8> {
    seq![(v >> 8u16) as u8, (v & 0xFF) as u8]
}

/// The big-endian pair `h`, `l` as a signed 16-bit value.
fn be_pair(h: u8, l: u8) -> (r: i16)
    ensures
        r == be_i16(h, l),
{
    let u: u16 = ((h as u16) << 8u16) | (l as u16);
    proof {
        crate::bits::lemma_be16();
    }
    #[verifier::truncate]
    (u as i16)
}

/// One configuration step of `begin`.
pub enum Step {
    /// Read a register, change its bits, write it back.
    Change(u8, u8, u8),
    /// Write a value to a register.
    Put(u8, u8),
}

/// How many transactions step `s` took at the front of `t`.
pub open spec fn step_len(t: Seq<AgTxn>, s: Step) -> int {
    match s {
        Step::Change(_, _, _) => if got(t[0]) is Some {
            2
        } else {
            1
        },
        Step::Put(_, _) => 1,
    }
}

/// `t` is exactly step `s`, and `ok` is whether it succeeded.
pub open spec fn step_run(t: Seq<AgTxn>, s: Step, ok: bool) -> bool {
    match s {
        Step::Change(reg, clear, set) => rmw(t, reg, reg, clear, set, ok),
        Step::Put(reg, v) => put(t, reg, v, ok),
    }
}

/// `t` runs the steps `ss` in order, stopping at the first that failed;
/// `r` is whether all succeeded.
pub open spec fn steps_run(t: Seq<AgTxn>, ss: Seq<Step>, r: bool) -> bool
    decreases ss.len(),
{
    if ss.len() == 0 {
        t.len() == 0 && r
    } else {
        let k = step_len(t, ss[0]);
        &&& t.len() >= 1
        &&& k <= t.len()
        &&& if step_run(t.take(k), ss[0], true) {
            steps_run(t.skip(k), ss.drop_first(), r)
        } else {
            step_run(t, ss[0], false) && !r
        }
    }
}

proof fn lemma_step_len(t: Seq<AgTxn>, s: Step, ok: bool)
    requires
        step_run(t, s, ok),
    ensures
        step_len(t, s) == t.len(),
{
}

/// Running one more step after a successful run of `ss`.
proof fn lemma_steps_extend(a: Seq<AgTxn>, ss: Seq<Step>, b: Seq<AgTxn>, s: Step, ok: bool)
    requires
        steps_run(a, ss, true),
        step_run(b, s, ok),
    ensures
        steps_run(a + b, ss.push(s), ok),
    decreases ss.len(),
{
    lemma_step_len(b, s, ok);
    lemma_step_unique(b, s);
    let k0 = step_len(a + b, ss.push(s)[0]);
    if ss.len() == 0 {
        assert(a + b =~= b);
        assert(ss.push(s) =~= seq![s]);
        assert(ss.push(s)[0] == s);
        assert(b.take(step_len(b, s)) =~= b);
        assert(b.skip(step_len(b, s)) =~= Seq::<AgTxn>::empty());
        assert(seq![s].drop_first() =~= Seq::<Step>::empty());
        assert(steps_run(Seq::<AgTxn>::empty(), Seq::<Step>::empty(), true));
        if ok {
            assert(step_run((a + b).take(k0), ss.push(s)[0], true));
            assert(steps_run((a + b).skip(k0), ss.push(s).drop_first(), ok));
        } else {
            assert(!step_run((a + b).take(k0), ss.push(s)[0], true));
        }
    } else {
        let k = step_len(a, ss[0]);
        assert(ss.push(s)[0] == ss[0]);
        assert((a + b).take(k) =~= a.take(k));
        assert(step_len(a + b, ss[0]) == k);
        assert(step_run(a.take(k), ss[0], true));
        assert((a + b).skip(k) =~= a.skip(k) + b);
        assert(ss.push(s).drop_first() =~= ss.drop_first().push(s));
        lemma_steps_extend(a.skip(k), ss.drop_first(), b, s, ok);
    }
}

proof fn lemma_step_unique(t: Seq<AgTxn>, s: Step)
    ensures
        !(step_run(t, s, true) && step_run(t, s, false)),
{
}

/// A failed run stays failed whatever steps would have followed.
proof fn lemma_steps_stop(t: Seq<AgTxn>, ss: Seq<Step>, more: Seq<Step>)
    requires
        steps_run(t, ss, false),
    ensures
        steps_run(t, ss + more, false),
    decreases ss.len(),
{
    if ss.len() == 0 {
    } else {
        assert((ss + more)[0] == ss[0]);
        assert((ss + more).drop_first() =~= ss.drop_first() + more);
        let k = step_len(t, ss[0]);
        if step_run(t.take(k), ss[0], true) {
            lemma_steps_stop(t.skip(k), ss.drop_first(), more);
        }
    }
}

/// The configuration steps of `begin`: clock from the X gyro, 250 dps,
/// 2 g, awake, zero-motion interrupt off, motion interrupt on, and the
/// motion and zero-motion thresholds and durations.
pub open spec fn begin_steps() -> Seq<Step> {
    seq![
        Step::Change(MPU6050_PWR_MGMT_1_REG, MPU_PWR_MGMT_1_CLKSEL_MSK, MPU6050_CLOCK_PLL_XGYRO),
        Step::Change(MPU6050_GYRO_CONFIG_REG, MPU_GYRO_CONFIG_FS_SEL_MASK, 0),
        Step::Change(MPU6050_ACCEL_CONFIG_REG, MPU_ACCEL_CONFIG_FS_SEL_MASK, 0),
        Step::Change(MPU6050_PWR_MGMT_1_REG, MPU_PWR_MGMT_1_SLEEP_MSK, 0),
        Step::Change(MPU6050_INT_ENABLE, MPU_INT_ZMOTION_DETECT_MSK, 0),
        Step::Change(MPU6050_INT_ENABLE, MPU_INT_MOTION_DETECT_MSK, MPU_INT_MOTION_DETECT_MSK),
        Step::Put(MPU6050_MOTION_THR, 2),
        Step::Put(MPU6050_ZERO_MOTION_THR, 2),
        Step::Put(MPU6050_MOTION_DUR, 40),
        Step::Put(MPU6050_ZERO_MOTION_DUR, 1),
    ]
}

fn begin_step(i: usize) -> (r: Step)
    requires
        i < 10,
    ensures
        r == begin_steps()[i as int],
{
    match i {
        0 => Step::Change(MPU6050_PWR_MGMT_1_REG, MPU_PWR_MGMT_1_CLKSEL_MSK, MPU6050_CLOCK_PLL_XGYRO),
        1 => Step::Change(MPU6050_GYRO_CONFIG_REG, MPU_GYRO_CONFIG_FS_SEL_MASK, 0),
        2 => Step::Change(MPU6050_ACCEL_CONFIG_REG, MPU_ACCEL_CONFIG_FS_SEL_MASK, 0),
        3 => Step::Change(MPU6050_PWR_MGMT_1_REG, MPU_PWR_MGMT_1_SLEEP_MSK, 0),
        4 => Step::Change(MPU6050_INT_ENABLE, MPU_INT_ZMOTION_DETECT_MSK, 0),
        5 => Step::Change(MPU6050_INT_ENABLE, MPU_INT_MOTION_DETECT_MSK, MPU_INT_MOTION_DETECT_MSK),
        6 => Step::Put(MPU6050_MOTION_THR, 2),
        7 => Step::Put(MPU6050_ZERO_MOTION_THR, 2),
        8 => Step::Put(MPU6050_MOTION_DUR, 40),
        _ => Step::Put(MPU6050_ZERO_MOTION_DUR, 1),
    }
}

/// The state of an MPU6050 driver.
pub struct AccelAndGyro<I2C: I2CBus, D: DelayMs> {
    i2c_slave_address: u8,
    is_connected: bool,
    i2c: I2C,
    delay: D,
    base: Ghost<Seq<AgOp>>,
    log: Ghost<Seq<AgTxn>>,
}

impl<I2C: I2CBus, D: DelayMs> AccelAndGyro<I2C, D> {
    /// The transactions with the chip so far.
    pub closed spec fn txns(&self) -> Seq<AgTxn> {
        self.log@
    }

    /// The delays asked for so far.
    pub closed spec fn waits(&self) -> Seq<u16> {
        self.delay.waits()
    }

    /// What was on the bus before the driver took it.
    pub closed spec fn bus_before(&self) -> Seq<AgOp> {
        self.base@
    }

    /// The chip's address.
    pub closed spec fn address(&self) -> u8 {
        self.i2c_slave_address
    }

    /// Whether the chip counts as connected.
    pub closed spec fn connected(&self) -> bool {
        self.is_connected
    }

    /// The bus holds what was there before plus the transactions.
    pub closed spec fn wf(&self) -> bool {
        self.i2c.ops() == self.base@ + ag_ops_all(self.i2c_slave_address, self.log@)
    }

    /// The transactions since state `o`.
    pub open spec fn since(&self, o: &Self) -> Seq<AgTxn> {
        self.txns().skip(o.txns().len() as int)
    }

    /// This state follows `o`: its transactions continue `o`'s, with the
    /// same address and no delays.
    pub open spec fn after(&self, o: &Self) -> bool {
        &&& self.wf()
        &&& o.txns().len() <= self.txns().len()
        &&& self.txns().take(o.txns().len() as int) == o.txns()
        &&& self.waits() == o.waits()
        &&& self.bus_before() == o.bus_before()
        &&& self.address() == o.address()
    }

    /// Only transactions happened.
    pub open spec fn only_io(&self, o: &Self) -> bool {
        self.after(o) && self.connected() == o.connected()
    }

    proof fn lemma_after_trans(a: &Self, b: &Self, c: &Self)
        requires
            b.after(a),
            c.after(b),
        ensures
            c.after(a),
            c.since(a) == b.since(a) + c.since(b),
    {
        assert(c.txns().take(a.txns().len() as int) =~= c.txns().take(b.txns().len() as int).take(
            a.txns().len() as int,
        ));
        assert(c.txns() =~= c.txns().take(b.txns().len() as int) + c.since(b));
        assert(b.txns() =~= b.txns().take(a.txns().len() as int) + b.since(a));
        assert(c.since(a) =~= b.since(a) + c.since(b));
    }

    /// A driver for the chip at `i2c_add` (0x69 when none is given), not
    /// yet connected.
    pub fn new(i2c: I2C, delay: D, i2c_add: Option<u8>) -> (r: Self)
        ensures
            r.wf(),
            r.txns() == Seq::<AgTxn>::empty(),
            r.bus_before() == i2c.ops(),
            r.waits() == delay.waits(),
            r.address() == match i2c_add {
                Some(a) => a,
                None => MPU6050_ADDRESS_AD0_HIGH,
            },
            !r.connected(),
    {
        let address = match i2c_add {
            Some(a) => a,
            None => MPU6050_ADDRESS_AD0_HIGH,
        };
        let ghost b = i2c.ops();
        let r = AccelAndGyro {
            i2c_slave_address: address,
            is_connected: false,
            i2c,
            delay,
            base: Ghost(b),
            log: Ghost(Seq::empty()),
        };
        assert(r.i2c.ops() =~= r.base@ + ag_ops_all(address, r.log@));
        r
    }

    fn log_txn(&mut self, Ghost(o0): Ghost<Seq<AgOp>>, Ghost(t): Ghost<AgTxn>)
        requires
            o0 == old(self).base@ + ag_ops_all(old(self).i2c_slave_address, old(self).log@),
            old(self).i2c.ops() == o0 + ag_ops(old(self).i2c_slave_address, t),
        ensures
            final(self).only_io(old(self)),
            final(self).since(old(self)) == seq![t],
    {
        let ghost l0 = self.log@;
        proof {
            assert(l0.push(t).drop_last() =~= l0);
        }
        self.log = Ghost(self.log@.push(t));
        assert(self.i2c.ops() =~= self.base@ + ag_ops_all(self.i2c_slave_address, self.log@));
        assert(self.log@.take(l0.len() as int) =~= l0);
        assert(self.log@.skip(l0.len() as int) =~= seq![t]);
    }

    /// Read `n` bytes of register `reg`; none when the chip did not
    /// acknowledge or not exactly `n` bytes were available.
    fn read_multi_bytes(&mut self, reg: u8, n: u8) -> (r: Option<Vec<u8>>)
        requires
            old(self).wf(),
        ensures
            final(self).only_io(old(self)),
            final(self).since(old(self)).len() == 1,
            reads(final(self).since(old(self))[0], reg, n),
            match r {
                Some(v) => got(final(self).since(old(self))[0]) == Some(v@),
                None => got(final(self).since(old(self))[0]) is None,
            },
    {
        let addr = self.i2c_slave_address;
        let ghost o0 = self.i2c.ops();
        self.i2c.begin_transmission(addr);
        self.i2c.write_byte(reg);
        let s = self.i2c.end_transmission();
        if s != 0 {
            let ghost t = AgTxn::Read(reg, s, n, None);
            assert(self.i2c.ops() =~= o0 + ag_ops(addr, t));
            self.log_txn(Ghost(o0), Ghost(t));
            return None;
        }
        self.i2c.request_from(addr, n);
        if self.i2c.available() != n {
            let ghost t = AgTxn::Read(reg, 0, n, None);
            assert(self.i2c.ops() =~= o0 + ag_ops(addr, t));
            self.log_txn(Ghost(o0), Ghost(t));
            return None;
        }
        let ghost start = self.i2c.ops();
        let mut bytes: Vec<u8> = Vec::new();
        let mut i: u8 = 0;
        while i < n
            invariant
                i <= n,
                bytes@.len() == i,
                self.i2c.ops() == start + bytes@.map_values(|v: u8| AgOp::Read(v)),
                self.i2c_slave_address == old(self).i2c_slave_address,
                self.is_connected == old(self).is_connected,
                self.delay == old(self).delay,
                self.base == old(self).base,
                self.log == old(self).log,
            decreases n - i,
        {
            let b = self.i2c.read_byte();
            proof {
                assert(bytes@.push(b).map_values(|v: u8| AgOp::Read(v)) =~= bytes@.map_values(
                    |v: u8| AgOp::Read(v),
                ).push(AgOp::Read(b)));
            }
            bytes.push(b);
            i = i + 1;
        }
        let ghost t = AgTxn::Read(reg, 0, n, Some(bytes@));
        assert(self.i2c.ops() =~= o0 + ag_ops(addr, t));
        self.log_txn(Ghost(o0), Ghost(t));
        Some(bytes)
    }

    /// Read one byte of register `reg`.
    fn read_byte(&mut self, reg: u8) -> (r: Option<u8>)
        requires
            old(self).wf(),
        ensures
            final(self).only_io(old(self)),
            final(self).since(old(self)).len() == 1,
            reads(final(self).since(old(self))[0], reg, 1),
            match r {
                Some(v) => got(final(self).since(old(self))[0]) is Some && v == byte_of(final(self).since(old(self))[0]),
                None => got(final(self).since(old(self))[0]) is None,
            },
    {
        match self.read_multi_bytes(reg, 1) {
            Some(v) => Some(v[0]),
            None => None,
        }
    }

    /// Write the bytes `data` to register `reg`: whether acknowledged.
    fn write_multi_bytes(&mut self, reg: u8, data: &[u8]) -> (r: bool)
        requires
            old(self).wf(),
        ensures
            final(self).only_io(old(self)),
            final(self).since(old(self)).len() == 1,
            writes(final(self).since(old(self))[0], reg, data@),
            r == written(final(self).since(old(self))[0]),
    {
        let addr = self.i2c_slave_address;
        let ghost o0 = self.i2c.ops();
        self.i2c.begin_transmission(addr);
        self.i2c.write_byte(reg);
        let ghost start = self.i2c.ops();
        let mut i: usize = 0;
        while i < data.len()
            invariant
                i <= data@.len(),
                self.i2c.ops() == start + data@.take(i as int).map_values(|v: u8| AgOp::Write(v)),
                self.i2c_slave_address == old(self).i2c_slave_address,
                self.is_connected == old(self).is_connected,
                self.delay == old(self).delay,
                self.base == old(self).base,
                self.log == old(self).log,
            decreases data.len() - i,
        {
            self.i2c.write_byte(data[i]);
            proof {
                assert(data@.take(i + 1).map_values(|v: u8| AgOp::Write(v)) =~= data@.take(i as int).map_values(
                    |v: u8| AgOp::Write(v),
                ).push(AgOp::Write(data@[i as int])));
            }
            i = i + 1;
        }
        let s = self.i2c.end_transmission();
        let ghost t = AgTxn::Write(reg, data@, s);
        assert(data@.take(data@.len() as int) =~= data@);
        assert(self.i2c.ops() =~= o0 + ag_ops(addr, t));
        self.log_txn(Ghost(o0), Ghost(t));
        s == 0
    }

    /// Write `val` to register `reg`: whether acknowledged.
    fn write_byte_val(&mut self, reg: u8, val: u8) -> (r: bool)
        requires
            old(self).wf(),
        ensures
            final(self).only_io(old(self)),
            put(final(self).since(old(self)), reg, val, r),
    {
        let one: [u8; 1] = [val];
        let r = self.write_multi_bytes(reg, &one);
        assert(one@ =~= seq![val]);
        r
    }

    /// Address register `reg` without data: whether acknowledged.
    fn write_byte_reg(&mut self, reg: u8) -> (r: bool)
        requires
            old(self).wf(),
        ensures
            final(self).only_io(old(self)),
            final(self).since(old(self)).len() == 1,
            writes(final(self).since(old(self))[0], reg, seq![]),
            r == written(final(self).since(old(self))[0]),
    {
        let empty: [u8; 0] = [];
        let r = self.write_multi_bytes(reg, &empty);
        assert(empty@ =~= Seq::<u8>::empty());
        r
    }

    /// Address the chip without data: whether it answers.
    fn write_address(&mut self) -> (r: bool)
        requires
            old(self).wf(),
        ensures
            final(self).only_io(old(self)),
            final(self).since(old(self)).len() == 1,
            final(self).since(old(self))[0] matches AgTxn::Probe(s) && r == (s == 0),
    {
        let addr = self.i2c_slave_address;
        let ghost o0 = self.i2c.ops();
        self.i2c.begin_transmission(addr);
        let s = self.i2c.end_transmission();
        let ghost t = AgTxn::Probe(s);
        assert(self.i2c.ops() =~= o0 + ag_ops(addr, t));
        self.log_txn(Ghost(o0), Ghost(t));
        s == 0
    }

    /// Read `reg`, clear the bits of `clear`, set those of `set`, and write
    /// the byte to `wreg`: whether both succeeded.
    fn change(&mut self, reg: u8, wreg: u8, clear: u8, set: u8) -> (r: bool)
        requires
            old(self).wf(),
        ensures
            final(self).only_io(old(self)),
            rmw(final(self).since(old(self)), reg, wreg, clear, set, r),
    {
        let ghost o = *self;
        let v = match self.read_byte(reg) {
            Some(v) => v,
            None => {
                return false;
            },
        };
        let ghost q = *self;
        let r = self.write_byte_val(wreg, (v & !clear) | set);
        proof {
            Self::lemma_after_trans(&o, &q, self);
        }
        r
    }

    /// Read `reg`: whether a bit of `mask` is set (false when the read failed).
    fn flag(&mut self, reg: u8, mask: u8) -> (r: bool)
        requires
            old(self).wf(),
        ensures
            final(self).only_io(old(self)),
            flag_read(final(self).since(old(self)), reg, mask, r),
    {
        match self.read_byte(reg) {
            Some(v) => (v & mask) != 0,
            None => false,
        }
    }

    /// Read `reg`: the bits of `mask` shifted down by `pos`, or `dflt`.
    fn field(&mut self, reg: u8, mask: u8, pos: u8, dflt: u8) -> (r: u8)
        requires
            old(self).wf(),
            pos < 8,
        ensures
            final(self).only_io(old(self)),
            field_read(final(self).since(old(self)), reg, mask, pos, dflt, r),
    {
        match self.read_byte(reg) {
            Some(v) => (v & mask) >> pos,
            None => dflt,
        }
    }

    /// The bit mask `mask` when `enable`, else 0.
    fn when(enable: bool, mask: u8) -> (r: u8)
        ensures
            r == if enable {
                mask
            } else {
                0u8
            },
    {
        if enable {
            mask
        } else {
            0
        }
    }

    /// Reset the whole device (the reset bit of power management 1):
    /// whether the read and the write succeeded.
    pub fn reset(&mut self) -> (r: bool)
        requires
            old(self).wf(),
        ensures
            final(self).only_io(old(self)),
            rmw(final(self).since(old(self)), MPU6050_PWR_MGMT_1_REG, MPU6050_PWR_MGMT_1_REG, 0, MPU_PWR_MGMT_1_DEVICE_RESET_MSK, r),
    {
        self.change(MPU6050_PWR_MGMT_1_REG, MPU6050_PWR_MGMT_1_REG, 0, MPU_PWR_MGMT_1_DEVICE_RESET_MSK)
    }

    /// Reset the gyroscope signal path: reads the signal-path reset register, sets the bit, and writes
    /// the byte to power management 1 (not back to the reset register); whether
    /// both succeeded.
    pub fn reset_gyro_path(&mut self) -> (r: bool)
        requires
            old(self).wf(),
        ensures
            final(self).only_io(old(self)),
            rmw(final(self).since(old(self)), MPU6050_SIGNAL_PATH_RESET_REG, MPU6050_PWR_MGMT_1_REG, 0, MPU_SIGNAL_PATH_GYRO_RESET_MSK, r),
    {
        self.change(MPU6050_SIGNAL_PATH_RESET_REG, MPU6050_PWR_MGMT_1_REG, 0, MPU_SIGNAL_PATH_GYRO_RESET_MSK)
    }

    /// Reset the accelerometer signal path: reads the signal-path reset register, sets the bit, and writes
    /// the byte to power management 1 (not back to the reset register); whether
    /// both succeeded.
    pub fn reset_accel_path(&mut self) -> (r: bool)
        requires
            old(self).wf(),
        ensures
            final(self).only_io(old(self)),
            rmw(final(self).since(old(self)), MPU6050_SIGNAL_PATH_RESET_REG, MPU6050_PWR_MGMT_1_REG, 0, MPU_SIGNAL_PATH_ACCEL_RESET_MSK, r),
    {
        self.change(MPU6050_SIGNAL_PATH_RESET_REG, MPU6050_PWR_MGMT_1_REG, 0, MPU_SIGNAL_PATH_ACCEL_RESET_MSK)
    }

    /// Reset the temperature signal path: reads the signal-path reset register, sets the bit, and writes
    /// the byte to power management 1 (not back to the reset register); whether
    /// both succeeded.
    pub fn reset_temp_path(&mut self) -> (r: bool)
        requires
            old(self).wf(),
        ensures
            final(self).only_io(old(self)),
            rmw(final(self).since(old(self)), MPU6050_SIGNAL_PATH_RESET_REG, MPU6050_PWR_MGMT_1_REG, 0, MPU_SIGNAL_PATH_TEMP_RESET_MSK, r),
    {
        self.change(MPU6050_SIGNAL_PATH_RESET_REG, MPU6050_PWR_MGMT_1_REG, 0, MPU_SIGNAL_PATH_TEMP_RESET_MSK)
    }

    /// Set the gyroscope range code (bits 3 and 4): whether the read and the write succeeded.
    pub fn set_full_scale_gyro_range(&mut self, range: u8) -> (r: bool)
        requires
            old(self).wf(),
        ensures
            final(self).only_io(old(self)),
            rmw(final(self).since(old(self)), MPU6050_GYRO_CONFIG_REG, MPU6050_GYRO_CONFIG_REG, MPU_GYRO_CONFIG_FS_SEL_MASK, range << MPU_GYRO_CONFIG_FS_SEL_POS, r),
    {
        self.change(MPU6050_GYRO_CONFIG_REG, MPU6050_GYRO_CONFIG_REG, MPU_GYRO_CONFIG_FS_SEL_MASK, range << MPU_GYRO_CONFIG_FS_SEL_POS)
    }

    /// The gyroscope range code, or `RANGE_UNKNOWN` when the read failed.
    pub fn get_full_scale_gyro_range(&mut self) -> (r: u8)
        requires
            old(self).wf(),
        ensures
            final(self).only_io(old(self)),
            field_read(final(self).since(old(self)), MPU6050_GYRO_CONFIG_REG, MPU_GYRO_CONFIG_FS_SEL_MASK, MPU_GYRO_CONFIG_FS_SEL_POS, RANGE_UNKNOWN, r),
    {
        self.field(MPU6050_GYRO_CONFIG_REG, MPU_GYRO_CONFIG_FS_SEL_MASK, MPU_GYRO_CONFIG_FS_SEL_POS, RANGE_UNKNOWN)
    }

    /// Set the accelerometer range code (bits 3 and 4): whether the read and the write succeeded.
    pub fn set_full_scale_accel_range(&mut self, range: u8) -> (r: bool)
        requires
            old(self).wf(),
        ensures
            final(self).only_io(old(self)),
            rmw(final(self).since(old(self)), MPU6050_ACCEL_CONFIG_REG, MPU6050_ACCEL_CONFIG_REG, MPU_ACCEL_CONFIG_FS_SEL_MASK, range << MPU_ACCEL_CONFIG_FS_SEL_POS, r),
    {
        self.change(MPU6050_ACCEL_CONFIG_REG, MPU6050_ACCEL_CONFIG_REG, MPU_ACCEL_CONFIG_FS_SEL_MASK, range << MPU_ACCEL_CONFIG_FS_SEL_POS)
    }

    /// The accelerometer range code, or `RANGE_UNKNOWN` when the read failed.
    pub fn get_full_scale_accel_range(&mut self) -> (r: u8)
        requires
            old(self).wf(),
        ensures
            final(self).only_io(old(self)),
            field_read(final(self).since(old(self)), MPU6050_ACCEL_CONFIG_REG, MPU_ACCEL_CONFIG_FS_SEL_MASK, MPU_ACCEL_CONFIG_FS_SEL_POS, RANGE_UNKNOWN, r),
    {
        self.field(MPU6050_ACCEL_CONFIG_REG, MPU_ACCEL_CONFIG_FS_SEL_MASK, MPU_ACCEL_CONFIG_FS_SEL_POS, RANGE_UNKNOWN)
    }

    /// Put the device to sleep or wake it: whether the read and the write succeeded.
    pub fn set_sleep(&mut self, enable: bool) -> (r: bool)
        requires
            old(self).wf(),
        ensures
            final(self).only_io(old(self)),
            rmw(final(self).since(old(self)), MPU6050_PWR_MGMT_1_REG, MPU6050_PWR_MGMT_1_REG, MPU_PWR_MGMT_1_SLEEP_MSK, if enable {
                MPU_PWR_MGMT_1_SLEEP_MSK
            } else {
                0u8
            }, r),
    {
        let set = Self::when(enable, MPU_PWR_MGMT_1_SLEEP_MSK);
        self.change(MPU6050_PWR_MGMT_1_REG, MPU6050_PWR_MGMT_1_REG, MPU_PWR_MGMT_1_SLEEP_MSK, set)
    }

    /// Whether the device sleeps (false when the read failed).
    pub fn get_sleep_sts(&mut self) -> (r: bool)
        requires
            old(self).wf(),
        ensures
            final(self).only_io(old(self)),
            flag_read(final(self).since(old(self)), MPU6050_PWR_MGMT_1_REG, MPU_PWR_MGMT_1_SLEEP_MSK, r),
    {
        self.flag(MPU6050_PWR_MGMT_1_REG, MPU_PWR_MGMT_1_SLEEP_MSK)
    }

    /// Turn cycle mode on or off: whether the read and the write succeeded.
    pub fn set_cycle_mode(&mut self, enable: bool) -> (r: bool)
        requires
            old(self).wf(),
        ensures
            final(self).only_io(old(self)),
            rmw(final(self).since(old(self)), MPU6050_PWR_MGMT_1_REG, MPU6050_PWR_MGMT_1_REG, MPU_PWR_MGMT_1_CYCLE_MSK, if enable {
                MPU_PWR_MGMT_1_CYCLE_MSK
            } else {
                0u8
            }, r),
    {
        let set = Self::when(enable, MPU_PWR_MGMT_1_CYCLE_MSK);
        self.change(MPU6050_PWR_MGMT_1_REG, MPU6050_PWR_MGMT_1_REG, MPU_PWR_MGMT_1_CYCLE_MSK, set)
    }

    /// Whether cycle mode is on (false when the read failed).
    pub fn get_cycle_mode(&mut self) -> (r: bool)
        requires
            old(self).wf(),
        ensures
            final(self).only_io(old(self)),
            flag_read(final(self).since(old(self)), MPU6050_PWR_MGMT_1_REG, MPU_PWR_MGMT_1_CYCLE_MSK, r),
    {
        self.flag(MPU6050_PWR_MGMT_1_REG, MPU_PWR_MGMT_1_CYCLE_MSK)
    }

    /// Disable or enable the temperature sensor: whether the read and the write succeeded.
    pub fn set_temp_sensor_disable(&mut self, enable: bool) -> (r: bool)
        requires
            old(self).wf(),
        ensures
            final(self).only_io(old(self)),
            rmw(final(self).since(old(self)), MPU6050_PWR_MGMT_1_REG, MPU6050_PWR_MGMT_1_REG, MPU_PWR_MGMT_1_TEMP_DIS_MSK, if enable {
                MPU_PWR_MGMT_1_TEMP_DIS_MSK
            } else {
                0u8
            }, r),
    {
        let set = Self::when(enable, MPU_PWR_MGMT_1_TEMP_DIS_MSK);
        self.change(MPU6050_PWR_MGMT_1_REG, MPU6050_PWR_MGMT_1_REG, MPU_PWR_MGMT_1_TEMP_DIS_MSK, set)
    }

    /// Whether the temperature sensor is disabled (false when the read failed).
    pub fn get_temp_sensor_disable_sts(&mut self) -> (r: bool)
        requires
            old(self).wf(),
        ensures
            final(self).only_io(old(self)),
            flag_read(final(self).since(old(self)), MPU6050_PWR_MGMT_1_REG, MPU_PWR_MGMT_1_TEMP_DIS_MSK, r),
    {
        self.flag(MPU6050_PWR_MGMT_1_REG, MPU_PWR_MGMT_1_TEMP_DIS_MSK)
    }

    /// Select the clock source (bits 0 to 2): whether the read and the write succeeded.
    pub fn set_clk_source(&mut self, src: u8) -> (r: bool)
        requires
            old(self).wf(),
        ensures
            final(self).only_io(old(self)),
            rmw(final(self).since(old(self)), MPU6050_PWR_MGMT_1_REG, MPU6050_PWR_MGMT_1_REG, MPU_PWR_MGMT_1_CLKSEL_MSK, src << MPU_PWR_MGMT_1_CLKSEL_POS, r),
    {
        self.change(MPU6050_PWR_MGMT_1_REG, MPU6050_PWR_MGMT_1_REG, MPU_PWR_MGMT_1_CLKSEL_MSK, src << MPU_PWR_MGMT_1_CLKSEL_POS)
    }

    /// The clock source, or 0 when the read failed.
    pub fn get_clk_source(&mut self) -> (r: u8)
        requires
            old(self).wf(),
        ensures
            final(self).only_io(old(self)),
            field_read(final(self).since(old(self)), MPU6050_PWR_MGMT_1_REG, MPU_PWR_MGMT_1_CLKSEL_MSK, MPU_PWR_MGMT_1_CLKSEL_POS, 0, r),
    {
        self.field(MPU6050_PWR_MGMT_1_REG, MPU_PWR_MGMT_1_CLKSEL_MSK, MPU_PWR_MGMT_1_CLKSEL_POS, 0)
    }

    /// Set the low-power wake frequency code (bits 6 and 7): whether the read and the write succeeded.
    pub fn set_wake_frequency(&mut self, frequency: u8) -> (r: bool)
        requires
            old(self).wf(),
        ensures
            final(self).only_io(old(self)),
            rmw(final(self).since(old(self)), MPU6050_PWR_MGMT_2_REG, MPU6050_PWR_MGMT_2_REG, MPU_PWR_MGMT_2_LP_WAKE_CTRL_MSK, frequency << MPU_PWR_MGMT_2_LP_WAKE_CTRL_POS, r),
    {
        self.change(MPU6050_PWR_MGMT_2_REG, MPU6050_PWR_MGMT_2_REG, MPU_PWR_MGMT_2_LP_WAKE_CTRL_MSK, frequency << MPU_PWR_MGMT_2_LP_WAKE_CTRL_POS)
    }

    /// The low-power wake frequency code, or 0 when the read failed.
    pub fn get_wake_frequency(&mut self) -> (r: u8)
        requires
            old(self).wf(),
        ensures
            final(self).only_io(old(self)),
            field_read(final(self).since(old(self)), MPU6050_PWR_MGMT_2_REG, MPU_PWR_MGMT_2_LP_WAKE_CTRL_MSK, MPU_PWR_MGMT_2_LP_WAKE_CTRL_POS, 0, r),
    {
        self.field(MPU6050_PWR_MGMT_2_REG, MPU_PWR_MGMT_2_LP_WAKE_CTRL_MSK, MPU_PWR_MGMT_2_LP_WAKE_CTRL_POS, 0)
    }

    /// Put the X accelerometer axis in standby or take it out: whether the read and the write succeeded.
    pub fn set_standby_x_accel(&mut self, enable: bool) -> (r: bool)
        requires
            old(self).wf(),
        ensures
            final(self).only_io(old(self)),
            rmw(final(self).since(old(self)), MPU6050_PWR_MGMT_2_REG, MPU6050_PWR_MGMT_2_REG, MPU_PWR_MGMT_2_LP_STBY_XA_MSK, if enable {
                MPU_PWR_MGMT_2_LP_STBY_XA_MSK
            } else {
                0u8
            }, r),
    {
        let set = Self::when(enable, MPU_PWR_MGMT_2_LP_STBY_XA_MSK);
        self.change(MPU6050_PWR_MGMT_2_REG, MPU6050_PWR_MGMT_2_REG, MPU_PWR_MGMT_2_LP_STBY_XA_MSK, set)
    }

    /// Whether the X accelerometer axis is in standby (false when the read failed).
    pub fn get_standby_x_accel_sts(&mut self) -> (r: bool)
        requires
            old(self).wf(),
        ensures
            final(self).only_io(old(self)),
            flag_read(final(self).since(old(self)), MPU6050_PWR_MGMT_2_REG, MPU_PWR_MGMT_2_LP_STBY_XA_MSK, r),
    {
        self.flag(MPU6050_PWR_MGMT_2_REG, MPU_PWR_MGMT_2_LP_STBY_XA_MSK)
    }

    /// Put the Y accelerometer axis in standby or take it out: whether the read and the write succeeded.
    pub fn set_standby_y_accel(&mut self, enable: bool) -> (r: bool)
        requires
            old(self).wf(),
        ensures
            final(self).only_io(old(self)),
            rmw(final(self).since(old(self)), MPU6050_PWR_MGMT_2_REG, MPU6050_PWR_MGMT_2_REG, MPU_PWR_MGMT_2_LP_STBY_YA_MSK, if enable {
                MPU_PWR_MGMT_2_LP_STBY_YA_MSK
            } else {
                0u8
            }, r),
    {
        let set = Self::when(enable, MPU_PWR_MGMT_2_LP_STBY_YA_MSK);
        self.change(MPU6050_PWR_MGMT_2_REG, MPU6050_PWR_MGMT_2_REG, MPU_PWR_MGMT_2_LP_STBY_YA_MSK, set)
    }

    /// Whether the Y accelerometer axis is in standby (false when the read failed).
    pub fn get_standby_y_accel_sts(&mut self) -> (r: bool)
        requires
            old(self).wf(),
        ensures
            final(self).only_io(old(self)),
            flag_read(final(self).since(old(self)), MPU6050_PWR_MGMT_2_REG, MPU_PWR_MGMT_2_LP_STBY_YA_MSK, r),
    {
        self.flag(MPU6050_PWR_MGMT_2_REG, MPU_PWR_MGMT_2_LP_STBY_YA_MSK)
    }

    /// Put the Z accelerometer axis in standby or take it out: whether the read and the write succeeded.
    pub fn set_standby_z_accel(&mut self, enable: bool) -> (r: bool)
        requires
            old(self).wf(),
        ensures
            final(self).only_io(old(self)),
            rmw(final(self).since(old(self)), MPU6050_PWR_MGMT_2_REG, MPU6050_PWR_MGMT_2_REG, MPU_PWR_MGMT_2_LP_STBY_ZA_MSK, if enable {
                MPU_PWR_MGMT_2_LP_STBY_ZA_MSK
            } else {
                0u8
            }, r),
    {
        let set = Self::when(enable, MPU_PWR_MGMT_2_LP_STBY_ZA_MSK);
        self.change(MPU6050_PWR_MGMT_2_REG, MPU6050_PWR_MGMT_2_REG, MPU_PWR_MGMT_2_LP_STBY_ZA_MSK, set)
    }

    /// Whether the Z accelerometer axis is in standby (false when the read failed).
    pub fn get_standby_z_accel_sts(&mut self) -> (r: bool)
        requires
            old(self).wf(),
        ensures
            final(self).only_io(old(self)),
            flag_read(final(self).since(old(self)), MPU6050_PWR_MGMT_2_REG, MPU_PWR_MGMT_2_LP_STBY_ZA_MSK, r),
    {
        self.flag(MPU6050_PWR_MGMT_2_REG, MPU_PWR_MGMT_2_LP_STBY_ZA_MSK)
    }

    /// Put the X gyroscope axis in standby or take it out: whether the read and the write succeeded.
    pub fn set_standby_x_gyro(&mut self, enable: bool) -> (r: bool)
        requires
            old(self).wf(),
        ensures
            final(self).only_io(old(self)),
            rmw(final(self).since(old(self)), MPU6050_PWR_MGMT_2_REG, MPU6050_PWR_MGMT_2_REG, MPU_PWR_MGMT_2_LP_STBY_XG_MSK, if enable {
                MPU_PWR_MGMT_2_LP_STBY_XG_MSK
            } else {
                0u8
            }, r),
    {
        let set = Self::when(enable, MPU_PWR_MGMT_2_LP_STBY_XG_MSK);
        self.change(MPU6050_PWR_MGMT_2_REG, MPU6050_PWR_MGMT_2_REG, MPU_PWR_MGMT_2_LP_STBY_XG_MSK, set)
    }

    /// Whether the X gyroscope axis is in standby (false when the read failed).
    pub fn get_standby_x_gyro_sts(&mut self) -> (r: bool)
        requires
            old(self).wf(),
        ensures
            final(self).only_io(old(self)),
            flag_read(final(self).since(old(self)), MPU6050_PWR_MGMT_2_REG, MPU_PWR_MGMT_2_LP_STBY_XG_MSK, r),
    {
        self.flag(MPU6050_PWR_MGMT_2_REG, MPU_PWR_MGMT_2_LP_STBY_XG_MSK)
    }

    /// Put the Y gyroscope axis in standby or take it out: whether the read and the write succeeded.
    pub fn set_standby_y_gyro(&mut self, enable: bool) -> (r: bool)
        requires
            old(self).wf(),
        ensures
            final(self).only_io(old(self)),
            rmw(final(self).since(old(self)), MPU6050_PWR_MGMT_2_REG, MPU6050_PWR_MGMT_2_REG, MPU_PWR_MGMT_2_LP_STBY_YG_MSK, if enable {
                MPU_PWR_MGMT_2_LP_STBY_YG_MSK
            } else {
                0u8
            }, r),
    {
        let set = Self::when(enable, MPU_PWR_MGMT_2_LP_STBY_YG_MSK);
        self.change(MPU6050_PWR_MGMT_2_REG, MPU6050_PWR_MGMT_2_REG, MPU_PWR_MGMT_2_LP_STBY_YG_MSK, set)
    }

    /// Whether the Y gyroscope axis is in standby (false when the read failed).
    pub fn get_standby_y_gyro_sts(&mut self) -> (r: bool)
        requires
            old(self).wf(),
        ensures
            final(self).only_io(old(self)),
            flag_read(final(self).since(old(self)), MPU6050_PWR_MGMT_2_REG, MPU_PWR_MGMT_2_LP_STBY_YG_MSK, r),
    {
        self.flag(MPU6050_PWR_MGMT_2_REG, MPU_PWR_MGMT_2_LP_STBY_YG_MSK)
    }

    /// Put the Z gyroscope axis in standby or take it out: whether the read and the write succeeded.
    pub fn set_standby_z_gyro(&mut self, enable: bool) -> (r: bool)
        requires
            old(self).wf(),
        ensures
            final(self).only_io(old(self)),
            rmw(final(self).since(old(self)), MPU6050_PWR_MGMT_2_REG, MPU6050_PWR_MGMT_2_REG, MPU_PWR_MGMT_2_LP_STBY_ZG_MSK, if enable {
                MPU_PWR_MGMT_2_LP_STBY_ZG_MSK
            } else {
                0u8
            }, r),
    {
        let set = Self::when(enable, MPU_PWR_MGMT_2_LP_STBY_ZG_MSK);
        self.change(MPU6050_PWR_MGMT_2_REG, MPU6050_PWR_MGMT_2_REG, MPU_PWR_MGMT_2_LP_STBY_ZG_MSK, set)
    }

    /// Whether the Z gyroscope axis is in standby (false when the read failed).
    pub fn get_standby_z_gyro_sts(&mut self) -> (r: bool)
        requires
            old(self).wf(),
        ensures
            final(self).only_io(old(self)),
            flag_read(final(self).since(old(self)), MPU6050_PWR_MGMT_2_REG, MPU_PWR_MGMT_2_LP_STBY_ZG_MSK, r),
    {
        self.flag(MPU6050_PWR_MGMT_2_REG, MPU_PWR_MGMT_2_LP_STBY_ZG_MSK)
    }

    /// The motion detection threshold, or 0 when the read failed.
    pub fn get_motion_detection_threshold(&mut self) -> (r: u8)
        requires
            old(self).wf(),
        ensures
            final(self).only_io(old(self)),
            field_read(final(self).since(old(self)), MPU6050_MOTION_THR, 0xFF, 0, 0, r),
    {
        self.field(MPU6050_MOTION_THR, 0xFF, 0, 0)
    }

    /// Set the motion detection threshold: whether it was acknowledged.
    pub fn set_motion_detection_threshold(&mut self, threshold: u8) -> (r: bool)
        requires
            old(self).wf(),
        ensures
            final(self).only_io(old(self)),
            put(final(self).since(old(self)), MPU6050_MOTION_THR, threshold, r),
    {
        self.write_byte_val(MPU6050_MOTION_THR, threshold)
    }

    /// The motion detection duration, or 0 when the read failed.
    pub fn get_motion_detection_duration(&mut self) -> (r: u8)
        requires
            old(self).wf(),
        ensures
            final(self).only_io(old(self)),
            field_read(final(self).since(old(self)), MPU6050_MOTION_DUR, 0xFF, 0, 0, r),
    {
        self.field(MPU6050_MOTION_DUR, 0xFF, 0, 0)
    }

    /// Set the motion detection duration: whether it was acknowledged.
    pub fn set_motion_detection_duration(&mut self, duration: u8) -> (r: bool)
        requires
            old(self).wf(),
        ensures
            final(self).only_io(old(self)),
            put(final(self).since(old(self)), MPU6050_MOTION_DUR, duration, r),
    {
        self.write_byte_val(MPU6050_MOTION_DUR, duration)
    }

    /// The zero-motion detection threshold, or 0 when the read failed.
    pub fn get_zero_motion_detection_threshold(&mut self) -> (r: u8)
        requires
            old(self).wf(),
        ensures
            final(self).only_io(old(self)),
            field_read(final(self).since(old(self)), MPU6050_ZERO_MOTION_THR, 0xFF, 0, 0, r),
    {
        self.field(MPU6050_ZERO_MOTION_THR, 0xFF, 0, 0)
    }

    /// Set the zero-motion detection threshold: whether it was acknowledged.
    pub fn set_zero_motion_detection_threshold(&mut self, threshold: u8) -> (r: bool)
        requires
            old(self).wf(),
        ensures
            final(self).only_io(old(self)),
            put(final(self).since(old(self)), MPU6050_ZERO_MOTION_THR, threshold, r),
    {
        self.write_byte_val(MPU6050_ZERO_MOTION_THR, threshold)
    }

    /// The zero-motion detection duration, or 0 when the read failed.
    pub fn get_zero_motion_detection_duration(&mut self) -> (r: u8)
        requires
            old(self).wf(),
        ensures
            final(self).only_io(old(self)),
            field_read(final(self).since(old(self)), MPU6050_ZERO_MOTION_DUR, 0xFF, 0, 0, r),
    {
        self.field(MPU6050_ZERO_MOTION_DUR, 0xFF, 0, 0)
    }

    /// Set the zero-motion detection duration: whether it was acknowledged.
    pub fn set_zero_motion_detection_duration(&mut self, duration: u8) -> (r: bool)
        requires
            old(self).wf(),
        ensures
            final(self).only_io(old(self)),
            put(final(self).since(old(self)), MPU6050_ZERO_MOTION_DUR, duration, r),
    {
        self.write_byte_val(MPU6050_ZERO_MOTION_DUR, duration)
    }

    /// Whether the motion interrupt is enabled (false when the read failed).
    pub fn get_int_motion_enabled(&mut self) -> (r: bool)
        requires
            old(self).wf(),
        ensures
            final(self).only_io(old(self)),
            flag_read(final(self).since(old(self)), MPU6050_INT_ENABLE, MPU_INT_MOTION_DETECT_MSK, r),
    {
        self.flag(MPU6050_INT_ENABLE, MPU_INT_MOTION_DETECT_MSK)
    }

    /// Enable or disable the motion interrupt: whether the read and the write succeeded.
    pub fn set_int_motion_enabled(&mut self, enable: bool) -> (r: bool)
        requires
            old(self).wf(),
        ensures
            final(self).only_io(old(self)),
            rmw(final(self).since(old(self)), MPU6050_INT_ENABLE, MPU6050_INT_ENABLE, MPU_INT_MOTION_DETECT_MSK, if enable {
                MPU_INT_MOTION_DETECT_MSK
            } else {
                0u8
            }, r),
    {
        let set = Self::when(enable, MPU_INT_MOTION_DETECT_MSK);
        self.change(MPU6050_INT_ENABLE, MPU6050_INT_ENABLE, MPU_INT_MOTION_DETECT_MSK, set)
    }

    /// Whether motion was detected (false when the read failed).
    pub fn get_int_motion_status(&mut self) -> (r: bool)
        requires
            old(self).wf(),
        ensures
            final(self).only_io(old(self)),
            flag_read(final(self).since(old(self)), MPU6050_INT_STATUS, MPU_INT_MOTION_DETECT_MSK, r),
    {
        self.flag(MPU6050_INT_STATUS, MPU_INT_MOTION_DETECT_MSK)
    }

    /// Whether the zero-motion interrupt is enabled (false when the read failed).
    pub fn get_int_zero_motion_enabled(&mut self) -> (r: bool)
        requires
            old(self).wf(),
        ensures
            final(self).only_io(old(self)),
            flag_read(final(self).since(old(self)), MPU6050_INT_ENABLE, MPU_INT_ZMOTION_DETECT_MSK, r),
    {
        self.flag(MPU6050_INT_ENABLE, MPU_INT_ZMOTION_DETECT_MSK)
    }

    /// Enable or disable the zero-motion interrupt: whether the read and the write succeeded.
    pub fn set_int_zero_motion_enabled(&mut self, enable: bool) -> (r: bool)
        requires
            old(self).wf(),
        ensures
            final(self).only_io(old(self)),
            rmw(final(self).since(old(self)), MPU6050_INT_ENABLE, MPU6050_INT_ENABLE, MPU_INT_ZMOTION_DETECT_MSK, if enable {
                MPU_INT_ZMOTION_DETECT_MSK
            } else {
                0u8
            }, r),
    {
        let set = Self::when(enable, MPU_INT_ZMOTION_DETECT_MSK);
        self.change(MPU6050_INT_ENABLE, MPU6050_INT_ENABLE, MPU_INT_ZMOTION_DETECT_MSK, set)
    }

    /// Whether zero motion was detected (false when the read failed).
    pub fn get_int_zero_motion_status(&mut self) -> (r: bool)
        requires
            old(self).wf(),
        ensures
            final(self).only_io(old(self)),
            flag_read(final(self).since(old(self)), MPU6050_INT_STATUS, MPU_INT_ZMOTION_DETECT_MSK, r),
    {
        self.flag(MPU6050_INT_STATUS, MPU_INT_ZMOTION_DETECT_MSK)
    }


    /// Run one configuration step: whether it succeeded.
    fn run_step(&mut self, st: Step) -> (r: bool)
        requires
            old(self).wf(),
        ensures
            final(self).only_io(old(self)),
            step_run(final(self).since(old(self)), st, r),
    {
        match st {
            Step::Change(reg, clear, set) => self.change(reg, reg, clear, set),
            Step::Put(reg, v) => self.write_byte_val(reg, v),
        }
    }

    /// Configure the chip (the steps of `begin_steps`, stopping at the
    /// first that failed): whether all succeeded; then the chip counts as
    /// connected.
    pub fn begin(&mut self) -> (r: bool)
        requires
            old(self).wf(),
        ensures
            final(self).after(old(self)),
            steps_run(final(self).since(old(self)), begin_steps(), r),
            final(self).connected() == (old(self).connected() || r),
    {
        let ghost o = *self;
        let mut i: usize = 0;
        proof {
            assert(self.since(&o) =~= Seq::<AgTxn>::empty());
            assert(begin_steps().take(0) =~= Seq::<Step>::empty());
            assert(self.txns().take(self.txns().len() as int) =~= self.txns());
        }
        while i < 10
            invariant
                i <= 10,
                o == *old(self),
                self.only_io(&o),
                o.wf(),
                steps_run(self.since(&o), begin_steps().take(i as int), true),
            decreases 10 - i,
        {
            let st = begin_step(i);
            let ghost q = *self;
            let ok = self.run_step(st);
            proof {
                Self::lemma_after_trans(&o, &q, self);
                lemma_steps_extend(q.since(&o), begin_steps().take(i as int), self.since(&q), st, ok);
                assert(begin_steps().take(i as int).push(st) =~= begin_steps().take(i + 1));
            }
            if !ok {
                proof {
                    lemma_steps_stop(self.since(&o), begin_steps().take(i + 1), begin_steps().skip(i + 1));
                    assert(begin_steps().take(i + 1) + begin_steps().skip(i + 1) =~= begin_steps());
                }
                return false;
            }
            i = i + 1;
        }
        assert(begin_steps().take(10) =~= begin_steps());
        self.is_connected = true;
        true
    }

    /// Probe the chip; when it answers and was not connected, configure
    /// it. It counts as connected exactly when it answered.
    pub fn ping(&mut self) -> (r: bool)
        requires
            old(self).wf(),
        ensures
            final(self).after(old(self)),
            final(self).connected() == r,
            final(self).since(old(self)).len() >= 1,
            final(self).since(old(self))[0] matches AgTxn::Probe(s) && r == (s == 0),
            !(!old(self).connected() && r) ==> final(self).since(old(self)).len() == 1,
            !old(self).connected() && r ==> exists|b: bool|
                steps_run(final(self).since(old(self)).skip(1), begin_steps(), b),
    {
        let ghost o = *self;
        let get_connect_sts = self.write_address();
        let ghost mut began = true;
        if !self.is_connected && get_connect_sts {
            let ghost q1 = *self;
            let b = self.begin();
            proof {
                Self::lemma_after_trans(&o, &q1, self);
                assert(self.since(&o).skip(1) =~= self.since(&q1));
                began = b;
            }
        }
        self.is_connected = get_connect_sts;
        assert(!o.connected() && get_connect_sts ==> steps_run(self.since(&o).skip(1), begin_steps(), began));
        get_connect_sts
    }

    /// The WHO_AM_I register's bits 1 to 6 (0 when the read failed).
    pub fn get_device_id(&mut self) -> (r: u8)
        requires
            old(self).wf(),
        ensures
            final(self).only_io(old(self)),
            field_read(final(self).since(old(self)), MPU6050_WHO_AM_I_REG, MPU_WHO_AM_I_MSK, 0, 0, r),
    {
        let device_id = match self.read_byte(MPU6050_WHO_AM_I_REG) {
            Some(v) => v,
            None => 0,
        };
        proof {
            crate::bits::lemma_u8_masks();
            crate::bits::lemma_u8_low_bits();
            assert(0u8 & MPU_WHO_AM_I_MSK == 0);
            assert(((device_id & MPU_WHO_AM_I_MSK) >> 0u8) == device_id & MPU_WHO_AM_I_MSK);
        }
        device_id & MPU_WHO_AM_I_MSK
    }

    /// Read six bytes at `reg` as three big-endian signed values.
    fn read_triple(&mut self, reg: u8) -> (r: Option<(i16, i16, i16)>)
        requires
            old(self).wf(),
        ensures
            final(self).only_io(old(self)),
            final(self).since(old(self)).len() == 1,
            reads(final(self).since(old(self))[0], reg, 6),
            r == match got(final(self).since(old(self))[0]) {
                Some(d) => Some(triple(d)),
                None => None,
            },
    {
        match self.read_multi_bytes(reg, 6) {
            Some(d) => Some((be_pair(d[0], d[1]), be_pair(d[2], d[3]), be_pair(d[4], d[5]))),
            None => None,
        }
    }

    /// The raw accelerometer readings (x, y, z); none when the read failed.
    pub fn read_accel_raw(&mut self) -> (r: Option<(i16, i16, i16)>)
        requires
            old(self).wf(),
        ensures
            final(self).only_io(old(self)),
            final(self).since(old(self)).len() == 1,
            reads(final(self).since(old(self))[0], MPU6050_ACCEL_XOUT_H_REG, 6),
            r == match got(final(self).since(old(self))[0]) {
                Some(d) => Some(triple(d)),
                None => None,
            },
    {
        self.read_triple(MPU6050_ACCEL_XOUT_H_REG)
    }

    /// The raw gyroscope readings (x, y, z); none when the read failed.
    pub fn read_gyro_raw(&mut self) -> (r: Option<(i16, i16, i16)>)
        requires
            old(self).wf(),
        ensures
            final(self).only_io(old(self)),
            final(self).since(old(self)).len() == 1,
            reads(final(self).since(old(self))[0], MPU6050_GYRO_XOUT_H_REG, 6),
            r == match got(final(self).since(old(self))[0]) {
                Some(d) => Some(triple(d)),
                None => None,
            },
    {
        self.read_triple(MPU6050_GYRO_XOUT_H_REG)
    }

    /// The accelerometer offsets (x, y, z); none when the read failed.
    fn get_accel_offset(&mut self) -> (r: Option<(i16, i16, i16)>)
        requires
            old(self).wf(),
        ensures
            final(self).only_io(old(self)),
            final(self).since(old(self)).len() == 1,
            reads(final(self).since(old(self))[0], MPU6050_XA_OFFS_USRH_REG, 6),
            r == match got(final(self).since(old(self))[0]) {
                Some(d) => Some(triple(d)),
                None => None,
            },
    {
        self.read_triple(MPU6050_XA_OFFS_USRH_REG)
    }

    /// The gyroscope offsets (x, y, z); none when the read failed.
    fn get_gyro_offset(&mut self) -> (r: Option<(i16, i16, i16)>)
        requires
            old(self).wf(),
        ensures
            final(self).only_io(old(self)),
            final(self).since(old(self)).len() == 1,
            reads(final(self).since(old(self))[0], MPU6050_XG_OFFS_USRH_REG, 6),
            r == match got(final(self).since(old(self))[0]) {
                Some(d) => Some(triple(d)),
                None => None,
            },
    {
        self.read_triple(MPU6050_XG_OFFS_USRH_REG)
    }

    /// Write three signed values big-endian at `reg`: whether acknowledged.
    fn write_triple(&mut self, reg: u8, x: i16, y: i16, z: i16) -> (r: bool)
        requires
            old(self).wf(),
        ensures
            final(self).only_io(old(self)),
            final(self).since(old(self)).len() == 1,
            writes(final(self).since(old(self))[0], reg, be_bytes(x) + be_bytes(y) + be_bytes(z)),
            r == written(final(self).since(old(self))[0]),
    {
        let data: [u8; 6] = [
            (x >> 8u16) as u8,
            (x & 0xFF) as u8,
            (y >> 8u16) as u8,
            (y & 0xFF) as u8,
            (z >> 8u16) as u8,
            (z & 0xFF) as u8,
        ];
        let r = self.write_multi_bytes(reg, &data);
        assert(data@ =~= be_bytes(x) + be_bytes(y) + be_bytes(z));
        r
    }

    /// Set the accelerometer offsets: whether acknowledged.
    fn set_accel_offset(&mut self, a_x: i16, a_y: i16, a_z: i16) -> (r: bool)
        requires
            old(self).wf(),
        ensures
            final(self).only_io(old(self)),
            final(self).since(old(self)).len() == 1,
            writes(final(self).since(old(self))[0], MPU6050_XA_OFFS_USRH_REG, be_bytes(a_x) + be_bytes(a_y) + be_bytes(a_z)),
            r == written(final(self).since(old(self))[0]),
    {
        self.write_triple(MPU6050_XA_OFFS_USRH_REG, a_x, a_y, a_z)
    }

    /// Set the gyroscope offsets: whether acknowledged.
    fn set_gyro_offset(&mut self, g_x: i16, g_y: i16, g_z: i16) -> (r: bool)
        requires
            old(self).wf(),
        ensures
            final(self).only_io(old(self)),
            final(self).since(old(self)).len() == 1,
            writes(final(self).since(old(self))[0], MPU6050_XG_OFFS_USRH_REG, be_bytes(g_x) + be_bytes(g_y) + be_bytes(g_z)),
            r == written(final(self).since(old(self))[0]),
    {
        self.write_triple(MPU6050_XG_OFFS_USRH_REG, g_x, g_y, g_z)
    }

    /// One axis sample for scaling: the big-endian value at `reg` (0 when
    /// the read failed), then the range code of the gyroscope (when
    /// `gyro`) or the accelerometer (`RANGE_UNKNOWN` when that read failed).
    pub fn read_axis_sample(&mut self, reg: u8, gyro: bool) -> (r: (i16, u8))
        requires
            old(self).wf(),
        ensures
            final(self).only_io(old(self)),
            final(self).since(old(self)).len() == 2,
            reads(final(self).since(old(self))[0], reg, 2),
            r.0 == match got(final(self).since(old(self))[0]) {
                Some(d) => be_i16(d[0], d[1]),
                None => 0i16,
            },
            field_read(
                final(self).since(old(self)).skip(1),
                if gyro {
                    MPU6050_GYRO_CONFIG_REG
                } else {
                    MPU6050_ACCEL_CONFIG_REG
                },
                0x18,
                3,
                RANGE_UNKNOWN,
                r.1,
            ),
    {
        let ghost o = *self;
        let raw = match self.read_multi_bytes(reg, 2) {
            Some(d) => be_pair(d[0], d[1]),
            None => 0,
        };
        let ghost q = *self;
        let fsr = if gyro {
            self.get_full_scale_gyro_range()
        } else {
            self.get_full_scale_accel_range()
        };
        proof {
            Self::lemma_after_trans(&o, &q, self);
            assert(self.since(&o).skip(1) =~= self.since(&q));
        }
        (raw, fsr)
    }

    /// The raw temperature: six bytes are asked for at the temperature
    /// register and the first two, big-endian, are the value; none when
    /// the read failed.
    pub fn read_temperature_raw(&mut self) -> (r: Option<i16>)
        requires
            old(self).wf(),
        ensures
            final(self).only_io(old(self)),
            final(self).since(old(self)).len() == 1,
            reads(final(self).since(old(self))[0], MPU6050_TEMP_OUT_H_REG, 6),
            r == match got(final(self).since(old(self))[0]) {
                Some(d) => Some(be_i16(d[0], d[1])),
                None => None,
            },
    {
        match self.read_multi_bytes(MPU6050_TEMP_OUT_H_REG, 6) {
            Some(d) => Some(be_pair(d[0], d[1])),
            None => None,
        }
    }


    /// Wait `ms` milliseconds.
    pub fn delay_ms(&mut self, ms: u16)
        requires
            old(self).wf(),
        ensures
            final(self).wf(),
            final(self).txns() == old(self).txns(),
            final(self).waits() == old(self).waits().push(ms),
            final(self).connected() == old(self).connected(),
            final(self).address() == old(self).address(),
            final(self).bus_before() == old(self).bus_before(),
    {
        self.delay.delay_ms(ms);
    }

}

} // verus!
