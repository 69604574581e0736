//! A minimal MPU6050 driver: address detection, configuration for
//! vibration sampling, and raw accelerometer and temperature reads.
//!
//! The bus is lent to each call. A call's contract says which transactions
//! (`MinTxn`) it made on the bus and how its result follows from what the
//! bus answered. Scaling the raw values to g and degrees is floating point
//! and is left to callers, who get the sensitivity from `accel_lsb_per_g`.
use vstd::prelude::*;

verus! {

/// One operation on the bus, with what it returned.
pub enum BusOp {
    Begin(u8),
    Write(u8),
    /// The end of a transmission: whether a stop was sent, and the status.
    End(bool, u8),
    /// A request: address, count asked for, count granted.
    Request(u8, usize, usize),
    Read(u8),
}

/// An I2C bus. `ops` is what was done on it so far; `pending` is how many
/// received bytes are left to read.
pub trait I2CBus {
    spec fn ops(&self) -> Seq<BusOp>;

    spec fn pending(&self) -> usize;

    fn begin_transmission(&mut self, addr: u8)
        ensures
            final(self).ops() == old(self).ops().push(BusOp::Begin(addr)),
    ;

    fn write_byte(&mut self, val: u8)
        ensures
            final(self).ops() == old(self).ops().push(BusOp::Write(val)),
    ;

    fn end_transmission(&mut self, send_stop: bool) -> (r: u8)
        ensures
            final(self).ops() == old(self).ops().push(BusOp::End(send_stop, r)),
    ;

    fn request_from(&mut self, addr: u8, len: usize) -> (r: usize)
        ensures
            final(self).ops() == old(self).ops().push(BusOp::Request(addr, len, r)),
    ;

    /// Reading takes one of the pending bytes, when there is one.
    fn read_byte(&mut self) -> (r: u8)
        ensures
            final(self).ops() == old(self).ops().push(BusOp::Read(r)),
            final(self).pending() == if old(self).pending() > 0 {
                (old(self).pending() - 1) as usize
            } else {
                0
            },
    ;

    fn available(&self) -> (r: usize)
        ensures
            r == self.pending(),
    ;
}

/// The accelerometer's full-scale range.
#[derive(Clone, Copy, PartialEq, Eq, Structural, Debug)]
pub enum AccelRange {
    Range2G,
    Range4G,
    Range8G,
    Range16G,
}

impl AccelRange {
    /// The range's code in the configuration register (0 to 3).
    pub open spec fn spec_code(self) -> u8 {
        match self {
            AccelRange::Range2G => 0,
            AccelRange::Range4G => 1,
            AccelRange::Range8G => 2,
            AccelRange::Range16G => 3,
        }
    }

    #[verifier::when_used_as_spec(spec_code)]
    pub fn code(self) -> (r: u8)
        ensures
            r == self.spec_code(),
    {
        match self {
            AccelRange::Range2G => 0,
            AccelRange::Range4G => 1,
            AccelRange::Range8G => 2,
            AccelRange::Range16G => 3,
        }
    }
}

/// Raw counts per g at range code `c`.
pub open spec fn lsb_per_g(c: u8) -> u16 {
    if c == 0 {
        16384
    } else if c == 1 {
        8192
    } else if c == 2 {
        4096
    } else {
        2048
    }
}

pub const REG_WHO_AM_I: u8 = 0x75;
pub const REG_PWR_MGMT_1: u8 = 0x6B;
pub const REG_SMPLRT_DIV: u8 = 0x19;
pub const REG_CONFIG: u8 = 0x1A;
pub const REG_GYRO_CONFIG: u8 = 0x1B;
pub const REG_ACCEL_CONFIG: u8 = 0x1C;
pub const REG_ACCEL_XOUT_H: u8 = 0x3B;
pub const REG_TEMP_OUT_H: u8 = 0x41;

/// What WHO_AM_I reads on an MPU6050.
pub const MPU_WHO_AM_I_VALUE: u8 = 0x68;

/// One exchange on the bus, with what the bus answered.
pub enum MinTxn {
    /// A one-byte command: address, command, end status (with stop).
    Cmd(u8, u8, u8),
    /// A register write: address, register, value, end status (with stop).
    WriteReg(u8, u8, u8, u8),
    /// A request without a command: address, count asked, count granted,
    /// and the bytes read (the data when the counts agree, else what was
    /// drained).
    Fetch(u8, usize, usize, Seq<u8>),
    /// A register read: address, register, end status (repeated start),
    /// count asked, count granted, and the bytes read as for `Fetch`.
    ReadRegs(u8, u8, u8, usize, usize, Seq<u8>),
}

pub open spec fn reads_of(b: Seq<u8>) -> Seq<BusOp> {
    b.map_values(|v: u8| BusOp::Read(v))
}

/// The bus operations of a transaction.
pub open spec fn min_ops(t: MinTxn) -> Seq<BusOp> {
    match t {
        MinTxn::Cmd(a, c, e) => seq![BusOp::Begin(a), BusOp::Write(c), BusOp::End(true, e)],
        MinTxn::WriteReg(a, g, v, e) => seq![
            BusOp::Begin(a),
            BusOp::Write(g),
            BusOp::Write(v),
            BusOp::End(true, e),
        ],
        MinTxn::Fetch(a, n, got, b) => seq![BusOp::Request(a, n, got)] + reads_of(b),
        MinTxn::ReadRegs(a, g, e, n, got, b) => seq![BusOp::Begin(a), BusOp::Write(g), BusOp::End(false, e)]
            + if e != 0 {
            seq![]
        } else {
            seq![BusOp::Request(a, n, got)] + reads_of(b)
        },
    }
}

pub open spec fn min_ops_all(ts: Seq<MinTxn>) -> Seq<BusOp>
    decreases ts.len(),
{
    if ts.len() == 0 {
        seq![]
    } else {
        min_ops_all(ts.drop_last()) + min_ops(ts.last())
    }
}

/// The bus operations of one more transaction come after the others.
pub proof fn lemma_ops_push(ts: Seq<MinTxn>, t: MinTxn)
    ensures
        min_ops_all(ts.push(t)) == min_ops_all(ts) + min_ops(t),
{
    assert(ts.push(t).drop_last() =~= ts);
}

/// A single transaction's bus operations.
pub proof fn lemma_ops_one(t: MinTxn)
    ensures
        min_ops_all(seq![t]) == min_ops(t),
{
    assert(seq![t].drop_last() =~= Seq::<MinTxn>::empty());
    assert(seq![t].last() == t);
    assert(min_ops_all(Seq::<MinTxn>::empty()) =~= Seq::<BusOp>::empty());
    assert(min_ops_all(seq![t]) =~= min_ops(t));
}

/// Whether a read of `n` bytes got them all; then they are `n` bytes.
pub open spec fn read_ok(t: MinTxn) -> bool {
    match t {
        MinTxn::Fetch(_, n, got, _) => got == n,
        MinTxn::ReadRegs(_, _, e, n, got, _) => e == 0 && got == n,
        _ => false,
    }
}

/// The bytes a read brought back.
pub open spec fn read_bytes_of(t: MinTxn) -> Seq<u8> {
    match t {
        MinTxn::Fetch(_, _, _, b) => b,
        MinTxn::ReadRegs(_, _, _, _, _, b) => b,
        _ => seq![],
    }
}

/// `t` is a read of `n` bytes of register `reg` of the chip at `a`, and
/// holds `n` bytes when it succeeded.
pub open spec fn reads_regs(t: MinTxn, a: u8, reg: u8, n: usize) -> bool {
    &&& t matches MinTxn::ReadRegs(ta, g, _, m, _, _) && ta == a && g == reg && m == n
    &&& read_ok(t) ==> read_bytes_of(t).len() == n
}

/// `t` is a request for `n` bytes from the chip at `a`, holding `n` bytes
/// when it succeeded.
pub open spec fn fetches(t: MinTxn, a: u8, n: usize) -> bool {
    &&& t matches MinTxn::Fetch(ta, m, _, _) && ta == a && m == n
    &&& read_ok(t) ==> read_bytes_of(t).len() == n
}

/// Whether a register write was acknowledged.
pub open spec fn write_ok(t: MinTxn) -> bool {
    t matches MinTxn::WriteReg(_, _, _, e) && e == 0
}

/// `ts` writes the first registers of `regs` in order to the chip at `a`,
/// stopping after the first write that failed.
pub open spec fn writes_until_failure(ts: Seq<MinTxn>, a: u8, regs: Seq<(u8, u8)>) -> bool {
    &&& 1 <= ts.len() <= regs.len()
    &&& forall|i: int|
        #![trigger ts[i]]
        0 <= i < ts.len() ==> (ts[i] matches MinTxn::WriteReg(ta, g, v, _) && ta == a && g == regs[i].0 && v
            == regs[i].1)
    &&& forall|i: int| #![trigger ts[i]] 0 <= i < ts.len() - 1 ==> write_ok(ts[i])
    &&& ts.len() < regs.len() ==> !write_ok(ts.last())
}

/// Whether every write of such a run was acknowledged.
pub open spec fn all_written(ts: Seq<MinTxn>, regs: Seq<(u8, u8)>) -> bool {
    ts.len() == regs.len() && write_ok(ts.last())
}

/// The digital low-pass setting actually written for `dlpf_cfg`: its low
/// three bits, with 0 and 7 (which change the gyro rate) replaced by 1.
pub open spec fn dlpf_setting(dlpf_cfg: u8) -> u8 {
    let c = dlpf_cfg % 8;
    if c == 0 || c == 7 {
        1
    } else {
        c
    }
}

/// The sample-rate divider for `rate_hz`: with the 1 kHz base rate,
/// 1000 / rate - 1, the rate first held to 10..1000 Hz.
pub open spec fn sample_divider(rate_hz: u16) -> u8 {
    let r = if rate_hz < 10 {
        10
    } else if rate_hz > 1000 {
        1000
    } else {
        rate_hz as int
    };
    (1000int / r - 1) as u8
}

/// The register writes of a configuration, in order.
pub open spec fn config_writes(rate_hz: u16, range: AccelRange, dlpf_cfg: u8) -> Seq<(u8, u8)> {
    seq![
        (REG_PWR_MGMT_1, 0x01u8),
        (REG_CONFIG, dlpf_setting(dlpf_cfg)),
        (REG_GYRO_CONFIG, 0x00u8),
        (REG_ACCEL_CONFIG, (range.spec_code() * 8) as u8),
        (REG_SMPLRT_DIV, sample_divider(rate_hz)),
    ]
}

/// The value of a big-endian pair of bytes as a signed 16-bit number.
pub open spec fn be_i16(h: u8, l: u8) -> i16 {
    (h * 256 + l) as i16
}

/// The state of an MPU6050 driver.
pub struct MPU6050Minimal {
    addr: u8,
    connected: bool,
    accel_lsb_per_g: u16,
}

impl MPU6050Minimal {
    /// The chip address in use.
    pub closed spec fn spec_addr(&self) -> u8 {
        self.addr
    }

    /// Whether the chip was found and configured.
    pub closed spec fn spec_connected(&self) -> bool {
        self.connected
    }

    /// Raw accelerometer counts per g.
    pub closed spec fn spec_lsb(&self) -> u16 {
        self.accel_lsb_per_g
    }

    /// A driver not yet connected, at address 0, at the 2 g sensitivity.
    pub fn new() -> (r: Self)
        ensures
            r.spec_addr() == 0,
            !r.spec_connected(),
            r.spec_lsb() == 16384,
    {
        MPU6050Minimal { addr: 0, connected: false, accel_lsb_per_g: 16384 }
    }

    /// Whether the chip was found and configured.
    pub fn is_connected(&self) -> (r: bool)
        ensures
            r == self.spec_connected(),
    {
        self.connected
    }

    /// The chip address in use.
    pub fn address(&self) -> (r: u8)
        ensures
            r == self.spec_addr(),
    {
        self.addr
    }

    /// Raw accelerometer counts per g at the configured range.
    pub fn accel_lsb_per_g(&self) -> (r: u16)
        ensures
            r == self.spec_lsb(),
    {
        self.accel_lsb_per_g
    }

    fn write_reg<W: I2CBus>(&self, wire: &mut W, reg: u8, val: u8) -> (r: (bool, Ghost<MinTxn>))
        ensures
            final(wire).ops() == old(wire).ops() + min_ops(r.1@),
            r.1@ matches MinTxn::WriteReg(a, g, v, _) && a == self.addr && g == reg && v == val,
            r.0 == write_ok(r.1@),
    {
        let ghost o = wire.ops();
        wire.begin_transmission(self.addr);
        wire.write_byte(reg);
        wire.write_byte(val);
        let err = wire.end_transmission(true);
        let ghost t = MinTxn::WriteReg(self.addr, reg, val, err);
        assert(wire.ops() =~= o + min_ops(t));
        (err == 0, Ghost(t))
    }

    fn read_regs<W: I2CBus>(&self, wire: &mut W, reg: u8, n: usize) -> (r: (Option<Vec<u8>>, Ghost<MinTxn>))
        ensures
            final(wire).ops() == old(wire).ops() + min_ops(r.1@),
            reads_regs(r.1@, self.addr, reg, n),
            r.0 is Some == read_ok(r.1@),
            r.0 is Some ==> r.0->0@ == read_bytes_of(r.1@),
    {
        let ghost o = wire.ops();
        wire.begin_transmission(self.addr);
        wire.write_byte(reg);
        let err = wire.end_transmission(false);
        if err != 0 {
            let ghost t = MinTxn::ReadRegs(self.addr, reg, err, n, 0, seq![]);
            assert(wire.ops() =~= o + min_ops(t));
            return (None, Ghost(t));
        }
        let got = wire.request_from(self.addr, n);
        let ghost o1 = wire.ops();
        let (bytes, Ghost(b)) = read_or_drain(wire, n, got);
        let ghost t = MinTxn::ReadRegs(self.addr, reg, 0, n, got, b);
        assert(wire.ops() =~= o + min_ops(t));
        (bytes, Ghost(t))
    }

    /// Look for the chip at `addr`: whether WHO_AM_I reads 0x68 there.
    fn detect<W: I2CBus>(&mut self, wire: &mut W, addr: u8) -> (r: (bool, Ghost<MinTxn>))
        ensures
            final(wire).ops() == old(wire).ops() + min_ops(r.1@),
            reads_regs(r.1@, addr, REG_WHO_AM_I, 1),
            r.0 == found(r.1@),
            final(self).addr == addr,
            final(self).connected == old(self).connected,
            final(self).accel_lsb_per_g == old(self).accel_lsb_per_g,
    {
        self.addr = addr;
        let (who, g) = self.read_regs(wire, REG_WHO_AM_I, 1);
        match who {
            Some(w) => (w[0] == MPU_WHO_AM_I_VALUE, g),
            None => (false, g),
        }
    }

    /// Wake the chip and set it up for sampling at `sample_rate_hz` with
    /// `accel_range` and low-pass `dlpf_cfg`: whether every write was
    /// acknowledged. The sensitivity follows the range once the range
    /// register was written.
    fn configure<W: I2CBus>(
        &mut self,
        wire: &mut W,
        sample_rate_hz: u16,
        accel_range: AccelRange,
        dlpf_cfg: u8,
    ) -> (r: (bool, Ghost<Seq<MinTxn>>))
        ensures
            final(wire).ops() == old(wire).ops() + min_ops_all(r.1@),
            writes_until_failure(r.1@, old(self).addr, config_writes(sample_rate_hz, accel_range, dlpf_cfg)),
            r.0 == all_written(r.1@, config_writes(sample_rate_hz, accel_range, dlpf_cfg)),
            final(self).addr == old(self).addr,
            final(self).connected == old(self).connected,
            final(self).accel_lsb_per_g == if r.1@.len() == 5 {
                lsb_per_g(accel_range.spec_code())
            } else {
                old(self).accel_lsb_per_g
            },
    {
        let ghost regs = config_writes(sample_rate_hz, accel_range, dlpf_cfg);
        let ghost o = wire.ops();
        let (ok, Ghost(t0)) = self.write_reg(wire, REG_PWR_MGMT_1, 0x01);
        let ghost ts = seq![t0];
        proof {
            lemma_ops_one(t0);
        }
        if !ok {
            return (false, Ghost(ts));
        }
        let mut dlpf = dlpf_cfg & 0x07;
        proof {
            crate::bits::lemma_u8_low_bits();
        }
        assert(dlpf_cfg & 0x07 == dlpf_cfg % 8);
        if dlpf == 0 || dlpf == 7 {
            dlpf = 1;
        }
        let (ok, Ghost(t1)) = self.write_reg(wire, REG_CONFIG, dlpf);
        proof {
            lemma_ops_push(ts, t1);
            ts = ts.push(t1);
        }
        if !ok {
            return (false, Ghost(ts));
        }
        let (ok, Ghost(t2)) = self.write_reg(wire, REG_GYRO_CONFIG, 0x00);
        proof {
            lemma_ops_push(ts, t2);
            ts = ts.push(t2);
        }
        if !ok {
            return (false, Ghost(ts));
        }
        let code = accel_range.code();
        let accel_cfg = (code & 0x03) << 3u8;
        assert((code & 0x03) << 3u8 == code * 8) by (bit_vector)
            requires
                code <= 3,
        ;
        let (ok, Ghost(t3)) = self.write_reg(wire, REG_ACCEL_CONFIG, accel_cfg);
        proof {
            lemma_ops_push(ts, t3);
            ts = ts.push(t3);
        }
        if !ok {
            return (false, Ghost(ts));
        }
        self.accel_lsb_per_g = match accel_range {
            AccelRange::Range2G => 16384,
            AccelRange::Range4G => 8192,
            AccelRange::Range8G => 4096,
            AccelRange::Range16G => 2048,
        };
        let mut rate = sample_rate_hz;
        if rate < 10 {
            rate = 10;
        }
        if rate > 1000 {
            rate = 1000;
        }
        let mut div: u16 = if rate >= 1000 {
            0
        } else {
            let d = 1000 / rate;
            let d = if d == 0 {
                1
            } else {
                d
            };
            d - 1
        };
        if div > 255 {
            div = 255;
        }
        assert(div == sample_divider(sample_rate_hz)) by {
            let r: int = rate as int;
            assert(10 <= r <= 1000);
            if r < 1000 {
                assert(1 <= 1000int / r <= 100) by (nonlinear_arith)
                    requires
                        10 <= r < 1000,
                ;
                assert(div == 1000int / r - 1);
            } else {
                assert(div == 0);
                assert(1000int / r - 1 == 0);
            }
            assert(0 <= 1000int / r - 1 <= 99);
        }
        let (ok, Ghost(t4)) = self.write_reg(wire, REG_SMPLRT_DIV, div as u8);
        proof {
            lemma_ops_push(ts, t4);
            ts = ts.push(t4);
        }
        (ok, Ghost(ts))
    }

    /// Find the chip (at `forced_address` when it is not negative, else at
    /// 0x69 and then 0x68) and configure it: whether both succeeded. The
    /// driver counts as connected exactly when they did.
    pub fn begin<W: I2CBus>(
        &mut self,
        wire: &mut W,
        forced_address: i8,
        sample_rate_hz: u16,
        accel_range: AccelRange,
        dlpf_cfg: u8,
    ) -> (r: bool)
        ensures
            final(self).spec_connected() == r,
            exists|ts: Seq<MinTxn>|
                #![trigger min_ops_all(ts)]
                final(wire).ops() == old(wire).ops() + min_ops_all(ts) && begun(
                    ts,
                    forced_address,
                    config_writes(sample_rate_hz, accel_range, dlpf_cfg),
                    final(self).spec_addr(),
                    r,
                ) && final(self).spec_lsb() == if configured_range(ts, forced_address) {
                    lsb_per_g(accel_range.spec_code())
                } else {
                    old(self).spec_lsb()
                },
    {
        self.connected = false;
        let ghost o = wire.ops();
        let ghost mut ts: Seq<MinTxn> = Seq::empty();
        if forced_address >= 0 {
            let (f, Ghost(t)) = self.detect(wire, forced_address as u8);
            proof {
                lemma_ops_one(t);
                ts = seq![t];
            }
            if !f {
                assert(begun(ts, forced_address, config_writes(sample_rate_hz, accel_range, dlpf_cfg), self.addr, false));
                assert(wire.ops() == o + min_ops_all(ts));
                return false;
            }
        } else {
            let (f, Ghost(t)) = self.detect(wire, 0x69);
            proof {
                lemma_ops_one(t);
                ts = seq![t];
            }
            if !f {
                let (f2, Ghost(t2)) = self.detect(wire, 0x68);
                proof {
                    lemma_ops_push(ts, t2);
                    ts = ts.push(t2);
                }
                if !f2 {
                    assert(begun(ts, forced_address, config_writes(sample_rate_hz, accel_range, dlpf_cfg), self.addr, false));
                    assert(wire.ops() == o + min_ops_all(ts));
                    return false;
                }
            }
        }
        let ghost det = ts;
        let ghost o1 = wire.ops();
        let (ok, Ghost(cs)) = self.configure(wire, sample_rate_hz, accel_range, dlpf_cfg);
        proof {
            lemma_ops_concat(det, cs);
            ts = det + cs;
            assert(ts.skip(det.len() as int) =~= cs);
            assert(ts.take(det.len() as int) =~= det);
        }
        if !ok {
            self.connected = false;
            assert(begun(ts, forced_address, config_writes(sample_rate_hz, accel_range, dlpf_cfg), self.addr, false));
            assert(wire.ops() == o + min_ops_all(ts));
            return false;
        }
        self.connected = true;
        assert(begun(ts, forced_address, config_writes(sample_rate_hz, accel_range, dlpf_cfg), self.addr, true));
        assert(wire.ops() == o + min_ops_all(ts));
        true
    }

    /// The three raw accelerometer readings (x, y, z), each a big-endian
    /// signed 16-bit value; none when the read failed.
    pub fn read_accel_raw<W: I2CBus>(&self, wire: &mut W) -> (r: Option<(i16, i16, i16)>)
        ensures
            exists|t: MinTxn|
                #![trigger min_ops(t)]
                final(wire).ops() == old(wire).ops() + min_ops(t) && reads_regs(t, self.spec_addr(), REG_ACCEL_XOUT_H, 6)
                    && r == if read_ok(t) {
                    let b = read_bytes_of(t);
                    Some((be_i16(b[0], b[1]), be_i16(b[2], b[3]), be_i16(b[4], b[5])))
                } else {
                    None::<(i16, i16, i16)>
                },
    {
        let (buf, Ghost(t)) = self.read_regs(wire, REG_ACCEL_XOUT_H, 6);
        match buf {
            Some(b) => {
                let x = be_pair(b[0], b[1]);
                let y = be_pair(b[2], b[3]);
                let z = be_pair(b[4], b[5]);
                Some((x, y, z))
            },
            None => None,
        }
    }

    /// The raw internal temperature reading, a big-endian signed 16-bit
    /// value; none when the read failed.
    pub fn read_temperature_raw<W: I2CBus>(&self, wire: &mut W) -> (r: Option<i16>)
        ensures
            exists|t: MinTxn|
                #![trigger min_ops(t)]
                final(wire).ops() == old(wire).ops() + min_ops(t) && reads_regs(t, self.spec_addr(), REG_TEMP_OUT_H, 2)
                    && r == if read_ok(t) {
                    let b = read_bytes_of(t);
                    Some(be_i16(b[0], b[1]))
                } else {
                    None::<i16>
                },
    {
        let (buf, Ghost(t)) = self.read_regs(wire, REG_TEMP_OUT_H, 2);
        match buf {
            Some(b) => Some(be_pair(b[0], b[1])),
            None => None,
        }
    }
}

/// The bus operations of two runs of transactions, one after the other.
pub proof fn lemma_ops_concat(a: Seq<MinTxn>, b: Seq<MinTxn>)
    ensures
        min_ops_all(a + b) == min_ops_all(a) + min_ops_all(b),
    decreases b.len(),
{
    if b.len() == 0 {
        assert(a + b =~= a);
        assert(min_ops_all(a) + min_ops_all(b) =~= min_ops_all(a));
    } else {
        lemma_ops_concat(a, b.drop_last());
        assert((a + b).drop_last() =~= a + b.drop_last());
        assert((a + b).last() == b.last());
        assert(min_ops_all(a + b) =~= min_ops_all(a) + min_ops_all(b));
    }
}

/// Whether a WHO_AM_I read found the chip.
pub open spec fn found(t: MinTxn) -> bool {
    read_ok(t) && read_bytes_of(t)[0] == MPU_WHO_AM_I_VALUE
}

/// How many transactions the search for the chip took.
pub open spec fn detect_len(ts: Seq<MinTxn>, forced_address: i8) -> int {
    if forced_address >= 0 || found(ts[0]) {
        1
    } else {
        2
    }
}

/// Whether a run of `begin` found the chip and got as far as the last
/// configuration write, the range register having been written.
pub open spec fn configured_range(ts: Seq<MinTxn>, forced_address: i8) -> bool {
    let k = detect_len(ts, forced_address);
    found(ts[k - 1]) && ts.len() == k + 5
}

/// `ts` is a run of `begin`: the search for the chip and then, when it was
/// found, the configuration writes `regs` to it; `addr` is the address
/// last tried and `r` the outcome.
pub open spec fn begun(ts: Seq<MinTxn>, forced_address: i8, regs: Seq<(u8, u8)>, addr: u8, r: bool) -> bool {
    let k = detect_len(ts, forced_address);
    let last = ts[k - 1];
    &&& k <= ts.len()
    &&& if forced_address >= 0 {
        reads_regs(ts[0], forced_address as u8, REG_WHO_AM_I, 1) && addr == forced_address as u8
    } else {
        &&& reads_regs(ts[0], 0x69, REG_WHO_AM_I, 1)
        &&& k == 2 ==> reads_regs(ts[1], 0x68, REG_WHO_AM_I, 1)
        &&& addr == if k == 1 {
            0x69u8
        } else {
            0x68u8
        }
    }
    &&& if !found(last) {
        ts.len() == k && !r
    } else {
        writes_until_failure(ts.skip(k), addr, regs) && r == all_written(ts.skip(k), regs)
    }
}

/// The big-endian pair `h`, `l` as a signed 16-bit value.
fn be_pair(h: u8, l: u8) -> (r: i16)
    ensures
        r == be_i16(h, l),
{
    let u: u16 = ((h as u16) << 8u16) | (l as u16);
    proof {
        crate::bits::lemma_be16();
    }
    #[verifier::truncate]
    (u as i16)
}

/// Read `n` bytes after a request that was granted `got`: all of them when
/// `got == n`, else drain what the bus holds and give none.
pub(crate) fn read_or_drain<W: I2CBus>(wire: &mut W, n: usize, got: usize) -> (r: (Option<Vec<u8>>, Ghost<Seq<u8>>))
    ensures
        final(wire).ops() == old(wire).ops() + reads_of(r.1@),
        r.0 is Some == (got == n),
        r.0 is Some ==> r.0->0@ == r.1@ && r.1@.len() == n,
{
    let ghost o = wire.ops();
    if got != n {
        let ghost mut drained: Seq<u8> = Seq::empty();
        while wire.available() > 0
            invariant
                wire.ops() == o + reads_of(drained),
            decreases wire.pending(),
        {
            let b = wire.read_byte();
            proof {
                assert(reads_of(drained.push(b)) =~= reads_of(drained).push(BusOp::Read(b)));
                drained = drained.push(b);
            }
        }
        return (None, Ghost(drained));
    }
    let mut bytes: Vec<u8> = Vec::new();
    let mut i: usize = 0;
    while i < n
        invariant
            i <= n,
            bytes@.len() == i,
            wire.ops() == o + reads_of(bytes@),
        decreases n - i,
    {
        let b = wire.read_byte();
        proof {
            assert(reads_of(bytes@.push(b)) =~= reads_of(bytes@).push(BusOp::Read(b)));
        }
        bytes.push(b);
        i = i + 1;
    }
    let ghost v = bytes@;
    (Some(bytes), Ghost(v))
}

} // verus!
