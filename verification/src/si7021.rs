//! Driver for the Si7021 temperature and humidity sensor on I2C.
//!
//! Every exchange with the chip is recorded in a ghost log of transactions
//! (`SiTxn`); the contracts say which transactions each call makes and how
//! its result follows from what the chip answered. Turning the raw codes
//! into degrees and percent is floating point and is left to callers.
use vstd::prelude::*;

pub use crate::wire::{I2CBus, DelayMs, I2cOp};

verus! {

pub const SI7021_I2C_ADDRESS: u8 = 0x40;
pub const SI7021_SOFT_RESET_DELAY: u16 = 0x0F;
pub const SI7021_MEAS_RH_HOLD_MODE: u8 = 0xE5;
pub const SI7021_MEAS_RH_NOHOLD_MODE: u8 = 0xF5;
pub const SI7021_MEAS_TEMP_HOLD_MODE: u8 = 0xE3;
pub const SI7021_MEAS_TEMP_NOHOLD_MODE: u8 = 0xF3;
pub const SI7021_READ_TEMP_PREV_RH_MEAS: u8 = 0xE0;
pub const SI7021_RESET: u8 = 0xFE;
pub const SI7021_WRITE_USER_REG: u8 = 0xE6;
pub const SI7021_READ_USER_REG: u8 = 0xE7;
pub const SI7021_WRITE_HEATER_CNTRL_REG: u8 = 0x51;
pub const SI7021_READ_HEATER_CNTRL_REG: u8 = 0x11;
pub const SI7021_ID1_CMD0: u8 = 0xFA;
pub const SI7021_ID1_CMD1: u8 = 0x0F;
pub const SI7021_ID2_CMD0: u8 = 0xFC;
pub const SI7021_ID2_CMD1: u8 = 0xC9;
pub const SI7021_FIMWARE_REV_CMD0: u8 = 0x84;
pub const SI7021_FIMWARE_REV_CMD1: u8 = 0xB8;

/// The wait after a measurement command before its result is fetched, in ms.
pub const SI7021_MEAS_DELAY: u16 = 25;

/// The bit fields of user register 1.
#[derive(Clone, Copy, Debug)]
pub struct UserReg {
    pub res0: bool,
    pub rsvd0: bool,
    pub htre: bool,
    /// Bits 3 to 5; only the low three bits of the field are register bits.
    pub rsvd1: u8,
    pub vdds: bool,
    pub res1: bool,
}

impl Default for UserReg {
    fn default() -> (r: Self)
        ensures
            r == (UserReg { res0: false, rsvd0: false, htre: false, rsvd1: 0, vdds: false, res1: false }),
    {
        UserReg { res0: false, rsvd0: false, htre: false, rsvd1: 0, vdds: false, res1: false }
    }
}

/// 1 for a set flag, 0 for a clear one.
pub open spec fn bit(b: bool) -> int {
    if b {
        1
    } else {
        0
    }
}

/// Whether bit `k` of `v` is set.
pub open spec fn bit_of(v: int, k: nat) -> bool {
    (v / vstd::arithmetic::power2::pow2(k) as int) % 2 == 1
}

/// The register value that `r` packs to.
pub open spec fn packed(r: UserReg) -> int {
    bit(r.res0) + 2 * bit(r.rsvd0) + 4 * bit(r.htre) + 8 * (r.rsvd1 % 8) + 64 * bit(r.vdds) + 128 * bit(
        r.res1,
    )
}

/// The fields that the register value `v` unpacks to.
pub open spec fn unpacked(v: u8) -> UserReg {
    UserReg {
        res0: v % 2 == 1,
        rsvd0: (v / 2) % 2 == 1,
        htre: (v / 4) % 2 == 1,
        rsvd1: ((v / 8) % 8) as u8,
        vdds: (v / 64) % 2 == 1,
        res1: v / 128 == 1,
    }
}

fn flag(b: bool) -> (r: u8)
    ensures
        r == bit(b),
{
    if b {
        1
    } else {
        0
    }
}

impl UserReg {
    /// Pack the fields into the register byte.
    pub fn to_u8(&self) -> (r: u8)
        ensures
            r == packed(*self),
    {
        let a = flag(self.res0);
        let b = flag(self.rsvd0);
        let c = flag(self.htre);
        let d = self.rsvd1;
        let e = flag(self.vdds);
        let f = flag(self.res1);
        let v = a | (b << 1u8) | (c << 2u8) | ((d & 0x07) << 3u8) | (e << 6u8) | (f << 7u8);
        assert(v == a + 2 * b + 4 * c + 8 * (d % 8) + 64 * e + 128 * f) by (bit_vector)
            requires
                a <= 1,
                b <= 1,
                c <= 1,
                e <= 1,
                f <= 1,
                v == a | (b << 1u8) | (c << 2u8) | ((d & 0x07) << 3u8) | (e << 6u8) | (f << 7u8),
        ;
        v
    }

    /// Unpack the register byte `val` into its fields.
    pub fn from_u8(val: u8) -> (r: Self)
        ensures
            r == unpacked(val),
    {
        let r = UserReg {
            res0: (val & 0x01) != 0,
            rsvd0: (val & 0x02) != 0,
            htre: (val & 0x04) != 0,
            rsvd1: (val >> 3u8) & 0x07,
            vdds: (val & 0x40) != 0,
            res1: (val & 0x80) != 0,
        };
        proof {
            lemma_unpacked_bits(val);
        }
        r
    }
}

proof fn lemma_unpacked_bits(val: u8)
    by (bit_vector)
    ensures
        ((val & 0x01) != 0) == (val % 2 == 1),
        ((val & 0x02) != 0) == ((val / 2) % 2 == 1),
        ((val & 0x04) != 0) == ((val / 4) % 2 == 1),
        (val >> 3u8) & 0x07 == (val / 8) % 8,
        ((val & 0x40) != 0) == ((val / 64) % 2 == 1),
        ((val & 0x80) != 0) == (val / 128 == 1),
{
}

/// Unpacking a register byte and packing the fields again gives the byte back.
pub proof fn lemma_user_reg_byte_roundtrip(v: u8)
    ensures
        packed(unpacked(v)) == v,
{
    assert(packed(unpacked(v)) == v) by (nonlinear_arith)
        requires
            0 <= v < 256,
    {
        let u = unpacked(v);
        assert(v == v % 2 + 2 * ((v / 2) % 2) + 4 * ((v / 4) % 2) + 8 * ((v / 8) % 8) + 64 * ((v / 64) % 2)
            + 128 * (v / 128));
    }
}

/// Packing the fields and unpacking the byte gives the fields back, but for
/// the bits of `rsvd1` beyond its three, which the register does not hold.
pub proof fn lemma_user_reg_fields_roundtrip(r: UserReg)
    ensures
        0 <= packed(r) < 256,
        unpacked(packed(r) as u8) == (UserReg { rsvd1: (r.rsvd1 % 8) as u8, ..r }),
{
    let a = bit(r.res0);
    let b = bit(r.rsvd0);
    let c = bit(r.htre);
    let d = r.rsvd1 % 8;
    let e = bit(r.vdds);
    let f = bit(r.res1);
    let v = a + 2 * b + 4 * c + 8 * d + 64 * e + 128 * f;
    assert(0 <= v < 256);
    assert(v % 2 == a);
    assert((v / 2) % 2 == b);
    assert((v / 4) % 2 == c);
    assert((v / 8) % 8 == d);
    assert((v / 64) % 2 == e);
    assert(v / 128 == f);
}

/// One exchange with the chip, with what the bus returned.
pub enum SiTxn {
    /// The address alone, and the end status.
    Probe(u8),
    /// A one-byte command and the end status.
    Command(u8, u8),
    /// A two-byte command (or register write) and the end status.
    Write(u8, u8, u8),
    /// A request for bytes without a command: how many, the request's
    /// reply, and the bytes when as many as asked for were available.
    Fetch(u8, u8, Option<Seq<u8>>),
    /// A register read: register, end status, how many, the request's
    /// reply, and the bytes when as many as asked for were available.
    RegRead(u8, u8, u8, u8, Option<Seq<u8>>),
}

/// The bytes a read handed back, if any.
pub open spec fn bytes_of(r: Option<Vec<u8>>) -> Option<Seq<u8>> {
    match r {
        Some(v) => Some(v@),
        None => None,
    }
}

/// The reads of the bytes `b`, in order.
pub open spec fn reads_of(b: Option<Seq<u8>>) -> Seq<I2cOp> {
    match b {
        Some(bs) => bs.map_values(|v: u8| I2cOp::Read(v)),
        None => seq![],
    }
}

/// The bus operations of a transaction with the chip at `a`.
pub open spec fn si_ops(a: u8, t: SiTxn) -> Seq<I2cOp> {
    match t {
        SiTxn::Probe(s) => seq![I2cOp::BeginTransmission(a), I2cOp::EndTransmission(s)],
        SiTxn::Command(c, s) => seq![I2cOp::BeginTransmission(a), I2cOp::Write(c), I2cOp::EndTransmission(s)],
        SiTxn::Write(c, v, s) => seq![
            I2cOp::BeginTransmission(a),
            I2cOp::Write(c),
            I2cOp::Write(v),
            I2cOp::EndTransmission(s),
        ],
        SiTxn::Fetch(n, q, b) => seq![I2cOp::RequestFrom(a, n, q)] + reads_of(b),
        SiTxn::RegRead(reg, s, n, q, b) => seq![
            I2cOp::BeginTransmission(a),
            I2cOp::Write(reg),
            I2cOp::EndTransmission(s),
        ] + if s != 0 {
            seq![]
        } else {
            seq![I2cOp::RequestFrom(a, n, q)] + reads_of(b)
        },
    }
}

pub open spec fn si_ops_all(a: u8, ts: Seq<SiTxn>) -> Seq<I2cOp>
    decreases ts.len(),
{
    if ts.len() == 0 {
        seq![]
    } else {
        si_ops_all(a, ts.drop_last()) + si_ops(a, ts.last())
    }
}

/// `t` fetched `n` bytes without a command, and holds exactly `n` bytes
/// when it holds any.
pub open spec fn fetches(t: SiTxn, n: u8) -> bool {
    t matches SiTxn::Fetch(m, _, b) && m == n && (b is Some ==> b->0.len() == n)
}

/// The bytes a transaction brought back, if any.
pub open spec fn fetched(t: SiTxn) -> Option<Seq<u8>> {
    match t {
        SiTxn::Fetch(_, _, b) => b,
        SiTxn::RegRead(_, s, _, _, b) => if s == 0 {
            b
        } else {
            None
        },
        _ => None,
    }
}

/// `t` is a two-byte command `c0 c1` followed, when acknowledged, by a
/// fetch of `n` bytes.
pub open spec fn id_read(t: Seq<SiTxn>, c0: u8, c1: u8, n: u8) -> bool {
    &&& t.len() >= 1
    &&& t[0] matches SiTxn::Write(a, b, s) && a == c0 && b == c1 && if s == 0 {
        t.len() == 2 && fetches(t[1], n)
    } else {
        t.len() == 1
    }
}

/// How many transactions a command-and-fetch exchange starting at `t[0]` takes.
pub open spec fn id_len(t: Seq<SiTxn>) -> int {
    if t[0] matches SiTxn::Write(_, _, s) && s == 0 {
        2
    } else {
        1
    }
}

/// The bytes that a command-and-fetch exchange brought back, if any.
pub open spec fn id_bytes(t: Seq<SiTxn>) -> Option<Seq<u8>> {
    if t.len() == 2 {
        fetched(t[1])
    } else {
        None
    }
}

/// The upper half of the serial number: bytes 0, 2, 4, 6 of the first
/// identification read, most significant first; 0 when it failed.
pub open spec fn serial_hi(b: Option<Seq<u8>>) -> int {
    match b {
        Some(d) => d[0] * 0x100_0000_0000_0000 + d[2] * 0x1_0000_0000_0000 + d[4] * 0x100_0000_0000 + d[6]
            * 0x1_0000_0000,
        None => 0,
    }
}

/// The lower half of the serial number: bytes 0, 2, 4, 6 of the second
/// identification read, most significant first; 0 when it failed.
pub open spec fn serial_lo(b: Option<Seq<u8>>) -> int {
    match b {
        Some(d) => d[0] * 0x100_0000 + d[2] * 0x1_0000 + d[4] * 0x100 + d[6],
        None => 0,
    }
}

/// The firmware name for what the revision read brought back.
pub open spec fn firmware_name(b: Option<Seq<u8>>) -> Seq<char> {
    match b {
        Some(d) => if d[0] == 0xFF {
            "1.0"@
        } else if d[0] == 0x20 {
            "2.0"@
        } else {
            "Unknown"@
        },
        None => "Unknown"@,
    }
}

/// `t` and `w` are a measurement: the command `cmd`, and, when it was
/// acknowledged, the measurement wait and a fetch of three bytes.
pub open spec fn measured(t: Seq<SiTxn>, w: Seq<u16>, cmd: u8) -> bool {
    &&& t.len() >= 1
    &&& t[0] matches SiTxn::Command(c, s) && c == cmd && if s == 0 {
        t.len() == 2 && fetches(t[1], 3) && w == seq![SI7021_MEAS_DELAY]
    } else {
        t.len() == 1 && w.len() == 0
    }
}

/// The raw code of a measurement: its first two bytes, most significant
/// first; none when the command or the fetch failed.
pub open spec fn measured_code(t: Seq<SiTxn>) -> Option<u16> {
    if t.len() == 2 && fetched(t[1]) is Some {
        let d = fetched(t[1])->0;
        Some((d[0] * 256 + d[1]) as u16)
    } else {
        None
    }
}

/// Bytes 0, 2, 4 and 6 of an identification read, most significant first.
fn id_word(d: &Vec<u8>) -> (r: u32)
    requires
        d@.len() == 8,
    ensures
        r == d@[0] * 0x100_0000 + d@[2] * 0x1_0000 + d@[4] * 0x100 + d@[6],
{
    let a = d[0];
    let b = d[2];
    let c = d[4];
    let e = d[6];
    let w = ((a as u32) << 24u32) | ((b as u32) << 16u32) | ((c as u32) << 8u32) | (e as u32);
    assert(((a as u32) << 24u32) | ((b as u32) << 16u32) | ((c as u32) << 8u32) | (e as u32) == a
        * 0x100_0000u32 + b * 0x1_0000u32 + c * 0x100u32 + e) by (bit_vector);
    w
}

/// The state of an Si7021 driver.
pub struct TempAndHumidity<I2C: I2CBus, D: DelayMs> {
    _i2c_slave_address: u8,
    _is_connected: bool,
    i2c: I2C,
    delay: D,
    base: Ghost<Seq<I2cOp>>,
    log: Ghost<Seq<SiTxn>>,
}

impl<I2C: I2CBus, D: DelayMs> TempAndHumidity<I2C, D> {
    /// The transactions with the chip so far.
    pub closed spec fn txns(&self) -> Seq<SiTxn> {
        self.log@
    }

    /// The delays asked for so far.
    pub closed spec fn waits(&self) -> Seq<u16> {
        self.delay.waits()
    }

    /// What was done on the bus.
    pub closed spec fn bus_ops(&self) -> Seq<I2cOp> {
        self.i2c.ops()
    }

    /// What was on the bus before the driver took it.
    pub closed spec fn bus_before(&self) -> Seq<I2cOp> {
        self.base@
    }

    /// Whether the chip counts as connected.
    pub closed spec fn connected(&self) -> bool {
        self._is_connected
    }

    /// The bus holds what was there before plus the transactions.
    pub closed spec fn wf(&self) -> bool {
        &&& self._i2c_slave_address == SI7021_I2C_ADDRESS
        &&& self.i2c.ops() == self.base@ + si_ops_all(SI7021_I2C_ADDRESS, self.log@)
    }

    /// The transactions since state `o`.
    pub open spec fn since(&self, o: &Self) -> Seq<SiTxn> {
        self.txns().skip(o.txns().len() as int)
    }

    /// The delays since state `o`.
    pub open spec fn waited(&self, o: &Self) -> Seq<u16> {
        self.waits().skip(o.waits().len() as int)
    }

    /// This state follows `o`: transactions and delays continue `o`'s.
    pub open spec fn after(&self, o: &Self) -> bool {
        &&& self.wf()
        &&& o.txns().len() <= self.txns().len()
        &&& self.txns().take(o.txns().len() as int) == o.txns()
        &&& o.waits().len() <= self.waits().len()
        &&& self.waits().take(o.waits().len() as int) == o.waits()
        &&& self.bus_before() == o.bus_before()
    }

    /// Only transactions happened.
    pub open spec fn only_io(&self, o: &Self) -> bool {
        &&& self.after(o)
        &&& self.waits() == o.waits()
        &&& self.connected() == o.connected()
    }

    proof fn lemma_after_trans(a: &Self, b: &Self, c: &Self)
        requires
            b.after(a),
            c.after(b),
        ensures
            c.after(a),
            c.since(a) == b.since(a) + c.since(b),
            c.waited(a) == b.waited(a) + c.waited(b),
    {
        assert(c.txns().take(a.txns().len() as int) =~= c.txns().take(b.txns().len() as int).take(
            a.txns().len() as int,
        ));
        assert(c.txns() =~= c.txns().take(b.txns().len() as int) + c.since(b));
        assert(b.txns() =~= b.txns().take(a.txns().len() as int) + b.since(a));
        assert(c.since(a) =~= b.since(a) + c.since(b));
        assert(c.waits().take(a.waits().len() as int) =~= c.waits().take(b.waits().len() as int).take(
            a.waits().len() as int,
        ));
        assert(c.waits() =~= c.waits().take(b.waits().len() as int) + c.waited(b));
        assert(b.waits() =~= b.waits().take(a.waits().len() as int) + b.waited(a));
        assert(c.waited(a) =~= b.waited(a) + c.waited(b));
    }

    /// A driver for the chip on `i2c`, not yet connected.
    pub fn new(i2c: I2C, delay: D) -> (r: Self)
        ensures
            r.wf(),
            r.txns() == Seq::<SiTxn>::empty(),
            r.bus_before() == i2c.ops(),
            r.waits() == delay.waits(),
            !r.connected(),
    {
        let ghost b = i2c.ops();
        let r = TempAndHumidity {
            _i2c_slave_address: SI7021_I2C_ADDRESS,
            _is_connected: false,
            i2c,
            delay,
            base: Ghost(b),
            log: Ghost(Seq::empty()),
        };
        assert(r.i2c.ops() =~= r.base@ + si_ops_all(SI7021_I2C_ADDRESS, r.log@));
        r
    }

    /// Append `t` to the log, the bus having done its operations since `o0`.
    fn log_txn(&mut self, Ghost(o0): Ghost<Seq<I2cOp>>, Ghost(t): Ghost<SiTxn>)
        requires
            old(self)._i2c_slave_address == SI7021_I2C_ADDRESS,
            o0 == old(self).base@ + si_ops_all(SI7021_I2C_ADDRESS, old(self).log@),
            old(self).i2c.ops() == o0 + si_ops(SI7021_I2C_ADDRESS, t),
        ensures
            final(self).wf(),
            final(self).after(old(self)),
            final(self).since(old(self)) == seq![t],
            final(self).waits() == old(self).waits(),
            final(self).connected() == old(self).connected(),
    {
        let ghost l0 = self.log@;
        proof {
            assert(l0.push(t).drop_last() =~= l0);
        }
        self.log = Ghost(self.log@.push(t));
        assert(self.i2c.ops() =~= self.base@ + si_ops_all(SI7021_I2C_ADDRESS, self.log@));
        assert(self.log@.take(l0.len() as int) =~= l0);
        assert(self.log@.skip(l0.len() as int) =~= seq![t]);
        assert(self.waits().take(self.waits().len() as int) =~= self.waits());
    }

    /// Read `length` bytes that the bus holds after a request, when exactly
    /// that many are available; `None`, reading nothing, otherwise.
    fn read_available(&mut self, length: u8) -> (r: Option<Vec<u8>>)
        ensures
            final(self).i2c.ops() == old(self).i2c.ops() + reads_of(bytes_of(r)),
            (r is Some) == (old(self).i2c.pending() == length),
            r is Some ==> r->0@.len() == length,
            final(self)._i2c_slave_address == old(self)._i2c_slave_address,
            final(self)._is_connected == old(self)._is_connected,
            final(self).delay == old(self).delay,
            final(self).base == old(self).base,
            final(self).log == old(self).log,
    {
        if self.i2c.available() != length {
            assert(self.i2c.ops() =~= old(self).i2c.ops() + reads_of(None));
            return None;
        }
        let mut bytes: Vec<u8> = Vec::new();
        let mut i: u8 = 0;
        while i < length
            invariant
                i <= length,
                bytes@.len() == i,
                self.i2c.ops() == old(self).i2c.ops() + bytes@.map_values(|v: u8| I2cOp::Read(v)),
                self._i2c_slave_address == old(self)._i2c_slave_address,
                self._is_connected == old(self)._is_connected,
                self.delay == old(self).delay,
                self.base == old(self).base,
                self.log == old(self).log,
            decreases length - i,
        {
            let b = self.i2c.read_byte();
            proof {
                assert(bytes@.push(b).map_values(|v: u8| I2cOp::Read(v)) =~= bytes@.map_values(
                    |v: u8| I2cOp::Read(v),
                ).push(I2cOp::Read(b)));
            }
            bytes.push(b);
            i = i + 1;
        }
        Some(bytes)
    }

    /// Fetch `length` bytes from the chip without a command; none when not
    /// exactly that many were available.
    fn read_multi_bytes(&mut self, length: u8) -> (r: Option<Vec<u8>>)
        requires
            old(self).wf(),
        ensures
            final(self).only_io(old(self)),
            final(self).since(old(self)).len() == 1,
            fetches(final(self).since(old(self))[0], length),
            match r {
                Some(v) => fetched(final(self).since(old(self))[0]) == Some(v@),
                None => fetched(final(self).since(old(self))[0]) is None,
            },
    {
        let addr = self._i2c_slave_address;
        let ghost o0 = self.i2c.ops();
        let q = self.i2c.request_from(addr, length);
        let r = self.read_available(length);
        let ghost b = bytes_of(r);
        let ghost t = SiTxn::Fetch(length, q, b);
        assert(self.i2c.ops() =~= o0 + si_ops(SI7021_I2C_ADDRESS, t));
        self.log_txn(Ghost(o0), Ghost(t));
        r
    }

    /// Read `length` bytes from register `reg`; none when the chip did not
    /// acknowledge or not exactly that many were available.
    fn read_multi_bytes_reg(&mut self, reg: u8, length: u8) -> (r: Option<Vec<u8>>)
        requires
            old(self).wf(),
        ensures
            final(self).only_io(old(self)),
            final(self).since(old(self)).len() == 1,
            final(self).since(old(self))[0] matches SiTxn::RegRead(rg, _, n, _, b) && rg == reg && n == length && (
            b is Some ==> b->0.len() == length),
            match r {
                Some(v) => fetched(final(self).since(old(self))[0]) == Some(v@),
                None => fetched(final(self).since(old(self))[0]) is None,
            },
    {
        let addr = self._i2c_slave_address;
        let ghost o0 = self.i2c.ops();
        self.i2c.begin_transmission(addr);
        self.i2c.write_byte(reg);
        let s = self.i2c.end_transmission();
        if s != 0 {
            let ghost t = SiTxn::RegRead(reg, s, length, 0, None);
            assert(self.i2c.ops() =~= o0 + si_ops(SI7021_I2C_ADDRESS, t));
            self.log_txn(Ghost(o0), Ghost(t));
            return None;
        }
        let q = self.i2c.request_from(addr, length);
        let r = self.read_available(length);
        let ghost b = bytes_of(r);
        let ghost t = SiTxn::RegRead(reg, 0, length, q, b);
        assert(self.i2c.ops() =~= o0 + si_ops(SI7021_I2C_ADDRESS, t));
        self.log_txn(Ghost(o0), Ghost(t));
        r
    }

    /// Read one byte of register `reg` into `result`: whether it was read;
    /// `result` is left as it was when not.
    fn read_byte_reg(&mut self, reg: u8, result: &mut u8) -> (r: bool)
        requires
            old(self).wf(),
        ensures
            final(self).only_io(old(self)),
            final(self).since(old(self)).len() == 1,
            final(self).since(old(self))[0] matches SiTxn::RegRead(rg, _, n, _, b) && rg == reg && n == 1 && (
            b is Some ==> b->0.len() == 1),
            r == fetched(final(self).since(old(self))[0]) is Some,
            *final(result) == if r {
                fetched(final(self).since(old(self))[0])->0[0]
            } else {
                *old(result)
            },
    {
        match self.read_multi_bytes_reg(reg, 1) {
            Some(v) => {
                *result = v[0];
                true
            },
            None => false,
        }
    }

    /// Send the one-byte command `reg`: whether the chip acknowledged.
    fn write_byte_cmd(&mut self, reg: u8) -> (r: bool)
        requires
            old(self).wf(),
        ensures
            final(self).only_io(old(self)),
            final(self).since(old(self)) == seq![SiTxn::Command(reg, final(self).since(old(self))[0]->Command_1)],
            r == (final(self).since(old(self))[0]->Command_1 == 0),
    {
        let addr = self._i2c_slave_address;
        let ghost o0 = self.i2c.ops();
        self.i2c.begin_transmission(addr);
        self.i2c.write_byte(reg);
        let s = self.i2c.end_transmission();
        let ghost t = SiTxn::Command(reg, s);
        assert(self.i2c.ops() =~= o0 + si_ops(SI7021_I2C_ADDRESS, t));
        self.log_txn(Ghost(o0), Ghost(t));
        s == 0
    }

    /// Send the two bytes `reg` and `val`: whether the chip acknowledged.
    fn write_byte_val(&mut self, reg: u8, val: u8) -> (r: bool)
        requires
            old(self).wf(),
        ensures
            final(self).only_io(old(self)),
            final(self).since(old(self)).len() == 1,
            final(self).since(old(self))[0] matches SiTxn::Write(a, b, s) && a == reg && b == val && r == (s == 0),
    {
        let addr = self._i2c_slave_address;
        let ghost o0 = self.i2c.ops();
        self.i2c.begin_transmission(addr);
        self.i2c.write_byte(reg);
        self.i2c.write_byte(val);
        let s = self.i2c.end_transmission();
        let ghost t = SiTxn::Write(reg, val, s);
        assert(self.i2c.ops() =~= o0 + si_ops(SI7021_I2C_ADDRESS, t));
        self.log_txn(Ghost(o0), Ghost(t));
        s == 0
    }

    /// Address the chip without data: whether it answers.
    fn write_address(&mut self) -> (r: bool)
        requires
            old(self).wf(),
        ensures
            final(self).only_io(old(self)),
            final(self).since(old(self)).len() == 1,
            final(self).since(old(self))[0] matches SiTxn::Probe(s) && r == (s == 0),
    {
        let addr = self._i2c_slave_address;
        let ghost o0 = self.i2c.ops();
        self.i2c.begin_transmission(addr);
        let s = self.i2c.end_transmission();
        let ghost t = SiTxn::Probe(s);
        assert(self.i2c.ops() =~= o0 + si_ops(SI7021_I2C_ADDRESS, t));
        self.log_txn(Ghost(o0), Ghost(t));
        s == 0
    }

    /// Soft-reset the chip: whether it acknowledged the command.
    pub fn reset(&mut self) -> (r: bool)
        requires
            old(self).wf(),
        ensures
            final(self).only_io(old(self)),
            final(self).since(old(self)).len() == 1,
            final(self).since(old(self))[0] matches SiTxn::Command(c, s) && c == SI7021_RESET && r == (s == 0),
    {
        self.write_byte_cmd(SI7021_RESET)
    }

    /// Reset the chip; when it acknowledged, wait for it to restart and
    /// count it as connected.
    pub fn begin(&mut self) -> (r: bool)
        requires
            old(self).wf(),
        ensures
            final(self).after(old(self)),
            final(self).since(old(self)).len() == 1,
            final(self).since(old(self))[0] matches SiTxn::Command(c, s) && c == SI7021_RESET && r == (s == 0),
            r ==> final(self).waited(old(self)) == seq![SI7021_SOFT_RESET_DELAY] && final(self).connected(),
            !r ==> final(self).waits() == old(self).waits() && final(self).connected() == old(self).connected(),
    {
        let ghost o = *self;
        if self.reset() {
            self.delay.delay_ms(SI7021_SOFT_RESET_DELAY);
            self._is_connected = true;
            proof {
                assert(self.waits().take(o.waits().len() as int) =~= o.waits());
                assert(self.waited(&o) =~= seq![SI7021_SOFT_RESET_DELAY]);
            }
            true
        } else {
            false
        }
    }

    /// Probe the chip; when it answers and was not connected, begin it.
    /// It counts as connected exactly when it answered.
    pub fn ping(&mut self) -> (r: bool)
        requires
            old(self).wf(),
        ensures
            final(self).after(old(self)),
            final(self).connected() == r,
            final(self).since(old(self)).len() >= 1,
            final(self).since(old(self))[0] matches SiTxn::Probe(s) && r == (s == 0),
            !(!old(self).connected() && r) ==> final(self).since(old(self)).len() == 1 && final(self).waits()
                == old(self).waits(),
            !old(self).connected() && r ==> {
                let t = final(self).since(old(self));
                &&& t.len() == 2
                &&& t[1] matches SiTxn::Command(c, s) && c == SI7021_RESET && if s == 0 {
                    final(self).waited(old(self)) == seq![SI7021_SOFT_RESET_DELAY]
                } else {
                    final(self).waits() == old(self).waits()
                }
            },
    {
        let ghost o = *self;
        let get_connect_sts = self.write_address();
        if !self._is_connected && get_connect_sts {
            let ghost q1 = *self;
            self.begin();
            proof {
                Self::lemma_after_trans(&o, &q1, self);
                assert(q1.waited(&o) =~= Seq::<u16>::empty());
                assert(self.waits() == o.waits() ==> self.waited(&o) =~= Seq::<u16>::empty());
            }
        }
        self._is_connected = get_connect_sts;
        get_connect_sts
    }

    /// Start a measurement with `cmd`, wait for it, and fetch its three
    /// bytes; the raw code is the first two, most significant first.
    fn measure(&mut self, cmd: u8) -> (r: Option<u16>)
        requires
            old(self).wf(),
        ensures
            final(self).after(old(self)),
            final(self).connected() == old(self).connected(),
            measured(final(self).since(old(self)), final(self).waited(old(self)), cmd),
            r == measured_code(final(self).since(old(self))),
    {
        let ghost o = *self;
        if !self.write_byte_cmd(cmd) {
            proof {
                assert(self.waited(&o) =~= Seq::<u16>::empty());
            }
            return None;
        }
        let ghost q1 = *self;
        self.delay.delay_ms(SI7021_MEAS_DELAY);
        let ghost q2 = *self;
        proof {
            assert(q2.waits().take(q1.waits().len() as int) =~= q1.waits());
            assert(q2.txns().take(q1.txns().len() as int) =~= q1.txns());
            assert(q2.after(&q1));
            Self::lemma_after_trans(&o, &q1, &q2);
            assert(q1.waited(&o) =~= Seq::<u16>::empty());
            assert(q2.waited(&q1) =~= seq![SI7021_MEAS_DELAY]);
            assert(q2.since(&q1) =~= Seq::<SiTxn>::empty());
        }
        let data = self.read_multi_bytes(3);
        proof {
            Self::lemma_after_trans(&o, &q2, self);
            assert(self.waited(&q2) =~= Seq::<u16>::empty());
            assert(self.waited(&o) =~= seq![SI7021_MEAS_DELAY]);
        }
        match data {
            Some(d) => {
                let code: u16 = ((d[0] as u16) << 8u16) | d[1] as u16;
                let h = d[0];
                let l = d[1];
                proof {
                    crate::bits::lemma_be16();
                }
                assert((((h as u16) << 8u16) | (l as u16)) == h * 256 + l);
                Some(code)
            },
            None => None,
        }
    }

    /// The raw relative-humidity code of a measurement without clock
    /// stretching; none when the command or the fetch failed.
    pub fn read_humidity_code(&mut self) -> (r: Option<u16>)
        requires
            old(self).wf(),
        ensures
            final(self).after(old(self)),
            final(self).connected() == old(self).connected(),
            measured(final(self).since(old(self)), final(self).waited(old(self)), SI7021_MEAS_RH_NOHOLD_MODE),
            r == measured_code(final(self).since(old(self))),
    {
        self.measure(SI7021_MEAS_RH_NOHOLD_MODE)
    }

    /// The raw temperature code of a measurement without clock stretching;
    /// none when the command or the fetch failed.
    pub fn read_temperature_code(&mut self) -> (r: Option<u16>)
        requires
            old(self).wf(),
        ensures
            final(self).after(old(self)),
            final(self).connected() == old(self).connected(),
            measured(final(self).since(old(self)), final(self).waited(old(self)), SI7021_MEAS_TEMP_NOHOLD_MODE),
            r == measured_code(final(self).since(old(self))),
    {
        self.measure(SI7021_MEAS_TEMP_NOHOLD_MODE)
    }

    /// Send the two-byte command `c0 c1` and, when acknowledged, fetch `n`
    /// bytes.
    fn command_read(&mut self, c0: u8, c1: u8, n: u8) -> (r: Option<Vec<u8>>)
        requires
            old(self).wf(),
        ensures
            final(self).only_io(old(self)),
            id_read(final(self).since(old(self)), c0, c1, n),
            id_len(final(self).since(old(self))) == final(self).since(old(self)).len(),
            match r {
                Some(v) => id_bytes(final(self).since(old(self))) == Some(v@),
                None => id_bytes(final(self).since(old(self))) is None,
            },
    {
        let ghost o = *self;
        if !self.write_byte_val(c0, c1) {
            return None;
        }
        let ghost q1 = *self;
        let r = self.read_multi_bytes(n);
        proof {
            Self::lemma_after_trans(&o, &q1, self);
        }
        r
    }

    /// The 64-bit electronic serial number: bytes 0, 2, 4, 6 of each of the
    /// two identification reads, the first read giving the upper half; a
    /// half whose read failed is zero.
    pub fn get_serial_number(&mut self) -> (r: u64)
        requires
            old(self).wf(),
        ensures
            final(self).only_io(old(self)),
            ({
                let t = final(self).since(old(self));
                let k = id_len(t);
                &&& k <= t.len()
                &&& id_read(t.take(k), SI7021_ID1_CMD0, SI7021_ID1_CMD1, 8)
                &&& id_read(t.skip(k), SI7021_ID2_CMD0, SI7021_ID2_CMD1, 8)
                &&& r == serial_hi(id_bytes(t.take(k))) + serial_lo(id_bytes(t.skip(k)))
            }),
    {
        let ghost o = *self;
        let mut hi: u32 = 0;
        match self.command_read(SI7021_ID1_CMD0, SI7021_ID1_CMD1, 8) {
            Some(data) => {
                hi = id_word(&data);
            },
            None => {},
        }
        let ghost q1 = *self;
        let mut lo: u32 = 0;
        match self.command_read(SI7021_ID2_CMD0, SI7021_ID2_CMD1, 8) {
            Some(data) => {
                lo = id_word(&data);
            },
            None => {},
        }
        proof {
            Self::lemma_after_trans(&o, &q1, self);
            let t = self.since(&o);
            assert(t.take(id_len(t)) =~= q1.since(&o));
            assert(t.skip(id_len(t)) =~= self.since(&q1));
        }
        let serial_number: u64 = ((hi as u64) << 32u64) | (lo as u64);
        assert(((hi as u64) << 32u64) | (lo as u64) == hi * 0x1_0000_0000u64 + lo) by (bit_vector);
        serial_number
    }

    /// The firmware revision: "1.0" for 0xFF, "2.0" for 0x20, else (or when
    /// the read failed) "Unknown".
    pub fn get_firmware_version(&mut self) -> (r: &'static str)
        requires
            old(self).wf(),
        ensures
            final(self).only_io(old(self)),
            id_read(final(self).since(old(self)), SI7021_FIMWARE_REV_CMD0, SI7021_FIMWARE_REV_CMD1, 1),
            r@ == firmware_name(id_bytes(final(self).since(old(self)))),
    {
        let mut version: &'static str = "Unknown";
        match self.command_read(SI7021_FIMWARE_REV_CMD0, SI7021_FIMWARE_REV_CMD1, 1) {
            Some(buf) => {
                let data = buf[0];
                if data == 0xFF {
                    version = "1.0";
                }
                if data == 0x20 {
                    version = "2.0";
                }
            },
            None => {},
        }
        version
    }
}

} // verus!
