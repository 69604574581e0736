//! A minimal Si7021 temperature driver on the same lent bus as the minimal
//! MPU6050 driver, with the sensor's CRC-8 check of each measurement.
use vstd::prelude::*;

use crate::mpu6050_min::{I2CBus, MinTxn, min_ops, min_ops_all, read_ok, read_bytes_of, fetches, lemma_ops_one, lemma_ops_push};

verus! {

pub const CMD_RESET: u8 = 0xFE;
pub const CMD_READ_USER_REG: u8 = 0xE7;
pub const CMD_MEASURE_TEMP_NOHOLD: u8 = 0xF3;

/// One step of the CRC shift register: shift left, and when a one fell
/// out of the top bit, subtract (xor) the polynomial x^8 + x^5 + x^4 + 1.
pub open spec fn crc_shift(c: u8) -> u8 {
    if c & 0x80 != 0 {
        ((c << 1u8) ^ 0x31u8) as u8
    } else {
        (c << 1u8) as u8
    }
}

/// `k` steps of the shift register.
pub open spec fn crc_shifts(c: u8, k: nat) -> u8
    decreases k,
{
    if k == 0 {
        c
    } else {
        crc_shifts(crc_shift(c), (k - 1) as nat)
    }
}

/// The Si70xx CRC-8 of `data` (polynomial 0x31, initial value 0): each byte
/// is xored into the register, which is then shifted eight times.
pub open spec fn crc8_spec(data: Seq<u8>) -> u8
    decreases data.len(),
{
    if data.len() == 0 {
        0
    } else {
        crc_shifts(crc8_spec(data.drop_last()) ^ data.last(), 8)
    }
}

/// A message followed by its own CRC has CRC 0, which is what makes the
/// check of a measurement's third byte work.
pub proof fn lemma_crc8_self_check(data: Seq<u8>)
    ensures
        crc8_spec(data.push(crc8_spec(data))) == 0,
{
    let c = crc8_spec(data);
    assert(data.push(c).drop_last() =~= data);
    crate::bits::lemma_u8_low_bits();
    assert(c ^ c == 0u8);
    let z: u8 = 0;
    assert(z & 0x80 == 0 && z << 1u8 == 0) by (bit_vector)
        requires
            z == 0,
    ;
    assert(crc_shift(0) == 0);
    assert(crc_shifts(0, 8) == 0) by {
        reveal_with_fuel(crc_shifts, 9);
    }
}

fn shift8(c: u8) -> (r: u8)
    ensures
        r == crc_shifts(c, 8),
{
    let mut crc = c;
    let mut i: u8 = 0;
    while i < 8
        invariant
            i <= 8,
            crc_shifts(c, 8) == crc_shifts(crc, (8 - i) as nat),
        decreases 8 - i,
    {
        let next = if crc & 0x80 != 0 {
            (crc << 1u8) ^ 0x31
        } else {
            crc << 1u8
        };
        assert(next == crc_shift(crc));
        assert(crc_shifts(crc, (8 - i) as nat) == crc_shifts(next, (8 - i - 1) as nat));
        crc = next;
        i = i + 1;
    }
    crc
}

/// The Si70xx CRC-8 of `data`.
pub fn crc8(data: &[u8]) -> (r: u8)
    ensures
        r == crc8_spec(data@),
{
    let mut crc: u8 = 0x00;
    let mut i: usize = 0;
    while i < data.len()
        invariant
            i <= data@.len(),
            crc == crc8_spec(data@.take(i as int)),
        decreases data.len() - i,
    {
        assert(data@.take(i + 1).drop_last() =~= data@.take(i as int));
        crc = shift8(crc ^ data[i]);
        i = i + 1;
    }
    assert(data@.take(data@.len() as int) =~= data@);
    crc
}

/// The temperature code of a measurement's three bytes: the first two,
/// most significant first, when the third is their CRC; else none.
pub open spec fn checked_code(b: Seq<u8>) -> Option<u16> {
    if crc8_spec(b.take(2)) == b[2] {
        Some((b[0] * 256 + b[1]) as u16)
    } else {
        None
    }
}

/// `ts` is a temperature measurement at `a`: the command and, when it was
/// acknowledged, a fetch of three bytes.
pub open spec fn measured(ts: Seq<MinTxn>, a: u8) -> bool {
    &&& ts.len() >= 1
    &&& ts[0] matches MinTxn::Cmd(ta, c, e) && ta == a && c == CMD_MEASURE_TEMP_NOHOLD && if e == 0 {
        ts.len() == 2 && fetches(ts[1], a, 3)
    } else {
        ts.len() == 1
    }
}

/// The code a measurement gave: none when the command or the fetch failed
/// or the CRC did not match.
pub open spec fn measured_code(ts: Seq<MinTxn>) -> Option<u16> {
    if ts.len() == 2 && read_ok(ts[1]) {
        checked_code(read_bytes_of(ts[1]))
    } else {
        None
    }
}

/// `ts` is a run of `begin` at `a`: the reset command, the user-register
/// command, and a one-byte fetch, stopping at the first failure; `r`
/// tells whether all three succeeded.
pub open spec fn begun(ts: Seq<MinTxn>, a: u8, r: bool) -> bool {
    &&& 1 <= ts.len() <= 3
    &&& ts[0] matches MinTxn::Cmd(ta, c, e) && ta == a && c == CMD_RESET && (e != 0 <==> ts.len() == 1)
    &&& ts.len() >= 2 ==> (ts[1] matches MinTxn::Cmd(ta, c, e) && ta == a && c == CMD_READ_USER_REG && (e != 0
        <==> ts.len() == 2))
    &&& ts.len() == 3 ==> fetches(ts[2], a, 1)
    &&& r == (ts.len() == 3 && read_ok(ts[2]))
}

/// The state of a minimal Si7021 driver.
pub struct SI7021Minimal {
    addr: u8,
    connected: bool,
}

impl SI7021Minimal {
    /// The chip address in use.
    pub closed spec fn spec_addr(&self) -> u8 {
        self.addr
    }

    /// Whether the chip was found.
    pub closed spec fn spec_connected(&self) -> bool {
        self.connected
    }

    /// A driver for the chip at 0x40, not yet connected.
    pub fn new() -> (r: Self)
        ensures
            r.spec_addr() == 0x40,
            !r.spec_connected(),
    {
        SI7021Minimal { addr: 0x40, connected: false }
    }

    /// Reset the chip at `addr` and check that it answers a register read:
    /// whether it did. It counts as connected exactly then.
    pub fn begin<W: I2CBus>(&mut self, wire: &mut W, addr: u8) -> (r: bool)
        ensures
            final(self).spec_addr() == addr,
            final(self).spec_connected() == r,
            exists|ts: Seq<MinTxn>|
                #![trigger min_ops_all(ts)]
                final(wire).ops() == old(wire).ops() + min_ops_all(ts) && begun(ts, addr, r),
    {
        self.addr = addr;
        self.connected = false;
        let ghost o = wire.ops();
        let (ok, Ghost(t0)) = self.write_cmd(wire, CMD_RESET);
        let ghost mut ts = seq![t0];
        proof {
            lemma_ops_one(t0);
        }
        if !ok {
            assert(begun(ts, addr, false));
            return false;
        }
        let (ok, Ghost(t1)) = self.write_cmd(wire, CMD_READ_USER_REG);
        proof {
            lemma_ops_push(ts, t1);
            ts = ts.push(t1);
        }
        if !ok {
            assert(begun(ts, addr, false));
            return false;
        }
        let (reg, Ghost(t2)) = self.read_bytes(wire, 1);
        proof {
            lemma_ops_push(ts, t2);
            ts = ts.push(t2);
        }
        if reg.is_none() {
            assert(begun(ts, addr, false));
            return false;
        }
        self.connected = true;
        assert(begun(ts, addr, true));
        true
    }

    /// Whether the chip was found.
    pub fn is_connected(&self) -> (r: bool)
        ensures
            r == self.spec_connected(),
    {
        self.connected
    }

    /// The raw temperature code of a measurement, checked against its CRC;
    /// none when the chip is not connected (and then the bus is untouched),
    /// or the command, the fetch or the check failed.
    pub fn read_temperature_raw<W: I2CBus>(&self, wire: &mut W) -> (r: Option<u16>)
        ensures
            !self.spec_connected() ==> r is None && final(wire).ops() == old(wire).ops(),
            self.spec_connected() ==> exists|ts: Seq<MinTxn>|
                #![trigger min_ops_all(ts)]
                final(wire).ops() == old(wire).ops() + min_ops_all(ts) && measured(ts, self.spec_addr()) && r
                    == measured_code(ts),
    {
        if !self.connected {
            return None;
        }
        let (ok, Ghost(t0)) = self.write_cmd(wire, CMD_MEASURE_TEMP_NOHOLD);
        let ghost mut ts = seq![t0];
        proof {
            lemma_ops_one(t0);
        }
        if !ok {
            return None;
        }
        let (buf, Ghost(t1)) = self.read_bytes(wire, 3);
        proof {
            lemma_ops_push(ts, t1);
            ts = ts.push(t1);
        }
        match buf {
            Some(b) => {
                let crc = crc8(&b.as_slice()[0..2]);
                proof {
                    assert(b@.subrange(0, 2) =~= b@.take(2));
                }
                if crc != b[2] {
                    return None;
                }
                let h = b[0];
                let l = b[1];
                let raw: u16 = ((h as u16) << 8u16) | (l as u16);
                proof {
                    crate::bits::lemma_be16();
                }
                Some(raw)
            },
            None => None,
        }
    }

    fn write_cmd<W: I2CBus>(&self, wire: &mut W, cmd: u8) -> (r: (bool, Ghost<MinTxn>))
        ensures
            final(wire).ops() == old(wire).ops() + min_ops(r.1@),
            r.1@ matches MinTxn::Cmd(a, c, e) && a == self.addr && c == cmd && r.0 == (e == 0),
    {
        let ghost o = wire.ops();
        wire.begin_transmission(self.addr);
        wire.write_byte(cmd);
        let err = wire.end_transmission(true);
        let ghost t = MinTxn::Cmd(self.addr, cmd, err);
        assert(wire.ops() =~= o + min_ops(t));
        (err == 0, Ghost(t))
    }

    fn read_bytes<W: I2CBus>(&self, wire: &mut W, n: usize) -> (r: (Option<Vec<u8>>, Ghost<MinTxn>))
        ensures
            final(wire).ops() == old(wire).ops() + min_ops(r.1@),
            fetches(r.1@, self.addr, n),
            r.0 is Some == read_ok(r.1@),
            r.0 is Some ==> r.0->0@ == read_bytes_of(r.1@),
    {
        let ghost o = wire.ops();
        let got = wire.request_from(self.addr, n);
        let (bytes, Ghost(b)) = crate::mpu6050_min::read_or_drain(wire, n, got);
        let ghost t = MinTxn::Fetch(self.addr, n, got, b);
        assert(wire.ops() =~= o + min_ops(t));
        (bytes, Ghost(t))
    }
}

} // verus!
