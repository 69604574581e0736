//! Driver of the MYOSA actuator board: a PCA9536 four-bit I/O expander that
//! switches a relay (IO0) and a buzzer (IO1).
use vstd::prelude::*;

verus! {

/// I2C address of the PCA9536 on the actuator board.
pub const ACTUATOR_I2C_ADDRESS: u8 = 0x41;

pub const ALL_INPUT: u8 = 0xFF;
pub const ALL_OUTPUT: u8 = 0x00;
pub const ALL_LOW: u8 = 0x00;
pub const ALL_HIGH: u8 = 0xFF;
pub const ALL_NON_INVERTED: u8 = 0x00;
pub const ALL_INVERTED: u8 = 0xFF;

/// Registers of the PCA9536.
#[derive(Clone, Copy, Debug, PartialEq, Eq, Structural)]
pub enum PcaReg {
    InputReg,
    OutputReg,
    PolarityReg,
    ConfigReg,
}

/// The four I/O pins of the PCA9536.
#[derive(Clone, Copy, Debug, PartialEq, Eq, Structural)]
pub enum PcaPin {
    IO0,
    IO1,
    IO2,
    IO3,
}

/// Pin direction, as its bit in the configuration register.
#[derive(Clone, Copy, Debug, PartialEq, Eq, Structural)]
pub enum PinMode {
    IoOutput,
    IoInput,
}

/// Pin level, as its bit in the output/input registers.
#[derive(Clone, Copy, Debug, PartialEq, Eq, Structural)]
pub enum PinState {
    IoLow,
    IoHigh,
}

/// Pin polarity, as its bit in the polarity register.
#[derive(Clone, Copy, Debug, PartialEq, Eq, Structural)]
pub enum PinPolarity {
    IoNonInverted,
    IoInverted,
}

/// The relay sits on IO0.
pub const AC_SWITCH_IO: PcaPin = PcaPin::IO0;

/// The buzzer sits on IO1.
pub const BUZZER_IO: PcaPin = PcaPin::IO1;

impl PcaReg {
    pub open spec fn spec_addr(self) -> u8 {
        match self {
            PcaReg::InputReg => 0,
            PcaReg::OutputReg => 1,
            PcaReg::PolarityReg => 2,
            PcaReg::ConfigReg => 3,
        }
    }

    /// The register's address on the chip.
    #[verifier::when_used_as_spec(spec_addr)]
    pub fn addr(self) -> (r: u8)
        ensures r == self.spec_addr(),
    {
        match self {
            PcaReg::InputReg => 0,
            PcaReg::OutputReg => 1,
            PcaReg::PolarityReg => 2,
            PcaReg::ConfigReg => 3,
        }
    }
}

impl PcaPin {
    pub open spec fn spec_index(self) -> u8 {
        match self {
            PcaPin::IO0 => 0,
            PcaPin::IO1 => 1,
            PcaPin::IO2 => 2,
            PcaPin::IO3 => 3,
        }
    }

    /// The pin's bit position in every register.
    #[verifier::when_used_as_spec(spec_index)]
    pub fn index(self) -> (r: u8)
        ensures r == self.spec_index(),
    {
        match self {
            PcaPin::IO0 => 0,
            PcaPin::IO1 => 1,
            PcaPin::IO2 => 2,
            PcaPin::IO3 => 3,
        }
    }
}

impl PinMode {
    pub open spec fn spec_bit(self) -> u8 {
        match self {
            PinMode::IoOutput => 0,
            PinMode::IoInput => 1,
        }
    }

    #[verifier::when_used_as_spec(spec_bit)]
    pub fn bit(self) -> (r: u8)
        ensures r == self.spec_bit(),
    {
        match self {
            PinMode::IoOutput => 0,
            PinMode::IoInput => 1,
        }
    }
}

impl PinState {
    pub open spec fn spec_bit(self) -> u8 {
        match self {
            PinState::IoLow => 0,
            PinState::IoHigh => 1,
        }
    }

    #[verifier::when_used_as_spec(spec_bit)]
    pub fn bit(self) -> (r: u8)
        ensures r == self.spec_bit(),
    {
        match self {
            PinState::IoLow => 0,
            PinState::IoHigh => 1,
        }
    }
}

impl PinPolarity {
    pub open spec fn spec_bit(self) -> u8 {
        match self {
            PinPolarity::IoNonInverted => 0,
            PinPolarity::IoInverted => 1,
        }
    }

    #[verifier::when_used_as_spec(spec_bit)]
    pub fn bit(self) -> (r: u8)
        ensures r == self.spec_bit(),
    {
        match self {
            PinPolarity::IoNonInverted => 0,
            PinPolarity::IoInverted => 1,
        }
    }
}

/// One call made on the I2C bus, as the driver sees it.
pub enum BusCall {
    /// `write(address, data)`, and whether it succeeded.
    Write { address: u8, data: Seq<u8>, ok: bool },
    /// `write_read(address, data, buffer)`, the bytes left in the buffer and whether it succeeded.
    WriteRead { address: u8, data: Seq<u8>, read: Seq<u8>, ok: bool },
}

/// The platform's I2C peripheral; implement it for your microcontroller.
///
/// `calls` is the history of the calls made on the bus; each method adds
/// the call it carried out, with its arguments and its outcome.
pub trait I2CBus {
    type Error;

    spec fn calls(&self) -> Seq<BusCall>;

    /// Write `data` bytes to the device at `address`.
    fn write(&mut self, address: u8, data: &[u8]) -> (r: Result<(), Self::Error>)
        ensures
            final(self).calls() == old(self).calls().push(
                BusCall::Write { address, data: data@, ok: r is Ok },
            ),
    ;

    /// Write `data` bytes, then read `buffer.len()` bytes from the device at `address`.
    fn write_read(&mut self, address: u8, data: &[u8], buffer: &mut [u8]) -> (r: Result<
        (),
        Self::Error,
    >)
        ensures
            final(buffer)@.len() == old(buffer)@.len(),
            final(self).calls() == old(self).calls().push(
                BusCall::WriteRead { address, data: data@, read: final(buffer)@, ok: r is Ok },
            ),
    ;
}

/// The value of bit `pin` of `v`.
pub open spec fn bit_of(v: u8, pin: u8) -> u8 {
    (v >> pin) & 1
}

/// `v` with bit `pin` replaced by `b`.
pub open spec fn with_bit(v: u8, pin: u8, b: u8) -> u8 {
    (v & !(1u8 << pin)) | (b << pin)
}

/// Reading register `reg` of the device at `addr`: the call that does it.
pub open spec fn is_reg_read(c: BusCall, addr: u8, reg: u8) -> bool {
    c matches BusCall::WriteRead { address, data, read, .. } && address == addr && data
        == seq![reg] && read.len() == 1
}

/// The byte that a register read yields: what came back, or 0 when the call failed.
pub open spec fn read_value(c: BusCall) -> u8 {
    match c {
        BusCall::WriteRead { read, ok, .. } => if ok && read.len() > 0 {
            read[0]
        } else {
            0
        },
        _ => 0,
    }
}

/// `new` is `old` followed by `n` more calls.
pub open spec fn extends(old: Seq<BusCall>, new: Seq<BusCall>, n: nat) -> bool {
    new.len() == old.len() + n && new.take(old.len() as int) == old
}

/// Adding one call extends the history by one.
pub proof fn lemma_push_extends(s: Seq<BusCall>, c: BusCall)
    ensures
        extends(s, s.push(c), 1),
        s.push(c).last() == c,
{
    assert(s.push(c).take(s.len() as int) =~= s);
}

/// Extending twice extends by the sum, and keeps the calls of the middle history.
pub proof fn lemma_extends_trans(a: Seq<BusCall>, b: Seq<BusCall>, c: Seq<BusCall>, n: nat, m: nat)
    requires
        extends(a, b, n),
        extends(b, c, m),
    ensures
        extends(a, c, n + m),
        forall|i: int| 0 <= i < b.len() ==> c[i] == b[i],
{
    assert forall|i: int| 0 <= i < b.len() implies c[i] == b[i] by {
        assert(c.take(b.len() as int)[i] == c[i]);
    }
    assert(c.take(a.len() as int) =~= a) by {
        assert forall|i: int| 0 <= i < a.len() implies c.take(a.len() as int)[i] == a[i] by {
            assert(b.take(a.len() as int)[i] == b[i]);
        }
    }
}

/// The call writes `val` to register `reg` of the device at `addr`, whatever its outcome.
pub open spec fn is_reg_write(c: BusCall, addr: u8, reg: u8, val: u8) -> bool {
    c matches BusCall::Write { address, data, .. } && address == addr && data == seq![reg, val]
}

/// Writing `val` to register `reg` of the device at `addr`.
pub open spec fn reg_write(addr: u8, reg: u8, val: u8, ok: bool) -> BusCall {
    BusCall::Write { address: addr, data: seq![reg, val], ok }
}

/// Setting bit `pin` to `b` keeps it, and keeps every other bit, as a read of it shows.
pub proof fn lemma_with_bit_reads_back(v: u8, pin: u8, b: u8, other: u8)
    requires
        pin < 8,
        b <= 1,
        other < 8,
    ensures
        bit_of(with_bit(v, pin, b), pin) == b,
        other != pin ==> bit_of(with_bit(v, pin, b), other) == bit_of(v, other),
{
    assert(bit_of(with_bit(v, pin, b), pin) == b) by (bit_vector)
        requires
            pin < 8,
            b <= 1,
    ;
    assert(other != pin ==> bit_of(with_bit(v, pin, b), other) == bit_of(v, other)) by (bit_vector)
        requires
            pin < 8,
            b <= 1,
            other < 8,
    ;
}

/// Flipping bit `pin` flips it and keeps every other bit.
pub proof fn lemma_toggle_bit(v: u8, pin: u8, other: u8)
    requires
        pin < 8,
        other < 8,
    ensures
        bit_of(v ^ (1u8 << pin), pin) == 1 - bit_of(v, pin),
        other != pin ==> bit_of(v ^ (1u8 << pin), other) == bit_of(v, other),
{
    assert(bit_of(v ^ (1u8 << pin), pin) == 1 - bit_of(v, pin)) by (bit_vector)
        requires
            pin < 8,
    ;
    assert(other != pin ==> bit_of(v ^ (1u8 << pin), other) == bit_of(v, other)) by (bit_vector)
        requires
            pin < 8,
            other < 8,
    ;
}

/// Driver of the PCA9536 on the actuator board.
pub struct Actuator<I2C> {
    i2c_slave_address: u8,
    i2c: I2C,
}

impl<I2C: I2CBus> Actuator<I2C> {
    /// The calls that the driver has made on its bus.
    pub closed spec fn calls(&self) -> Seq<BusCall> {
        self.i2c.calls()
    }

    /// The address the driver talks to.
    pub closed spec fn address(&self) -> u8 {
        self.i2c_slave_address
    }

    pub fn new(i2c: I2C) -> (r: Self)
        ensures
            r.calls() == i2c.calls(),
            r.address() == ACTUATOR_I2C_ADDRESS,
    {
        Actuator { i2c_slave_address: ACTUATOR_I2C_ADDRESS, i2c }
    }

    /// True when the device acknowledges its address.
    pub fn ping(&mut self) -> (r: bool)
        ensures
            final(self).address() == old(self).address(),
            final(self).calls() == old(self).calls().push(
                BusCall::Write { address: old(self).address(), data: seq![], ok: r },
            ),
    {
        self.write_address()
    }

    /// Direction of `pin`, from the configuration register (output when the read fails).
    pub fn get_mode(&mut self, pin: PcaPin) -> (r: PinMode)
        ensures
            final(self).address() == old(self).address(),
            extends(old(self).calls(), final(self).calls(), 1),
            is_reg_read(final(self).calls().last(), old(self).address(), PcaReg::ConfigReg.spec_addr()),
            r.spec_bit() == bit_of(read_value(final(self).calls().last()), pin.spec_index()),
    {
        let mut mode: u8 = 0;
        self.read_byte(PcaReg::ConfigReg, &mut mode);
        let p = pin.index();
        if (mode >> p) & 0x01 != 0 {
            assert(bit_of(mode, p) == 1) by (bit_vector)
                requires (mode >> p) & 0x01 != 0;
            PinMode::IoInput
        } else {
            PinMode::IoOutput
        }
    }

    /// Level of `pin`: from the input register for an input pin, from the
    /// output register for an output pin (low when the read fails).
    pub fn get_state(&mut self, pin: PcaPin) -> (r: PinState)
        ensures
            final(self).address() == old(self).address(),
            extends(old(self).calls(), final(self).calls(), 2),
            ({
                let c0 = final(self).calls()[old(self).calls().len() as int];
                let c1 = final(self).calls()[old(self).calls().len() + 1int];
                let input = bit_of(read_value(c0), pin.spec_index()) == 1;
                &&& is_reg_read(c0, old(self).address(), PcaReg::ConfigReg.spec_addr())
                &&& is_reg_read(
                    c1,
                    old(self).address(),
                    if input {
                        PcaReg::InputReg.spec_addr()
                    } else {
                        PcaReg::OutputReg.spec_addr()
                    },
                )
                &&& r.spec_bit() == bit_of(read_value(c1), pin.spec_index())
            }),
    {
        let ghost c0 = old(self).calls();
        let mode = self.get_mode(pin);
        let ghost c1 = self.calls();
        let mut state: u8 = 0;
        let reg = if mode == PinMode::IoInput {
            PcaReg::InputReg
        } else {
            PcaReg::OutputReg
        };
        self.read_byte(reg, &mut state);
        proof {
            lemma_extends_trans(c0, c1, self.calls(), 1, 1);
        }
        let p = pin.index();
        if (state >> p) & 0x01 != 0 {
            assert(bit_of(state, p) == 1) by (bit_vector)
                requires
                    (state >> p) & 0x01 != 0,
            ;
            PinState::IoHigh
        } else {
            assert(bit_of(state, p) == 0) by (bit_vector)
                requires
                    (state >> p) & 0x01 == 0,
            ;
            PinState::IoLow
        }
    }

    /// Polarity of `pin`, from the polarity register (non-inverted when the read fails).
    pub fn get_polarity(&mut self, pin: PcaPin) -> (r: PinPolarity)
        ensures
            final(self).address() == old(self).address(),
            extends(old(self).calls(), final(self).calls(), 1),
            is_reg_read(final(self).calls().last(), old(self).address(), PcaReg::PolarityReg.spec_addr()),
            r.spec_bit() == bit_of(read_value(final(self).calls().last()), pin.spec_index()),
    {
        let mut polarity: u8 = 0;
        self.read_byte(PcaReg::PolarityReg, &mut polarity);
        let p = pin.index();
        if (polarity >> p) & 0x01 != 0 {
            assert(bit_of(polarity, p) == 1) by (bit_vector)
                requires
                    (polarity >> p) & 0x01 != 0,
            ;
            PinPolarity::IoInverted
        } else {
            PinPolarity::IoNonInverted
        }
    }

    /// Read-modify-write of one bit: reads `reg`, writes it back with bit
    /// `pin` set to `b` (the read value counts as 0 when the read fails).
    fn update_bit(&mut self, reg: PcaReg, pin: PcaPin, b: u8)
        requires
            b <= 1,
        ensures
            final(self).address() == old(self).address(),
            extends(old(self).calls(), final(self).calls(), 2),
            ({
                let c0 = final(self).calls()[old(self).calls().len() as int];
                &&& is_reg_read(c0, old(self).address(), reg.spec_addr())
                &&& is_reg_write(
                    final(self).calls().last(),
                    old(self).address(),
                    reg.spec_addr(),
                    with_bit(read_value(c0), pin.spec_index(), b),
                )
            }),
    {
        let ghost c0 = old(self).calls();
        let mut all: u8 = 0;
        self.read_byte(reg, &mut all);
        let ghost c1 = self.calls();
        let p = pin.index();
        all &= !(1u8 << p);
        all |= b << p;
        self.write_byte(reg, all);
        proof {
            lemma_push_extends(c1, self.calls().last());
            lemma_extends_trans(c0, c1, self.calls(), 1, 1);
        }
    }

    /// Sets the direction of `pin`, leaving the other pins as they are.
    pub fn set_mode_pin(&mut self, pin: PcaPin, new_mode: PinMode)
        ensures
            final(self).address() == old(self).address(),
            extends(old(self).calls(), final(self).calls(), 2),
            ({
                let c0 = final(self).calls()[old(self).calls().len() as int];
                &&& is_reg_read(c0, old(self).address(), PcaReg::ConfigReg.spec_addr())
                &&& is_reg_write(
                    final(self).calls().last(),
                    old(self).address(),
                    PcaReg::ConfigReg.spec_addr(),
                    with_bit(read_value(c0), pin.spec_index(), new_mode.spec_bit()),
                )
            }),
    {
        let b = new_mode.bit();
        self.update_bit(PcaReg::ConfigReg, pin, b);
    }

    /// Sets the direction of all pins at once.
    pub fn set_mode_all(&mut self, new_mode: PinMode)
        ensures
            final(self).address() == old(self).address(),
            extends(old(self).calls(), final(self).calls(), 1),
            is_reg_write(
                final(self).calls().last(),
                old(self).address(),
                PcaReg::ConfigReg.spec_addr(),
                if new_mode == PinMode::IoInput {
                    ALL_INPUT
                } else {
                    ALL_OUTPUT
                },
            ),
    {
        let ghost c0 = old(self).calls();
        let mode_all: u8 = if new_mode == PinMode::IoInput {
            ALL_INPUT
        } else {
            ALL_OUTPUT
        };
        self.write_byte(PcaReg::ConfigReg, mode_all);
        proof {
            lemma_push_extends(c0, self.calls().last());
        }
    }

    /// Drives `pin` to `new_state`, leaving the other outputs as they are.
    pub fn set_state_pin(&mut self, pin: PcaPin, new_state: PinState)
        ensures
            final(self).address() == old(self).address(),
            extends(old(self).calls(), final(self).calls(), 2),
            ({
                let c0 = final(self).calls()[old(self).calls().len() as int];
                &&& is_reg_read(c0, old(self).address(), PcaReg::OutputReg.spec_addr())
                &&& is_reg_write(
                    final(self).calls().last(),
                    old(self).address(),
                    PcaReg::OutputReg.spec_addr(),
                    with_bit(read_value(c0), pin.spec_index(), new_state.spec_bit()),
                )
            }),
    {
        let b = new_state.bit();
        self.update_bit(PcaReg::OutputReg, pin, b);
    }

    /// Drives all pins to `new_state`.
    pub fn set_state_all(&mut self, new_state: PinState)
        ensures
            final(self).address() == old(self).address(),
            extends(old(self).calls(), final(self).calls(), 1),
            is_reg_write(
                final(self).calls().last(),
                old(self).address(),
                PcaReg::OutputReg.spec_addr(),
                if new_state == PinState::IoHigh {
                    ALL_HIGH
                } else {
                    ALL_LOW
                },
            ),
    {
        let ghost c0 = old(self).calls();
        let state_all: u8 = if new_state == PinState::IoHigh {
            ALL_HIGH
        } else {
            ALL_LOW
        };
        self.write_byte(PcaReg::OutputReg, state_all);
        proof {
            lemma_push_extends(c0, self.calls().last());
        }
    }

    /// Flips the output level of `pin`.
    pub fn toggle_state_pin(&mut self, pin: PcaPin)
        ensures
            final(self).address() == old(self).address(),
            extends(old(self).calls(), final(self).calls(), 2),
            ({
                let c0 = final(self).calls()[old(self).calls().len() as int];
                &&& is_reg_read(c0, old(self).address(), PcaReg::OutputReg.spec_addr())
                &&& is_reg_write(
                    final(self).calls().last(),
                    old(self).address(),
                    PcaReg::OutputReg.spec_addr(),
                    read_value(c0) ^ (1u8 << pin.spec_index()),
                )
            }),
    {
        let ghost c0 = old(self).calls();
        let mut state_all: u8 = 0;
        self.read_byte(PcaReg::OutputReg, &mut state_all);
        let ghost c1 = self.calls();
        state_all ^= 1u8 << pin.index();
        self.write_byte(PcaReg::OutputReg, state_all);
        proof {
            lemma_push_extends(c1, self.calls().last());
            lemma_extends_trans(c0, c1, self.calls(), 1, 1);
        }
    }

    /// Flips the output level of every pin.
    pub fn toggle_state_all(&mut self)
        ensures
            final(self).address() == old(self).address(),
            extends(old(self).calls(), final(self).calls(), 2),
            ({
                let c0 = final(self).calls()[old(self).calls().len() as int];
                &&& is_reg_read(c0, old(self).address(), PcaReg::OutputReg.spec_addr())
                &&& is_reg_write(
                    final(self).calls().last(),
                    old(self).address(),
                    PcaReg::OutputReg.spec_addr(),
                    read_value(c0) ^ 0xFF,
                )
            }),
    {
        let ghost c0 = old(self).calls();
        let mut state_all: u8 = 0;
        self.read_byte(PcaReg::OutputReg, &mut state_all);
        let ghost c1 = self.calls();
        state_all ^= 0xFF;
        self.write_byte(PcaReg::OutputReg, state_all);
        proof {
            lemma_push_extends(c1, self.calls().last());
            lemma_extends_trans(c0, c1, self.calls(), 1, 1);
        }
    }

    /// Sets the polarity of `pin`, but only when it is an input; an output
    /// pin leaves the polarity register untouched.
    pub fn set_polarity_pin(&mut self, pin: PcaPin, new_polarity: PinPolarity)
        ensures
            final(self).address() == old(self).address(),
            ({
                let n = old(self).calls().len();
                let c0 = final(self).calls()[n as int];
                let input = bit_of(read_value(c0), pin.spec_index()) == 1;
                &&& is_reg_read(c0, old(self).address(), PcaReg::ConfigReg.spec_addr())
                &&& !input ==> extends(old(self).calls(), final(self).calls(), 1)
                &&& input ==> {
                    let c1 = final(self).calls()[n + 1int];
                    &&& extends(old(self).calls(), final(self).calls(), 3)
                    &&& is_reg_read(c1, old(self).address(), PcaReg::PolarityReg.spec_addr())
                    &&& is_reg_write(
                        final(self).calls().last(),
                        old(self).address(),
                        PcaReg::PolarityReg.spec_addr(),
                        with_bit(read_value(c1), pin.spec_index(), new_polarity.spec_bit()),
                    )
                }
            }),
    {
        let ghost c0 = old(self).calls();
        let mode = self.get_mode(pin);
        let ghost c1 = self.calls();
        if mode == PinMode::IoInput {
            let b = new_polarity.bit();
            self.update_bit(PcaReg::PolarityReg, pin, b);
            proof {
                lemma_extends_trans(c0, c1, self.calls(), 1, 2);
            }
        }
    }

    /// Sets the polarity of every input pin; output pins keep theirs.
    pub fn set_polarity_all(&mut self, new_polarity: PinPolarity)
        ensures
            final(self).address() == old(self).address(),
            extends(old(self).calls(), final(self).calls(), 3),
            ({
                let n = old(self).calls().len();
                let c0 = final(self).calls()[n as int];
                let c1 = final(self).calls()[n + 1int];
                let new_val: u8 = if new_polarity == PinPolarity::IoInverted {
                    ALL_INVERTED
                } else {
                    ALL_NON_INVERTED
                };
                &&& is_reg_read(c0, old(self).address(), PcaReg::PolarityReg.spec_addr())
                &&& is_reg_read(c1, old(self).address(), PcaReg::ConfigReg.spec_addr())
                &&& is_reg_write(
                    final(self).calls().last(),
                    old(self).address(),
                    PcaReg::PolarityReg.spec_addr(),
                    (read_value(c0) & !read_value(c1)) | (new_val & read_value(c1)),
                )
            }),
    {
        let ghost c0 = old(self).calls();
        let mut polarity_all: u8 = 0;
        let mut polarity_msk: u8 = 0;
        self.read_byte(PcaReg::PolarityReg, &mut polarity_all);
        let ghost c1 = self.calls();
        self.read_byte(PcaReg::ConfigReg, &mut polarity_msk);
        let ghost c2 = self.calls();
        let polarity_new: u8 = if new_polarity == PinPolarity::IoInverted {
            ALL_INVERTED
        } else {
            ALL_NON_INVERTED
        };
        self.write_byte(PcaReg::PolarityReg, (polarity_all & !polarity_msk) | (polarity_new & polarity_msk));
        proof {
            lemma_extends_trans(c0, c1, c2, 1, 1);
            lemma_push_extends(c2, self.calls().last());
            lemma_extends_trans(c0, c2, self.calls(), 2, 1);
        }
    }

    fn read_byte(&mut self, reg: PcaReg, buf: &mut u8) -> (r: bool)
        ensures
            final(self).address() == old(self).address(),
            extends(old(self).calls(), final(self).calls(), 1),
            is_reg_read(final(self).calls().last(), old(self).address(), reg.spec_addr()),
            r == (final(self).calls().last() matches BusCall::WriteRead { ok, .. } && ok),
            r ==> *final(buf) == read_value(final(self).calls().last()),
            !r ==> *final(buf) == *old(buf),
    {
        let mut data = [0u8; 1];
        let cmd = [reg.addr()];
        assert(cmd@ =~= seq![reg.spec_addr()]);
        let ghost before = self.i2c.calls();
        let res = self.i2c.write_read(self.i2c_slave_address, &cmd, &mut data);
        proof {
            lemma_push_extends(before, self.i2c.calls().last());
        }
        match res {
            Ok(()) => {
                *buf = data[0];
                true
            },
            Err(_) => false,
        }
    }

    fn write_address(&mut self) -> (r: bool)
        ensures
            final(self).address() == old(self).address(),
            final(self).calls() == old(self).calls().push(
                BusCall::Write { address: old(self).address(), data: seq![], ok: r },
            ),
    {
        let empty: [u8; 0] = [];
        assert(empty@ =~= seq![]);
        self.i2c.write(self.i2c_slave_address, &empty).is_ok()
    }

    fn write_byte(&mut self, reg: PcaReg, val: u8) -> (r: bool)
        ensures
            final(self).address() == old(self).address(),
            final(self).calls() == old(self).calls().push(
                reg_write(old(self).address(), reg.spec_addr(), val, r),
            ),
    {
        let cmd = [reg.addr(), val];
        assert(cmd@ =~= seq![reg.spec_addr(), val]);
        self.i2c.write(self.i2c_slave_address, &cmd).is_ok()
    }
}

} // verus!
