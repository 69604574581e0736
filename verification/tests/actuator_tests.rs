use myosa::actuator::{Actuator, BusCall, I2CBus, PcaPin, PinMode, PinPolarity, PinState};

/// A PCA9536 simulated in memory, with a log of the bytes written.
struct FakePca {
    regs: [u8; 4],
    writes: Vec<Vec<u8>>,
    fail: bool,
}

impl FakePca {
    fn new() -> Self {
        FakePca { regs: [0xF0, 0xFF, 0x00, 0xFF], writes: Vec::new(), fail: false }
    }
}

impl I2CBus for FakePca {
    type Error = ();

    fn calls(&self) -> vstd::seq::Seq<BusCall> {
        unreachable!()
    }

    fn write(&mut self, address: u8, data: &[u8]) -> Result<(), ()> {
        assert_eq!(address, 0x41);
        if self.fail {
            return Err(());
        }
        self.writes.push(data.to_vec());
        if data.len() == 2 {
            self.regs[data[0] as usize] = data[1];
        }
        Ok(())
    }

    fn write_read(&mut self, address: u8, data: &[u8], buffer: &mut [u8]) -> Result<(), ()> {
        assert_eq!(address, 0x41);
        if self.fail {
            return Err(());
        }
        buffer[0] = self.regs[data[0] as usize];
        Ok(())
    }
}

#[test]
fn ping_reports_acknowledge() {
    let mut a = Actuator::new(FakePca::new());
    assert!(a.ping());
    let mut f = FakePca::new();
    f.fail = true;
    let mut b = Actuator::new(f);
    assert!(!b.ping());
}

#[test]
fn set_mode_pin_reads_back() {
    let mut a = Actuator::new(FakePca::new());
    a.set_mode_all(PinMode::IoInput);
    assert_eq!(a.get_mode(PcaPin::IO2), PinMode::IoInput);
    a.set_mode_pin(PcaPin::IO2, PinMode::IoOutput);
    assert_eq!(a.get_mode(PcaPin::IO2), PinMode::IoOutput);
    assert_eq!(a.get_mode(PcaPin::IO1), PinMode::IoInput);
}

#[test]
fn toggle_and_state() {
    let mut a = Actuator::new(FakePca::new());
    a.set_mode_all(PinMode::IoOutput);
    a.set_state_all(PinState::IoLow);
    assert_eq!(a.get_state(PcaPin::IO1), PinState::IoLow);
    a.toggle_state_pin(PcaPin::IO1);
    assert_eq!(a.get_state(PcaPin::IO1), PinState::IoHigh);
    assert_eq!(a.get_state(PcaPin::IO0), PinState::IoLow);
    a.toggle_state_all();
    assert_eq!(a.get_state(PcaPin::IO1), PinState::IoLow);
    assert_eq!(a.get_state(PcaPin::IO0), PinState::IoHigh);
    a.set_state_pin(PcaPin::IO3, PinState::IoLow);
    assert_eq!(a.get_state(PcaPin::IO3), PinState::IoLow);
}

#[test]
fn polarity_only_on_inputs() {
    let mut a = Actuator::new(FakePca::new());
    a.set_mode_all(PinMode::IoOutput);
    a.set_mode_pin(PcaPin::IO0, PinMode::IoInput);
    a.set_polarity_all(PinPolarity::IoInverted);
    assert_eq!(a.get_polarity(PcaPin::IO0), PinPolarity::IoInverted);
    assert_eq!(a.get_polarity(PcaPin::IO1), PinPolarity::IoNonInverted);
    a.set_polarity_pin(PcaPin::IO1, PinPolarity::IoInverted);
    assert_eq!(a.get_polarity(PcaPin::IO1), PinPolarity::IoNonInverted);
    a.set_polarity_pin(PcaPin::IO0, PinPolarity::IoNonInverted);
    assert_eq!(a.get_polarity(PcaPin::IO0), PinPolarity::IoNonInverted);
}

#[test]
fn failed_read_counts_as_zero() {
    let mut f = FakePca::new();
    f.fail = true;
    let mut a = Actuator::new(f);
    assert_eq!(a.get_mode(PcaPin::IO0), PinMode::IoOutput);
    assert_eq!(a.get_polarity(PcaPin::IO0), PinPolarity::IoNonInverted);
}
