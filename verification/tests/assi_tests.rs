use myosa::assi::{
    decode, light_actions, serial_value, AssiFlags, AssiMachine, BlinkTimer, LightAction, ModeSelect, SerialFlags,
    MISSION_BLUE, MISSION_YELLOW, WARNING_BLUE, WARNING_YELLOW,
};

fn flags(go: bool, moving: bool, done: bool, ebs: bool) -> SerialFlags {
    SerialFlags { go, moving, done, ebs }
}

#[test]
fn warning_lights_start_dark() {
    let f = AssiFlags::warning_start();
    assert_eq!(
        light_actions(&f, WARNING_YELLOW, WARNING_BLUE),
        vec![LightAction::Switch(5, false), LightAction::Switch(6, false)]
    );
}

#[test]
fn light_pattern_per_state() {
    let mut f = AssiFlags::mission_start();
    assert!(light_actions(&f, MISSION_YELLOW, MISSION_BLUE).is_empty());
    f.as_driving = true;
    assert_eq!(light_actions(&f, 4, 5), vec![LightAction::Blink(4), LightAction::Switch(5, false)]);
    f.as_driving = false;
    f.as_emergency = true;
    assert_eq!(light_actions(&f, 4, 5), vec![LightAction::Blink(5), LightAction::Switch(4, false)]);
    f.manual_d = true;
    assert_eq!(
        light_actions(&f, 4, 5),
        vec![LightAction::Blink(5), LightAction::Switch(4, false), LightAction::Switch(4, true), LightAction::Switch(5, true)]
    );
}

#[test]
fn serial_bits_and_digits() {
    assert_eq!(decode(0b1010), flags(false, true, false, true));
    assert_eq!(decode(0b0101), flags(true, false, true, false));
    assert_eq!(serial_value(b'\n'), None);
    assert_eq!(serial_value(b'7'), Some(7));
    assert_eq!(serial_value(b'A'), Some(10));
    assert_eq!(serial_value(b'F'), Some(15));
    assert_eq!(serial_value(b'G'), Some(23));
}

#[test]
fn ready_then_driving_with_go() {
    let mut m = AssiMachine::new();
    assert_eq!(m.step(flags(false, false, false, false), false, 0), Some('O'));
    assert_eq!(m.step(flags(false, false, false, false), true, 1000), Some('R'));
    assert_eq!(m.initial_ms, 1000);
    assert_eq!(m.step(flags(true, false, false, false), true, 3000), Some('R'));
    assert_eq!(m.step(flags(true, false, false, false), true, 6000), Some('D'));
    assert!(m.flags.as_driving && !m.flags.as_ready);
}

#[test]
fn ready_too_long_is_an_emergency() {
    let mut m = AssiMachine::new();
    m.step(flags(false, false, false, false), true, 0);
    assert_eq!(m.step(flags(false, false, false, false), true, 30001), None);
    assert!(m.flags.as_emergency);
    assert_eq!(m.step(flags(false, false, true, true), true, 40000), None);
    assert!(m.flags.as_emergency && !m.flags.as_finished);
}

#[test]
fn brake_finishes_or_stops() {
    let mut m = AssiMachine::new();
    m.step(flags(false, false, false, false), true, 0);
    m.step(flags(true, false, false, false), true, 5000);
    assert!(m.flags.as_driving);
    assert_eq!(m.step(flags(false, false, true, true), true, 9000), Some('E'));
    assert!(m.flags.as_finished && !m.flags.as_driving);
    let mut n = AssiMachine::new();
    n.step(flags(false, false, false, false), true, 0);
    assert_eq!(n.step(flags(false, true, true, true), true, 100), None);
    assert!(n.flags.as_emergency);
}

#[test]
fn blink_cycle() {
    let mut b = BlinkTimer::new();
    assert_eq!(b.step(1000), Some(true));
    assert_eq!(b.step(1300), None);
    assert_eq!(b.step(1501), Some(false));
    assert!(!b.first_blink);
    assert_eq!(b.step(2001), Some(false));
    assert!(b.first_blink);
    assert_eq!(b.step(2100), Some(true));
}

#[test]
fn mode_cycles_and_wraps() {
    let mut m = ModeSelect::new();
    m.cycle_button();
    assert_eq!(m.mode, 7);
    m.cycle_button();
    assert_eq!(m.mode, 7);
    let a = m.update();
    assert_eq!(a.clear, Some(6));
    assert!(a.blink);
    assert!(!m.interrupted);
    for _ in 0..6 {
        m.cycle_button();
        m.update();
    }
    assert_eq!(m.mode, 6);
    m.select_button();
    m.cycle_button();
    assert_eq!(m.mode, 6);
    let b = m.update();
    assert!(!b.blink);
    assert_eq!(b.led, 6);
}
