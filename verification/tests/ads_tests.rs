use myosa::ads::{command, command_ints, cycle_actions, hall_changed, pwm_duty, ActuatorSettings, CycleAction, MarkerReceiver};

#[test]
fn commands_change_settings() {
    let mut s = ActuatorSettings::new();
    assert!(s.paused);
    command(&mut s, 'p', &[]);
    assert!(!s.paused);
    assert_eq!(command_ints('s'), 3);
    command(&mut s, 's', &[50, 60, 3]);
    assert_eq!((s.a_val, s.b_val, s.st), (50, 60, 3000));
    s.count = 9;
    s.count_r = 4;
    command(&mut s, 'r', &[]);
    assert_eq!((s.count, s.count_r), (0, 0));
    command(&mut s, 'l', &[]);
    assert!(s.cycle_test);
    assert_eq!(command_ints('a'), 1);
    command(&mut s, 'a', &[7]);
    assert_eq!(s.a_val, 7);
    assert!(!s.cycle_test);
    command(&mut s, 'b', &[8]);
    assert_eq!(s.b_val, 8);
    let before = s;
    assert_eq!(command_ints('z'), 0);
    command(&mut s, 'z', &[]);
    assert_eq!(s, before);
}

#[test]
fn duty_of_power_settings() {
    assert_eq!(pwm_duty(0), 0);
    assert_eq!(pwm_duty(100), 255);
    assert_eq!(pwm_duty(50), 127);
    assert_eq!(pwm_duty(10), 25);
    assert_eq!(pwm_duty(1), 2);
    assert_eq!(pwm_duty(-1), 0xFE);
}

#[test]
fn cycle_plan() {
    let mut s = ActuatorSettings::new();
    assert!(cycle_actions(&s).is_empty());
    s.paused = false;
    assert_eq!(
        cycle_actions(&s),
        vec![
            CycleAction::DriveA(0),
            CycleAction::DriveB(0),
            CycleAction::Wait,
            CycleAction::DriveA(100),
            CycleAction::Wait,
            CycleAction::DriveA(0),
            CycleAction::Wait,
            CycleAction::DriveB(100),
            CycleAction::Wait,
        ]
    );
    assert!(hall_changed(3, 4));
    assert!(!hall_changed(4, 4));
}

#[test]
fn marker_receiver() {
    let mut r = MarkerReceiver::new();
    for c in b"ab<hi>" {
        r.receive(*c);
    }
    assert!(!r.in_progress());
    assert_eq!(r.take_message(), Some(b"hi".to_vec()));
    assert_eq!(r.take_message(), None);
    r.receive(b'<');
    assert!(r.in_progress());
    for _ in 0..40 {
        r.receive(b'x');
    }
    r.receive(b'>');
    assert_eq!(r.take_message(), Some(vec![b'x'; 31]));
}

#[test]
fn arduino_map() {
    assert_eq!(myosa::ads::map(512, 0, 1023, 0, 100), 50);
    assert_eq!(myosa::ads::map(1023, 0, 1023, 0, 100), 100);
    assert_eq!(myosa::ads::map(0, 0, 1023, -10, 10), -10);
    assert_eq!(myosa::ads::map(100, 0, 1023, -10, 10), -9);
    assert_eq!(myosa::ads::map(5, 10, 0, 0, 100), 50);
}
