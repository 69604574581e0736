use myosa::myosa::{
    ble_reading, centre_cursor, characteristic_count, event_field, event_switch, init_actuators, parse_event, parse_usize, payload_offset, BleReading, Board, EventSwitch, turn_off_buzzer, turn_off_relay, turn_on_buzzer, turn_on_relay, ActOp,
    ActuatorDevice, EventSlots,
};

#[derive(Default)]
struct ActBoard {
    ops: Vec<(char, u8, u8)>,
}

impl ActuatorDevice for ActBoard {
    fn ops(&self) -> vstd::seq::Seq<ActOp> {
        unreachable!()
    }

    fn ping(&self) -> bool {
        true
    }

    fn set_mode(&mut self, pin: u8, mode: u8) {
        self.ops.push(('m', pin, mode));
    }

    fn set_state(&mut self, pin: u8, state: u8) {
        self.ops.push(('s', pin, state));
    }
}

#[test]
fn actuator_sequences() {
    let mut b = ActBoard::default();
    init_actuators(&mut b);
    turn_on_relay(&mut b);
    turn_off_relay(&mut b);
    turn_on_buzzer(&mut b);
    turn_off_buzzer(&mut b);
    assert_eq!(
        b.ops,
        vec![
            ('m', 0, 1),
            ('s', 0, 0),
            ('m', 1, 1),
            ('s', 1, 0),
            ('m', 0, 1),
            ('s', 0, 1),
            ('m', 0, 1),
            ('s', 0, 0),
            ('m', 1, 1),
            ('s', 1, 1),
            ('m', 1, 1),
            ('s', 1, 0),
        ]
    );
}

#[test]
fn centring() {
    assert_eq!(centre_cursor(48, 2, 10), (40, 12));
    assert_eq!(centre_cursor(127, 0, 8), (0, 8));
    assert_eq!(centre_cursor(131, 0, 8), (-1, 8));
}

#[test]
fn event_slots() {
    let mut e = EventSlots::new();
    e.apply('c', 'b', None);
    assert_eq!(e, EventSlots { buzzer: true, other: false, count: 1 });
    e.apply('c', 'r', None);
    assert_eq!(e, EventSlots { buzzer: true, other: true, count: 2 });
    e.apply('d', 'x', Some('b'));
    assert_eq!(e, EventSlots { buzzer: false, other: true, count: 1 });
    e.apply('d', 'x', None);
    assert_eq!(e, EventSlots { buzzer: false, other: false, count: 0 });
    e.apply('d', 'x', None);
    assert_eq!(e.count, 0);
    e.apply('u', 'b', None);
    assert_eq!(e, EventSlots { buzzer: true, other: false, count: 0 });
    e.apply('q', 'b', None);
    assert_eq!(e, EventSlots { buzzer: true, other: false, count: 0 });
}

#[test]
fn payload_starts_after_first_comma() {
    assert_eq!(payload_offset(b"c,1,2"), 2);
    assert_eq!(payload_offset(b"abc"), 3);
    assert_eq!(payload_offset(b","), 1);
    assert_eq!(payload_offset(b""), 0);
}

#[test]
fn ble_schedule_of_readings() {
    assert_eq!(characteristic_count(0), 4);
    assert_eq!(characteristic_count(1), 2);
    assert_eq!(characteristic_count(2), 3);
    assert_eq!(characteristic_count(4), 3);
    assert_eq!(ble_reading(Board::AccelGyro, 0, 0), Some(BleReading::Accel));
    assert_eq!(ble_reading(Board::AccelGyro, 0, 3), Some(BleReading::MotionTemp));
    assert_eq!(ble_reading(Board::AccelGyro, 1, 0), None);
    assert_eq!(ble_reading(Board::AirQuality, 1, 1), Some(BleReading::Tvoc));
    assert_eq!(ble_reading(Board::Pressure, 2, 2), Some(BleReading::Altitude));
    assert_eq!(ble_reading(Board::Light, 3, 2), Some(BleReading::Colour));
    assert_eq!(ble_reading(Board::TempHumidity, 4, 1), Some(BleReading::Humidity));
    assert_eq!(ble_reading(Board::TempHumidity, 4, 3), None);
    // Each notified characteristic is served by exactly one board.
    let boards = [Board::AccelGyro, Board::AirQuality, Board::Pressure, Board::Light, Board::TempHumidity];
    for i in 0..5 {
        for j in 0..characteristic_count(i) {
            let n = boards.iter().filter(|b| ble_reading(**b, i, j).is_some()).count();
            assert_eq!(n, 1);
        }
    }
}

#[test]
fn event_fields_by_comma() {
    assert_eq!(event_field(b"1.5, 2.5,3", 0), Some(b"1.5".to_vec()));
    assert_eq!(event_field(b"1.5, 2.5,3", 1), Some(b" 2.5".to_vec()));
    assert_eq!(event_field(b"1.5, 2.5,3", 2), Some(b"3".to_vec()));
    assert_eq!(event_field(b"1.5, 2.5,3", 3), None);
    assert_eq!(event_field(b"", 0), Some(Vec::new()));
    assert_eq!(event_field(b",", 1), Some(Vec::new()));
    assert_eq!(event_field(b"7", 1), None);
}

#[test]
fn event_switch_choices() {
    assert_eq!(event_switch('b', true), EventSwitch::BuzzerOn);
    assert_eq!(event_switch('b', false), EventSwitch::BuzzerOff);
    assert_eq!(event_switch('r', true), EventSwitch::RelayOn);
    assert_eq!(event_switch('x', false), EventSwitch::RelayOff);
}

fn cv(s: &str) -> Vec<char> {
    s.chars().collect()
}

#[test]
fn usize_parsing_follows_from_str() {
    for s in ["0", "42", "+7", "007", "", "+", "-1", "1a", " 1", "99999999999999999999999"] {
        assert_eq!(parse_usize(&cv(s)), s.parse::<usize>().ok(), "{:?}", s);
    }
    assert_eq!(parse_usize(&cv(&usize::MAX.to_string())), Some(usize::MAX));
}

#[test]
fn event_payload_fields() {
    let e = parse_event(&cv("2,1,0,20.5,30,1,0,b"));
    assert_eq!((e.service_number, e.char_number, e.para_number), (2, 1, 0));
    assert_eq!(e.min_text, cv("20.5"));
    assert_eq!(e.max_text, cv("30"));
    assert!(e.is_inclusive);
    assert!(!e.is_strict);
    assert_eq!(e.action, 'b');
    // Without the seventh comma the action stays unset, and fields that a
    // comma does not end do not count.
    let e = parse_event(&cv("4,x,3"));
    assert_eq!((e.service_number, e.char_number, e.para_number), (4, 0, 0));
    assert_eq!(e.action, '\0');
    // An eighth comma also leaves the action unset.
    let e = parse_event(&cv("1,1,1,0,1,10,11,r,"));
    assert!(e.is_inclusive && e.is_strict);
    assert_eq!(e.action, '\0');
    let e = parse_event(&cv("0,0,0,,,,,"));
    assert_eq!(e.action, '\0');
    assert!(e.min_text.is_empty());
}
