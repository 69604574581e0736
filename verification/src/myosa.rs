//! The MYOSA platform's device interfaces, its actuator sequences, text
//! centring, and the bookkeeping of the BLE-configured events.
//!
//! The platform reads the sensors and formats their floating-point values
//! for the display and BLE; that part is left to callers.
use vstd::prelude::*;

verus! {

pub const RELAY_IO: u8 = 0;
pub const BUZZER_IO: u8 = 1;
pub const SCREEN_WIDTH: u16 = 128;
pub const SCREEN_HEIGHT: u16 = 64;
pub const OLED_RESET: i8 = 4;
pub const NUM_SERVICES: usize = 6;
pub const MAX_CHARACTERISTICS: usize = 5;
pub const MAX_EVENTS: usize = 2;
pub const IO_OUTPUT: u8 = 1;
pub const IO_LOW: u8 = 0;
pub const IO_HIGH: u8 = 1;

/// Serial or debug output.
pub trait SerialPort {
    fn print(&mut self, s: &str);

    fn println(&mut self, s: &str);
}

/// The outcome of a sensor operation.
#[derive(Debug, Clone, Copy, PartialEq, Eq, Structural)]
pub enum SensorStatus {
    Success,
    Error,
}

/// The air-quality sensor as the platform uses it.
pub trait AirQualitySensor {
    fn begin(&mut self) -> bool;

    fn ping(&self) -> bool;

    fn is_data_available(&self) -> bool;

    fn read_algorithm_results(&mut self) -> SensorStatus;

    fn get_co2(&self) -> u16;

    fn get_tvoc(&self) -> u16;
}

/// One operation on the actuator board.
pub enum ActOp {
    Mode(u8, u8),
    State(u8, u8),
}

/// The actuator board (relay and buzzer) as the platform uses it; `ops`
/// is what was done on it.
pub trait ActuatorDevice {
    spec fn ops(&self) -> Seq<ActOp>;

    fn ping(&self) -> bool;

    fn set_mode(&mut self, pin: u8, mode: u8)
        ensures
            final(self).ops() == old(self).ops().push(ActOp::Mode(pin, mode)),
    ;

    fn set_state(&mut self, pin: u8, state: u8)
        ensures
            final(self).ops() == old(self).ops().push(ActOp::State(pin, state)),
    ;
}

/// A BLE characteristic.
pub trait BleCharacteristic {
    fn set_value(&mut self, value: &str);

    fn get_value(&self) -> String;

    fn notify(&mut self);
}

/// The BLE device.
pub trait BleDevice {
    type Characteristic: BleCharacteristic;

    fn init(&mut self, name: &str);

    fn start_advertising(&mut self);

    fn get_characteristic(&mut self, service: usize, char_idx: usize) -> &mut Self::Characteristic;
}

/// A font, as the platform refers to one.
pub struct GFXfont;

/// Make `pin` an output and drive it to `level`.
fn drive<A: ActuatorDevice>(act: &mut A, pin: u8, level: u8)
    ensures
        final(act).ops() == old(act).ops() + seq![ActOp::Mode(pin, IO_OUTPUT), ActOp::State(pin, level)],
{
    act.set_mode(pin, IO_OUTPUT);
    act.set_state(pin, level);
    assert(act.ops() =~= old(act).ops() + seq![ActOp::Mode(pin, IO_OUTPUT), ActOp::State(pin, level)]);
}

/// Switch the relay on: its pin an output, driven high.
pub fn turn_on_relay<A: ActuatorDevice>(act: &mut A)
    ensures
        final(act).ops() == old(act).ops() + seq![ActOp::Mode(RELAY_IO, IO_OUTPUT), ActOp::State(RELAY_IO, IO_HIGH)],
{
    drive(act, RELAY_IO, IO_HIGH);
}

/// Switch the relay off: its pin an output, driven low.
pub fn turn_off_relay<A: ActuatorDevice>(act: &mut A)
    ensures
        final(act).ops() == old(act).ops() + seq![ActOp::Mode(RELAY_IO, IO_OUTPUT), ActOp::State(RELAY_IO, IO_LOW)],
{
    drive(act, RELAY_IO, IO_LOW);
}

/// Switch the buzzer on: its pin an output, driven high.
pub fn turn_on_buzzer<A: ActuatorDevice>(act: &mut A)
    ensures
        final(act).ops() == old(act).ops() + seq![ActOp::Mode(BUZZER_IO, IO_OUTPUT), ActOp::State(BUZZER_IO, IO_HIGH)],
{
    drive(act, BUZZER_IO, IO_HIGH);
}

/// Switch the buzzer off: its pin an output, driven low.
pub fn turn_off_buzzer<A: ActuatorDevice>(act: &mut A)
    ensures
        final(act).ops() == old(act).ops() + seq![ActOp::Mode(BUZZER_IO, IO_OUTPUT), ActOp::State(BUZZER_IO, IO_LOW)],
{
    drive(act, BUZZER_IO, IO_LOW);
}

/// Set up the actuator board at start: relay, then buzzer, each an output
/// driven low.
pub fn init_actuators<A: ActuatorDevice>(act: &mut A)
    ensures
        final(act).ops() == old(act).ops() + seq![
            ActOp::Mode(RELAY_IO, IO_OUTPUT),
            ActOp::State(RELAY_IO, IO_LOW),
            ActOp::Mode(BUZZER_IO, IO_OUTPUT),
            ActOp::State(BUZZER_IO, IO_LOW),
        ],
{
    drive(act, RELAY_IO, IO_LOW);
    drive(act, BUZZER_IO, IO_LOW);
    assert(act.ops() =~= old(act).ops() + seq![
        ActOp::Mode(RELAY_IO, IO_OUTPUT),
        ActOp::State(RELAY_IO, IO_LOW),
        ActOp::Mode(BUZZER_IO, IO_OUTPUT),
        ActOp::State(BUZZER_IO, IO_LOW),
    ]);
}

/// Truncating division by 2.
pub open spec fn half(v: int) -> int {
    if v >= 0 {
        v / 2
    } else {
        -((-v) / 2)
    }
}

/// Where to put the cursor to centre a text of width `w` whose bounds
/// start at row `y1` and are `h` high: the x that leaves equal margins on
/// the 128-pixel screen (rounded towards zero), and the row below the
/// bounds.
pub fn centre_cursor(w: u16, y1: i16, h: u16) -> (r: (i16, i16))
    requires
        w <= 0x7FFF,
        h <= 0x7FFF,
        i16::MIN <= y1 + h <= i16::MAX,
    ensures
        r.0 == half(SCREEN_WIDTH - w),
        r.1 == y1 + h,
{
    let d: i16 = 128 - w as i16;
    let x: i16 = if d >= 0 {
        d / 2
    } else {
        0 - ((0 - d) / 2)
    };
    (x, y1 + h as i16)
}

/// Which BLE-configured events are enabled (the buzzer slot and the
/// other), and how many were created.
#[derive(Clone, Copy, Debug, PartialEq, Eq, Structural)]
pub struct EventSlots {
    pub buzzer: bool,
    pub other: bool,
    pub count: usize,
}

/// The slots after a BLE command: 'c' creates an event in its action's
/// slot ('b' the buzzer slot, anything else the other) and counts it, 'u'
/// replaces the event in its action's slot, 'd' disables the slot named by
/// the payload's first character and counts one less unless the count is
/// 0; other commands change nothing. A created or replaced event is
/// enabled.
pub open spec fn slots_after(s: EventSlots, command: char, action: char, payload_first: Option<char>) -> EventSlots {
    if command == 'c' || command == 'u' {
        let t = if action == 'b' {
            EventSlots { buzzer: true, ..s }
        } else {
            EventSlots { other: true, ..s }
        };
        if command == 'c' {
            EventSlots { count: (s.count + 1) as usize, ..t }
        } else {
            t
        }
    } else if command == 'd' {
        let t = if payload_first == Some('b') {
            EventSlots { buzzer: false, ..s }
        } else {
            EventSlots { other: false, ..s }
        };
        EventSlots {
            count: if s.count > 0 {
                (s.count - 1) as usize
            } else {
                0
            },
            ..t
        }
    } else {
        s
    }
}

impl EventSlots {
    /// No events.
    pub fn new() -> (r: Self)
        ensures
            r == (EventSlots { buzzer: false, other: false, count: 0 }),
    {
        EventSlots { buzzer: false, other: false, count: 0 }
    }

    /// Apply a BLE command: `action` is the created or updated event's
    /// action, `payload_first` the first character of the payload.
    pub fn apply(&mut self, command: char, action: char, payload_first: Option<char>)
        requires
            command == 'c' ==> old(self).count < usize::MAX,
        ensures
            *final(self) == slots_after(*old(self), command, action, payload_first),
    {
        if command == 'c' || command == 'u' {
            if action == 'b' {
                self.buzzer = true;
            } else {
                self.other = true;
            }
            if command == 'c' {
                self.count = self.count + 1;
            }
        } else if command == 'd' {
            let buzzer = match payload_first {
                Some(c) => c == 'b',
                None => false,
            };
            if buzzer {
                self.buzzer = false;
            } else {
                self.other = false;
            }
            if self.count > 0 {
                self.count = self.count - 1;
            }
        }
    }
}

/// Deleting an event undoes the count of creating one.
pub proof fn lemma_create_delete_count(s: EventSlots, action: char, payload_first: Option<char>)
    requires
        s.count < usize::MAX,
    ensures
        slots_after(slots_after(s, 'c', action, None), 'd', 'x', payload_first).count == s.count,
{
}

/// Where the payload of a BLE command starts: just after its first comma,
/// or at the end when there is none.
pub open spec fn payload_start(b: Seq<u8>) -> int {
    if exists|i: int| 0 <= i < b.len() && b[i] == 44 {
        (choose|i: int| 0 <= i < b.len() && b[i] == 44 && forall|j: int| 0 <= j < i ==> b[j] != 44) + 1
    } else {
        b.len() as int
    }
}

/// Where the payload of the BLE command `input` starts.
pub fn payload_offset(input: &[u8]) -> (r: usize)
    ensures
        r == payload_start(input@),
        r <= input@.len(),
{
    let mut i: usize = 0;
    while i < input.len()
        invariant
            i <= input@.len(),
            forall|j: int| 0 <= j < i ==> input@[j] != 44,
        decreases input.len() - i,
    {
        if input[i] == 44 {
            proof {
                let b = input@;
                let k = choose|k: int| 0 <= k < b.len() && b[k] == 44 && forall|j: int| 0 <= j < k ==> b[j] != 44;
                assert(0 <= k < b.len() && b[k] == 44 && forall|j: int| 0 <= j < k ==> b[j] != 44);
                assert(k == i) by {
                    if k < i {
                        assert(b[k] != 44);
                    } else if k > i {
                        assert(b[i as int] != 44);
                    }
                }
            }
            return i + 1;
        }
        i = i + 1;
    }
    proof {
        assert(!exists|k: int| 0 <= k < input@.len() && input@[k] == 44);
    }
    input.len()
}

/// The sensor boards, in the order the platform asks them.
#[derive(Clone, Copy, Debug, PartialEq, Eq, Structural)]
pub enum Board {
    AccelGyro,
    AirQuality,
    Pressure,
    Light,
    TempHumidity,
}

/// What a BLE characteristic carries.
#[derive(Clone, Copy, Debug, PartialEq, Eq, Structural)]
pub enum BleReading {
    /// Acceleration on three axes.
    Accel,
    /// Rotation rate on three axes.
    Gyro,
    /// Tilt on three axes.
    Tilt,
    /// The motion sensor's temperature in C and F.
    MotionTemp,
    /// Carbon dioxide.
    Co2,
    /// Volatile organic compounds.
    Tvoc,
    /// The pressure sensor's temperature in C and F.
    PressureTemp,
    /// Pressure in Pa, inches of mercury and bar.
    Pressure,
    /// Altitude over the average sea-level pressure.
    Altitude,
    /// Ambient light.
    AmbientLight,
    /// Proximity.
    Proximity,
    /// Red, green and blue proportions.
    Colour,
    /// Temperature in C and F.
    Temperature,
    /// Relative humidity.
    Humidity,
    /// Heat index in C and F.
    HeatIndex,
}

/// Characteristics notified in service `service`.
pub open spec fn chars_of_service(service: int) -> int {
    if service == 0 {
        4
    } else if service == 1 {
        2
    } else {
        3
    }
}

/// How many characteristics of `service` are notified.
pub fn characteristic_count(service: usize) -> (r: usize)
    ensures
        r == chars_of_service(service as int),
{
    if service == 0 {
        4
    } else if service == 1 {
        2
    } else {
        3
    }
}

/// The reading `board` supplies to characteristic `ch` of `service`: the
/// motion board serves service 0, air quality 1, pressure 2, light 3 and
/// temperature and humidity 4.
pub open spec fn reading_of(board: Board, service: int, ch: int) -> Option<BleReading> {
    match board {
        Board::AccelGyro => if service != 0 {
            None
        } else if ch == 0 {
            Some(BleReading::Accel)
        } else if ch == 1 {
            Some(BleReading::Gyro)
        } else if ch == 2 {
            Some(BleReading::Tilt)
        } else if ch == 3 {
            Some(BleReading::MotionTemp)
        } else {
            None
        },
        Board::AirQuality => if service != 1 {
            None
        } else if ch == 0 {
            Some(BleReading::Co2)
        } else if ch == 1 {
            Some(BleReading::Tvoc)
        } else {
            None
        },
        Board::Pressure => if service != 2 {
            None
        } else if ch == 0 {
            Some(BleReading::PressureTemp)
        } else if ch == 1 {
            Some(BleReading::Pressure)
        } else if ch == 2 {
            Some(BleReading::Altitude)
        } else {
            None
        },
        Board::Light => if service != 3 {
            None
        } else if ch == 0 {
            Some(BleReading::AmbientLight)
        } else if ch == 1 {
            Some(BleReading::Proximity)
        } else if ch == 2 {
            Some(BleReading::Colour)
        } else {
            None
        },
        Board::TempHumidity => if service != 4 {
            None
        } else if ch == 0 {
            Some(BleReading::Temperature)
        } else if ch == 1 {
            Some(BleReading::Humidity)
        } else if ch == 2 {
            Some(BleReading::HeatIndex)
        } else {
            None
        },
    }
}

/// The reading that `board`, when it answers, adds to characteristic `ch`
/// of `service`.
pub fn ble_reading(board: Board, service: usize, ch: usize) -> (r: Option<BleReading>)
    ensures
        r == reading_of(board, service as int, ch as int),
{
    match board {
        Board::AccelGyro => if service != 0 {
            None
        } else if ch == 0 {
            Some(BleReading::Accel)
        } else if ch == 1 {
            Some(BleReading::Gyro)
        } else if ch == 2 {
            Some(BleReading::Tilt)
        } else if ch == 3 {
            Some(BleReading::MotionTemp)
        } else {
            None
        },
        Board::AirQuality => if service != 1 {
            None
        } else if ch == 0 {
            Some(BleReading::Co2)
        } else if ch == 1 {
            Some(BleReading::Tvoc)
        } else {
            None
        },
        Board::Pressure => if service != 2 {
            None
        } else if ch == 0 {
            Some(BleReading::PressureTemp)
        } else if ch == 1 {
            Some(BleReading::Pressure)
        } else if ch == 2 {
            Some(BleReading::Altitude)
        } else {
            None
        },
        Board::Light => if service != 3 {
            None
        } else if ch == 0 {
            Some(BleReading::AmbientLight)
        } else if ch == 1 {
            Some(BleReading::Proximity)
        } else if ch == 2 {
            Some(BleReading::Colour)
        } else {
            None
        },
        Board::TempHumidity => if service != 4 {
            None
        } else if ch == 0 {
            Some(BleReading::Temperature)
        } else if ch == 1 {
            Some(BleReading::Humidity)
        } else if ch == 2 {
            Some(BleReading::HeatIndex)
        } else {
            None
        },
    }
}

/// The board a reading comes from.
pub open spec fn board_of(r: BleReading) -> Board {
    match r {
        BleReading::Accel | BleReading::Gyro | BleReading::Tilt | BleReading::MotionTemp => Board::AccelGyro,
        BleReading::Co2 | BleReading::Tvoc => Board::AirQuality,
        BleReading::PressureTemp | BleReading::Pressure | BleReading::Altitude => Board::Pressure,
        BleReading::AmbientLight | BleReading::Proximity | BleReading::Colour => Board::Light,
        BleReading::Temperature | BleReading::Humidity | BleReading::HeatIndex => Board::TempHumidity,
    }
}

/// Where a reading is published: its board's service, and its place in
/// that service. The motion board sends acceleration, rotation, tilt and
/// temperature; air quality CO2 then TVOC; the pressure board temperature,
/// pressure, altitude; the light board ambient light, proximity, colour;
/// the climate board temperature, humidity, heat index.
pub open spec fn published_at(r: BleReading) -> (int, int) {
    match r {
        BleReading::Accel => (0, 0),
        BleReading::Gyro => (0, 1),
        BleReading::Tilt => (0, 2),
        BleReading::MotionTemp => (0, 3),
        BleReading::Co2 => (1, 0),
        BleReading::Tvoc => (1, 1),
        BleReading::PressureTemp => (2, 0),
        BleReading::Pressure => (2, 1),
        BleReading::Altitude => (2, 2),
        BleReading::AmbientLight => (3, 0),
        BleReading::Proximity => (3, 1),
        BleReading::Colour => (3, 2),
        BleReading::Temperature => (4, 0),
        BleReading::Humidity => (4, 1),
        BleReading::HeatIndex => (4, 2),
    }
}

/// A board supplies a reading on a characteristic exactly when that reading
/// is its own and is published there; no two readings share a
/// characteristic, so the pressure board's temperature is characteristic 0
/// of service 2 and its pressure characteristic 1.
pub proof fn lemma_readings_where_published(b: Board, service: int, ch: int, r: BleReading, r2: BleReading)
    ensures
        (reading_of(b, service, ch) == Some(r)) == (board_of(r) == b && published_at(r) == (service, ch)),
        published_at(r) == published_at(r2) ==> r == r2,
{
}

/// Every notified characteristic has exactly one board that supplies its
/// reading, and no board supplies one outside the notified characteristics.
pub proof fn lemma_one_board_per_characteristic(service: int, ch: int, b1: Board, b2: Board)
    ensures
        reading_of(b1, service, ch) is Some && reading_of(b2, service, ch) is Some ==> b1 == b2,
        reading_of(b1, service, ch) is Some ==> 0 <= service < NUM_SERVICES - 1 && 0 <= ch < chars_of_service(
            service,
        ),
        0 <= service < NUM_SERVICES - 1 && 0 <= ch < chars_of_service(service) ==> exists|b: Board|
            #[trigger] reading_of(b, service, ch) is Some,
{
    if 0 <= service < NUM_SERVICES - 1 && 0 <= ch < chars_of_service(service) {
        if service == 0 {
            assert(reading_of(Board::AccelGyro, service, ch) is Some);
        } else if service == 1 {
            assert(reading_of(Board::AirQuality, service, ch) is Some);
        } else if service == 2 {
            assert(reading_of(Board::Pressure, service, ch) is Some);
        } else if service == 3 {
            assert(reading_of(Board::Light, service, ch) is Some);
        } else {
            assert(reading_of(Board::TempHumidity, service, ch) is Some);
        }
    }
}

/// The comma-separated fields of `s`; a text without commas is one field.
#[verifier::opaque]
pub open spec fn split_commas(s: Seq<u8>) -> Seq<Seq<u8>>
    decreases s.len(),
{
    if exists|i: int| 0 <= i < s.len() && s[i] == 44 {
        let i = choose|i: int| 0 <= i < s.len() && s[i] == 44 && forall|j: int| 0 <= j < i ==> s[j] != 44;
        if 0 <= i < s.len() {
            seq![s.take(i)] + split_commas(s.skip(i + 1))
        } else {
            seq![s]
        }
    } else {
        seq![s]
    }
}

proof fn lemma_split_at_first_comma(s: Seq<u8>, i: int)
    requires
        0 <= i < s.len(),
        s[i] == 44,
        forall|j: int| 0 <= j < i ==> s[j] != 44,
    ensures
        split_commas(s) == seq![s.take(i)] + split_commas(s.skip(i + 1)),
{
    reveal(split_commas);
    let k = choose|k: int| 0 <= k < s.len() && s[k] == 44 && forall|j: int| 0 <= j < k ==> s[j] != 44;
    assert(0 <= k < s.len() && s[k] == 44 && forall|j: int| 0 <= j < k ==> s[j] != 44);
    assert(k == i) by {
        if k < i {
            assert(s[k] != 44);
        } else if k > i {
            assert(s[i] != 44);
        }
    }
}

proof fn lemma_split_no_comma(s: Seq<u8>)
    requires
        forall|j: int| 0 <= j < s.len() ==> s[j] != 44,
    ensures
        split_commas(s) == seq![s],
{
    reveal(split_commas);
}

/// Field `n` (from 0) of the comma-separated value `raw`, or `None` when
/// it has fewer fields.
pub fn event_field(raw: &[u8], n: usize) -> (r: Option<Vec<u8>>)
    ensures
        r matches Some(f) ==> n < split_commas(raw@).len() && f@ == split_commas(raw@)[n as int],
        r is None ==> n >= split_commas(raw@).len(),
{
    let ghost all = split_commas(raw@);
    let mut start: usize = 0;
    let mut k: usize = 0;
    let mut i: usize = 0;
    let mut field: Vec<u8> = Vec::new();
    assert(raw@.skip(0) =~= raw@);
    assert(raw@.subrange(0, 0) =~= field@);
    while i < raw.len()
        invariant
            start <= i <= raw@.len(),
            k <= n,
            k <= start,
            field@ == raw@.subrange(start as int, i as int),
            forall|j: int| start <= j < i ==> raw@[j] != 44,
            all == split_commas(raw@),
            all.len() == k + split_commas(raw@.skip(start as int)).len(),
            forall|m: int| k <= m < all.len() ==> #[trigger] all[m] == split_commas(raw@.skip(start as int))[m - k],
        decreases raw.len() - i,
    {
        if raw[i] == 44 {
            let ghost rest = raw@.skip(start as int);
            proof {
                assert forall|j: int| 0 <= j < i - start implies rest[j] != 44 by {
                    assert(rest[j] == raw@[start + j]);
                }
                lemma_split_at_first_comma(rest, i - start);
                assert(rest.take(i - start) =~= field@);
                assert(rest.skip(i - start + 1) =~= raw@.skip(i + 1));
                assert(all[k as int] == split_commas(rest)[0]);
            }
            if k == n {
                return Some(field);
            }
            proof {
                assert forall|m: int| k + 1 <= m < all.len() implies #[trigger] all[m] == split_commas(
                    raw@.skip(i + 1),
                )[m - (k + 1)] by {
                    assert(split_commas(rest)[m - k] == split_commas(raw@.skip(i + 1))[m - k - 1]);
                }
            }
            k = k + 1;
            start = i + 1;
            field = Vec::new();
            assert(field@ =~= raw@.subrange(start as int, start as int));
        } else {
            field.push(raw[i]);
            assert(field@ =~= raw@.subrange(start as int, i + 1));
        }
        i = i + 1;
    }
    let ghost rest = raw@.skip(start as int);
    proof {
        assert forall|j: int| 0 <= j < rest.len() implies rest[j] != 44 by {
            assert(rest[j] == raw@[start + j]);
        }
        lemma_split_no_comma(rest);
        assert(rest =~= field@);
        assert(all[k as int] == split_commas(rest)[0]);
    }
    if k == n {
        Some(field)
    } else {
        None
    }
}

/// What an event switches when its condition is checked.
#[derive(Clone, Copy, Debug, PartialEq, Eq, Structural)]
pub enum EventSwitch {
    BuzzerOn,
    BuzzerOff,
    RelayOn,
    RelayOff,
}

/// An event with action 'b' drives the buzzer, any other the relay: on
/// while its condition holds, off otherwise.
pub fn event_switch(action: char, triggered: bool) -> (r: EventSwitch)
    ensures
        r == (if action == 'b' {
            if triggered {
                EventSwitch::BuzzerOn
            } else {
                EventSwitch::BuzzerOff
            }
        } else if triggered {
            EventSwitch::RelayOn
        } else {
            EventSwitch::RelayOff
        }),
{
    if action == 'b' {
        if triggered {
            EventSwitch::BuzzerOn
        } else {
            EventSwitch::BuzzerOff
        }
    } else if triggered {
        EventSwitch::RelayOn
    } else {
        EventSwitch::RelayOff
    }
}

/// The fields of a comma-separated text, as they stand after each
/// character: a comma starts a new field, any other character goes on the
/// last one.
pub open spec fn split_fields(s: Seq<char>) -> Seq<Seq<char>>
    decreases s.len(),
{
    if s.len() == 0 {
        seq![seq![]]
    } else {
        let p = split_fields(s.drop_last());
        if s.last() == ',' {
            p.push(seq![])
        } else {
            p.update(p.len() - 1, p.last().push(s.last()))
        }
    }
}

proof fn lemma_split_fields_nonempty(s: Seq<char>)
    ensures
        1 <= split_fields(s).len() <= s.len() + 1,
    decreases s.len(),
{
    if s.len() > 0 {
        lemma_split_fields_nonempty(s.drop_last());
    }
}

/// The value of a run of decimal digits.
pub open spec fn digits_value(d: Seq<char>) -> nat
    decreases d.len(),
{
    if d.len() == 0 {
        0
    } else {
        digits_value(d.drop_last()) * 10 + ((d.last() as nat) - 48) as nat
    }
}

/// Whether `c` is an ASCII digit.
pub open spec fn is_digit(c: char) -> bool {
    '0' <= c && c <= '9'
}

/// The digits part of a number: `s` without a leading '+'.
pub open spec fn unsigned_part(s: Seq<char>) -> Seq<char> {
    if s.len() > 0 && s[0] == '+' {
        s.skip(1)
    } else {
        s
    }
}

/// Whether every character of `d` is a digit.
pub open spec fn all_digits(d: Seq<char>) -> bool {
    forall|i: int| 0 <= i < d.len() ==> is_digit(#[trigger] d[i])
}

/// What parsing `s` as a `usize` gives: an optional '+', then at least one
/// digit and nothing else, with a value that fits.
pub open spec fn parse_usize_spec(s: Seq<char>) -> Option<usize> {
    let d = unsigned_part(s);
    if d.len() > 0 && all_digits(d) && digits_value(d) <= usize::MAX {
        Some(digits_value(d) as usize)
    } else {
        None
    }
}

/// Parses `s` as a `usize`.
#[verifier::spinoff_prover]
pub fn parse_usize(s: &Vec<char>) -> (r: Option<usize>)
    ensures
        r == parse_usize_spec(s@),
{
    let start: usize = if s.len() > 0 && s[0] == '+' {
        1
    } else {
        0
    };
    let ghost d = unsigned_part(s@);
    assert(d =~= s@.skip(start as int));
    if start >= s.len() {
        return None;
    }
    let mut v: usize = 0;
    let mut overflow = false;
    let mut i: usize = start;
    assert(d.take(0) =~= Seq::<char>::empty());
    while i < s.len()
        invariant
            start <= i <= s@.len(),
            d == s@.skip(start as int),
            d == unsigned_part(s@),
            d.len() > 0,
            forall|k: int| 0 <= k < i - start ==> is_digit(#[trigger] d[k]),
            !overflow ==> v == digits_value(d.take(i - start)),
            overflow ==> digits_value(d.take(i - start)) > usize::MAX,
        decreases s.len() - i,
    {
        let c = s[i];
        assert(d[i - start] == c);
        if !('0' <= c && c <= '9') {
            assert(!is_digit(d[i - start]));
            return None;
        }
        let dig: usize = ((c as u32) - 48) as usize;
        let ghost prev = d.take(i - start);
        assert(d.take(i - start + 1).drop_last() =~= prev);
        assert(d.take(i - start + 1).last() == c);
        if !overflow {
            match v.checked_mul(10) {
                Some(t) => match t.checked_add(dig) {
                    Some(u) => {
                        v = u;
                    },
                    None => {
                        overflow = true;
                    },
                },
                None => {
                    overflow = true;
                    assert(digits_value(prev) * 10 + dig > usize::MAX);
                },
            }
        }
        i += 1;
    }
    assert(d.take(i - start) =~= d);
    if overflow {
        None
    } else {
        Some(v)
    }
}

/// A BLE-configured event without its bounds, which stay text: the
/// service, characteristic and field it watches, whether the bounds count
/// as inside, whether they are strict, and its action.
#[derive(Debug, PartialEq, Eq)]
pub struct EventFields {
    pub service_number: usize,
    pub char_number: usize,
    pub para_number: usize,
    pub min_text: Vec<char>,
    pub max_text: Vec<char>,
    pub is_inclusive: bool,
    pub is_strict: bool,
    pub action: char,
}

/// A number field of an event: field `k` when a comma ends it, parsed as
/// a `usize`, else 0.
pub open spec fn number_field(f: Seq<Seq<char>>, k: int) -> usize {
    if k < f.len() - 1 {
        match parse_usize_spec(f[k]) {
            Some(v) => v,
            None => 0,
        }
    } else {
        0
    }
}

/// A text field of an event: field `k` when a comma ends it, else empty.
pub open spec fn text_field(f: Seq<Seq<char>>, k: int) -> Seq<char> {
    if k < f.len() - 1 {
        f[k]
    } else {
        seq![]
    }
}

/// A flag field of an event: field `k` ends with a comma and starts with '1'.
pub open spec fn flag_field(f: Seq<Seq<char>>, k: int) -> bool {
    k < f.len() - 1 && f[k].len() > 0 && f[k][0] == '1'
}

/// Reads an event from its payload "service,char,field,min,max,inside,
/// strict,action": each of the first seven fields counts when a comma ends
/// it; the action is the first character after the seventh comma when no
/// comma follows, else '\0'.
pub fn parse_event(input: &Vec<char>) -> (r: EventFields)
    ensures
        ({
            let f = split_fields(input@);
            &&& r.service_number == number_field(f, 0)
            &&& r.char_number == number_field(f, 1)
            &&& r.para_number == number_field(f, 2)
            &&& r.min_text@ == text_field(f, 3)
            &&& r.max_text@ == text_field(f, 4)
            &&& r.is_inclusive == flag_field(f, 5)
            &&& r.is_strict == flag_field(f, 6)
            &&& r.action == (if f.len() == 8 && f[7].len() > 0 {
                f[7][0]
            } else {
                '\0'
            })
        }),
{
    let mut r = EventFields {
        service_number: 0,
        char_number: 0,
        para_number: 0,
        min_text: Vec::new(),
        max_text: Vec::new(),
        is_inclusive: false,
        is_strict: false,
        action: '\0',
    };
    let mut output_index: usize = 0;
    let mut value: Vec<char> = Vec::new();
    let mut i: usize = 0;
    assert(input@.take(0) =~= Seq::<char>::empty());
    while i < input.len()
        invariant
            i <= input@.len(),
            ({
                let f = split_fields(input@.take(i as int));
                &&& output_index + 1 == f.len()
                &&& value@ == f.last()
                &&& r.service_number == number_field(f, 0)
                &&& r.char_number == number_field(f, 1)
                &&& r.para_number == number_field(f, 2)
                &&& r.min_text@ == text_field(f, 3)
                &&& r.max_text@ == text_field(f, 4)
                &&& r.is_inclusive == flag_field(f, 5)
                &&& r.is_strict == flag_field(f, 6)
                &&& r.action == '\0'
            }),
        decreases input.len() - i,
    {
        let ghost f0 = split_fields(input@.take(i as int));
        let ghost t = input@.take(i + 1);
        assert(t.drop_last() =~= input@.take(i as int));
        proof {
            lemma_split_fields_nonempty(input@.take(i as int));
        }
        let ch = input[i];
        if ch != ',' {
            value.push(ch);
            proof {
                let f1 = split_fields(t);
                assert(f1 == f0.update(f0.len() - 1, f0.last().push(ch)));
                assert forall|k: int| 0 <= k < f1.len() - 1 implies f1[k] == f0[k] by {}
            }
        } else {
            if output_index == 0 {
                r.service_number = match parse_usize(&value) {
                    Some(v) => v,
                    None => 0,
                };
            } else if output_index == 1 {
                r.char_number = match parse_usize(&value) {
                    Some(v) => v,
                    None => 0,
                };
            } else if output_index == 2 {
                r.para_number = match parse_usize(&value) {
                    Some(v) => v,
                    None => 0,
                };
            } else if output_index == 3 {
                r.min_text = value.clone();
            } else if output_index == 4 {
                r.max_text = value.clone();
            } else if output_index == 5 {
                r.is_inclusive = value.len() > 0 && value[0] == '1';
            } else if output_index == 6 {
                r.is_strict = value.len() > 0 && value[0] == '1';
            }
            proof {
                let f1 = split_fields(t);
                assert(f1 == f0.push(seq![]));
                assert(f1[output_index as int] == f0.last());
            }
            output_index = output_index + 1;
            value = Vec::new();
            proof {
                let f1 = split_fields(t);
                assert(value@ =~= f1.last());
            }
        }
        i += 1;
    }
    assert(input@.take(i as int) =~= input@);
    if output_index == 7 {
        r.action = if value.len() > 0 {
            value[0]
        } else {
            '\0'
        };
    }
    r
}

} // verus!
