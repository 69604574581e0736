//! The autonomous-system status indicator (ASSI): its state machine, the
//! light pattern for each state, the serial protocol that feeds it, and
//! the mission-select mode cycling.
//!
//! These are the decisions only. Driving pins, reading the clock and the
//! serial port, and sleeping are left to callers, who hand in the time in
//! milliseconds and the bytes received, and perform the actions returned.
use vstd::prelude::*;

verus! {

/// The autonomous-system states shown by the lights. More than one can be
/// set; each adds its own light actions.
#[derive(Clone, Copy, Debug, PartialEq, Eq, Structural)]
pub struct AssiFlags {
    pub as_off: bool,
    pub as_ready: bool,
    pub as_driving: bool,
    pub as_finished: bool,
    pub as_emergency: bool,
    pub manual_d: bool,
}

/// What to do with an indicator light.
#[derive(Clone, Copy, Debug, PartialEq, Eq, Structural)]
pub enum LightAction {
    /// Switch the light on the pin on or off.
    Switch(u8, bool),
    /// Blink the light on the pin.
    Blink(u8),
}

/// The yellow and blue light pins of the warning-light board.
pub const WARNING_YELLOW: u8 = 5;
pub const WARNING_BLUE: u8 = 6;
/// The yellow and blue light pins of the mission-select board.
pub const MISSION_YELLOW: u8 = 4;
pub const MISSION_BLUE: u8 = 5;

impl AssiFlags {
    /// The start state of the warning lights: off.
    pub fn warning_start() -> (r: Self)
        ensures
            r == (AssiFlags {
                as_off: true,
                as_ready: false,
                as_driving: false,
                as_finished: false,
                as_emergency: false,
                manual_d: false,
            }),
    {
        AssiFlags {
            as_off: true,
            as_ready: false,
            as_driving: false,
            as_finished: false,
            as_emergency: false,
            manual_d: false,
        }
    }

    /// The start state of the mission-select board: nothing set.
    pub fn mission_start() -> (r: Self)
        ensures
            r == (AssiFlags {
                as_off: false,
                as_ready: false,
                as_driving: false,
                as_finished: false,
                as_emergency: false,
                manual_d: false,
            }),
    {
        AssiFlags {
            as_off: false,
            as_ready: false,
            as_driving: false,
            as_finished: false,
            as_emergency: false,
            manual_d: false,
        }
    }
}

/// The light actions for the states in `f`, in this order: off (both
/// dark), ready (yellow steady), driving (yellow blinking, blue dark),
/// finished (blue steady), emergency (blue blinking, yellow dark), manual
/// (both on).
pub open spec fn light_plan(f: AssiFlags, yellow: u8, blue: u8) -> Seq<LightAction> {
    (if f.as_off {
        seq![LightAction::Switch(yellow, false), LightAction::Switch(blue, false)]
    } else {
        seq![]
    }) + (if f.as_ready {
        seq![LightAction::Switch(yellow, true), LightAction::Switch(blue, false)]
    } else {
        seq![]
    }) + (if f.as_driving {
        seq![LightAction::Blink(yellow), LightAction::Switch(blue, false)]
    } else {
        seq![]
    }) + (if f.as_finished {
        seq![LightAction::Switch(yellow, false), LightAction::Switch(blue, true)]
    } else {
        seq![]
    }) + (if f.as_emergency {
        seq![LightAction::Blink(blue), LightAction::Switch(yellow, false)]
    } else {
        seq![]
    }) + (if f.manual_d {
        seq![LightAction::Switch(yellow, true), LightAction::Switch(blue, true)]
    } else {
        seq![]
    })
}

/// What a light shows after a list of actions: nothing done to it, steady
/// on or off, or blinking.
#[derive(Clone, Copy, Debug, PartialEq, Eq, Structural)]
pub enum LightShow {
    Untouched,
    Steady(bool),
    Blinking,
}

/// What the light on `pin` shows once `acts` have been carried out: the
/// last action on that pin decides.
pub open spec fn shown(acts: Seq<LightAction>, pin: u8) -> LightShow
    decreases acts.len(),
{
    if acts.len() == 0 {
        LightShow::Untouched
    } else {
        match acts.last() {
            LightAction::Switch(p, on) => if p == pin {
                LightShow::Steady(on)
            } else {
                shown(acts.drop_last(), pin)
            },
            LightAction::Blink(p) => if p == pin {
                LightShow::Blinking
            } else {
                shown(acts.drop_last(), pin)
            },
        }
    }
}

/// What action `a` makes the light on `pin` show, if it is about that light.
pub open spec fn act_show(a: LightAction, pin: u8) -> Option<LightShow> {
    match a {
        LightAction::Switch(p, on) => if p == pin {
            Some(LightShow::Steady(on))
        } else {
            None
        },
        LightAction::Blink(p) => if p == pin {
            Some(LightShow::Blinking)
        } else {
            None
        },
    }
}

proof fn lemma_shown_push(s: Seq<LightAction>, a: LightAction, pin: u8)
    ensures
        shown(s.push(a), pin) == match act_show(a, pin) {
            Some(l) => l,
            None => shown(s, pin),
        },
{
    assert(s.push(a).drop_last() =~= s);
    assert(s.push(a).last() == a);
}

proof fn lemma_shown_pair(s: Seq<LightAction>, a: LightAction, b: LightAction, pin: u8)
    ensures
        shown(s + seq![a, b], pin) == match act_show(b, pin) {
            Some(l) => l,
            None => match act_show(a, pin) {
                Some(l) => l,
                None => shown(s, pin),
            },
        },
{
    assert(s + seq![a, b] =~= s.push(a).push(b));
    lemma_shown_push(s.push(a), b, pin);
    lemma_shown_push(s, a, pin);
}

/// The warning lights show the most advanced state that is set: manual
/// driving both lights on; an emergency the blue light blinking and the
/// yellow dark; finished the blue light on and the yellow dark; driving
/// the yellow light blinking and the blue dark; ready the yellow light on
/// and the blue dark; off both dark. With no state set the lights are left
/// alone. So each state has its own pattern: ready, for one, never looks
/// like off.
pub proof fn lemma_lights_show_state(f: AssiFlags, yellow: u8, blue: u8)
    requires
        yellow != blue,
    ensures
        ({
            let p = light_plan(f, yellow, blue);
            let y = shown(p, yellow);
            let b = shown(p, blue);
            if f.manual_d {
                y == LightShow::Steady(true) && b == LightShow::Steady(true)
            } else if f.as_emergency {
                y == LightShow::Steady(false) && b == LightShow::Blinking
            } else if f.as_finished {
                y == LightShow::Steady(false) && b == LightShow::Steady(true)
            } else if f.as_driving {
                y == LightShow::Blinking && b == LightShow::Steady(false)
            } else if f.as_ready {
                y == LightShow::Steady(true) && b == LightShow::Steady(false)
            } else if f.as_off {
                y == LightShow::Steady(false) && b == LightShow::Steady(false)
            } else {
                y == LightShow::Untouched && b == LightShow::Untouched
            }
        }),
{
    let e = Seq::<LightAction>::empty();
    let p0 = if f.as_off {
        seq![LightAction::Switch(yellow, false), LightAction::Switch(blue, false)]
    } else {
        e
    };
    let p1 = if f.as_ready {
        seq![LightAction::Switch(yellow, true), LightAction::Switch(blue, false)]
    } else {
        e
    };
    let p2 = if f.as_driving {
        seq![LightAction::Blink(yellow), LightAction::Switch(blue, false)]
    } else {
        e
    };
    let p3 = if f.as_finished {
        seq![LightAction::Switch(yellow, false), LightAction::Switch(blue, true)]
    } else {
        e
    };
    let p4 = if f.as_emergency {
        seq![LightAction::Blink(blue), LightAction::Switch(yellow, false)]
    } else {
        e
    };
    let p5 = if f.manual_d {
        seq![LightAction::Switch(yellow, true), LightAction::Switch(blue, true)]
    } else {
        e
    };
    let s1 = p0 + p1;
    let s2 = s1 + p2;
    let s3 = s2 + p3;
    let s4 = s3 + p4;
    let s5 = s4 + p5;
    assert(light_plan(f, yellow, blue) == s5);
    assert(p0 + e =~= p0);
    assert(e + p0 =~= p0);
    assert(s1 + e =~= s1);
    assert(s2 + e =~= s2);
    assert(s3 + e =~= s3);
    assert(s4 + e =~= s4);
    assert(shown(e, yellow) == LightShow::Untouched && shown(e, blue) == LightShow::Untouched);
    assert(seq![LightAction::Switch(yellow, false), LightAction::Switch(blue, false)].drop_last() =~= seq![
        LightAction::Switch(yellow, false),
    ]);
    if f.manual_d {
        lemma_shown_pair(s4, LightAction::Switch(yellow, true), LightAction::Switch(blue, true), yellow);
        lemma_shown_pair(s4, LightAction::Switch(yellow, true), LightAction::Switch(blue, true), blue);
    } else if f.as_emergency {
        lemma_shown_pair(s3, LightAction::Blink(blue), LightAction::Switch(yellow, false), yellow);
        lemma_shown_pair(s3, LightAction::Blink(blue), LightAction::Switch(yellow, false), blue);
    } else if f.as_finished {
        lemma_shown_pair(s2, LightAction::Switch(yellow, false), LightAction::Switch(blue, true), yellow);
        lemma_shown_pair(s2, LightAction::Switch(yellow, false), LightAction::Switch(blue, true), blue);
    } else if f.as_driving {
        lemma_shown_pair(s1, LightAction::Blink(yellow), LightAction::Switch(blue, false), yellow);
        lemma_shown_pair(s1, LightAction::Blink(yellow), LightAction::Switch(blue, false), blue);
    } else if f.as_ready {
        lemma_shown_pair(p0, LightAction::Switch(yellow, true), LightAction::Switch(blue, false), yellow);
        lemma_shown_pair(p0, LightAction::Switch(yellow, true), LightAction::Switch(blue, false), blue);
    } else if f.as_off {
        lemma_shown_pair(e, LightAction::Switch(yellow, false), LightAction::Switch(blue, false), yellow);
        lemma_shown_pair(e, LightAction::Switch(yellow, false), LightAction::Switch(blue, false), blue);
    }
}

fn push_pair(v: &mut Vec<LightAction>, a: LightAction, b: LightAction)
    ensures
        final(v)@ == old(v)@ + seq![a, b],
{
    v.push(a);
    v.push(b);
    assert(v@ =~= old(v)@ + seq![a, b]);
}

/// The light actions for the states in `f`.
pub fn light_actions(f: &AssiFlags, yellow: u8, blue: u8) -> (r: Vec<LightAction>)
    ensures
        r@ == light_plan(*f, yellow, blue),
{
    let mut v: Vec<LightAction> = Vec::new();
    let ghost e = Seq::<LightAction>::empty();
    if f.as_off {
        push_pair(&mut v, LightAction::Switch(yellow, false), LightAction::Switch(blue, false));
    }
    if f.as_ready {
        push_pair(&mut v, LightAction::Switch(yellow, true), LightAction::Switch(blue, false));
    }
    if f.as_driving {
        push_pair(&mut v, LightAction::Blink(yellow), LightAction::Switch(blue, false));
    }
    if f.as_finished {
        push_pair(&mut v, LightAction::Switch(yellow, false), LightAction::Switch(blue, true));
    }
    if f.as_emergency {
        push_pair(&mut v, LightAction::Blink(blue), LightAction::Switch(yellow, false));
    }
    if f.manual_d {
        push_pair(&mut v, LightAction::Switch(yellow, true), LightAction::Switch(blue, true));
    }
    assert(v@ =~= light_plan(*f, yellow, blue));
    v
}

/// A blinking light driven by the clock: on at the start of a cycle, off
/// once more than 500 ms have passed, and a new cycle once more than
/// 1000 ms have passed.
#[derive(Clone, Copy, Debug)]
pub struct BlinkTimer {
    pub first_blink: bool,
    pub prev_ms: u64,
}

impl BlinkTimer {
    /// A timer at the start of a cycle.
    pub fn new() -> (r: Self)
        ensures
            r.first_blink,
            r.prev_ms == 0,
    {
        BlinkTimer { first_blink: true, prev_ms: 0 }
    }

    /// The state and what to write at time `now_ms`: on (and the cycle's
    /// start time noted) at the start of a cycle; off once more than 500 ms
    /// have passed, then a new cycle once more than 1000 ms have; else
    /// nothing.
    pub fn step(&mut self, now_ms: u64) -> (r: Option<bool>)
        ensures
            old(self).first_blink ==> r == Some(true) && !final(self).first_blink && final(self).prev_ms == now_ms,
            !old(self).first_blink ==> final(self).prev_ms == old(self).prev_ms && if now_ms > old(self).prev_ms
                + 500 {
                r == Some(false) && final(self).first_blink == (now_ms > old(self).prev_ms + 1000)
            } else {
                r is None && !final(self).first_blink
            },
    {
        if self.first_blink {
            self.prev_ms = now_ms;
            self.first_blink = false;
            Some(true)
        } else if now_ms >= self.prev_ms && now_ms - self.prev_ms > 500 {
            if now_ms - self.prev_ms > 1000 {
                self.first_blink = true;
            }
            Some(false)
        } else {
            None
        }
    }
}

/// The flags sent by the controller over serial.
#[derive(Clone, Copy, Debug, PartialEq, Eq, Structural)]
pub struct SerialFlags {
    pub ebs: bool,
    pub done: bool,
    pub moving: bool,
    pub go: bool,
}

/// Bit `k` of `v`.
pub open spec fn bit_set(v: i32, k: i32) -> bool {
    (v >> k) & 1 != 0
}

/// The flags of a received value: go is bit 0, moving bit 1, done bit 2
/// and the emergency brake bit 3.
pub fn decode(val: i32) -> (r: SerialFlags)
    ensures
        r == (SerialFlags {
            go: bit_set(val, 0),
            moving: bit_set(val, 1),
            done: bit_set(val, 2),
            ebs: bit_set(val, 3),
        }),
{
    let go = (val & 1) != 0;
    assert((val & 1 != 0) == ((val >> 0i32) & 1 != 0)) by (bit_vector);
    SerialFlags { go, moving: ((val >> 1i32) & 1) != 0, done: ((val >> 2i32) & 1) != 0, ebs: ((val >> 3i32) & 1) != 0 }
}

/// The value of a received character: none for a newline (ignored),
/// 10 to 15 for 'A' to 'F', else its offset from '0'.
pub open spec fn received_value(c: u8) -> Option<i32> {
    if c == 10 {
        None
    } else if 65 <= c <= 70 {
        Some((c - 55) as i32)
    } else {
        Some((c - 48) as i32)
    }
}

/// The value of a received character, as the serial protocol reads it.
pub fn serial_value(c: u8) -> (r: Option<i32>)
    ensures
        r == received_value(c),
{
    let received = c as i32;
    if received == 10 {
        return None;
    }
    if 65 <= received && received <= 70 {
        Some(received - 55)
    } else {
        Some(received - 48)
    }
}

/// The state of the autonomous-system state machine.
#[derive(Clone, Copy, Debug)]
pub struct AssiMachine {
    pub flags: AssiFlags,
    /// Set when the ready timer ran out without the go signal.
    pub not_ready: bool,
    /// When the ready state was entered, in ms.
    pub initial_ms: u64,
}

/// Ready may turn into driving from 5 s on, and turns into an emergency
/// after 30 s.
pub const READY_MIN_MS: u64 = 5000;
pub const READY_MAX_MS: u64 = 30000;

/// One step of the state machine at time `now_ms`, with the controller's
/// flags `s` and whether a mission was `selected`:
/// - in an emergency nothing changes but the off state, which is cleared;
/// - with the emergency brake engaged, neither ready nor driving; finished
///   when the car stands and the mission is done, else an emergency;
/// - otherwise ready exactly when a mission is selected and the timer has
///   not run out (the ready time starting when ready is entered), else off;
/// - ready and not driving: driving with the go signal between 5 and 30 s
///   after ready began, an emergency after more than 30 s.
pub open spec fn assi_next(m: AssiMachine, s: SerialFlags, selected: bool, now_ms: u64) -> AssiMachine {
    let f0 = AssiFlags { as_off: false, ..m.flags };
    if m.flags.as_emergency {
        AssiMachine { flags: f0, ..m }
    } else {
        let m1 = if s.ebs {
            AssiMachine {
                flags: AssiFlags {
                    as_driving: false,
                    as_ready: false,
                    as_finished: if !s.moving && s.done {
                        true
                    } else {
                        f0.as_finished
                    },
                    as_emergency: !(!s.moving && s.done),
                    ..f0
                },
                ..m
            }
        } else if selected && !m.not_ready {
            AssiMachine {
                flags: AssiFlags { as_ready: true, ..f0 },
                initial_ms: if !m.flags.as_ready {
                    now_ms
                } else {
                    m.initial_ms
                },
                ..m
            }
        } else {
            AssiMachine { flags: AssiFlags { as_ready: false, as_off: true, ..f0 }, ..m }
        };
        if m1.flags.as_ready && !m1.flags.as_driving && now_ms >= m1.initial_ms {
            let t = now_ms - m1.initial_ms;
            let m2 = if t >= READY_MIN_MS && t < READY_MAX_MS && s.go {
                AssiMachine { flags: AssiFlags { as_ready: false, as_driving: true, ..m1.flags }, ..m1 }
            } else {
                m1
            };
            if t > READY_MAX_MS {
                AssiMachine { flags: AssiFlags { as_emergency: true, as_ready: false, ..m2.flags }, ..m2 }
            } else {
                m2
            }
        } else {
            m1
        }
    }
}

/// The mode character reported for the states in `f`: 'O' off, 'R'
/// ready, 'D' driving, 'E' finished (the first that is set), else none.
pub open spec fn mode_char(f: AssiFlags) -> Option<char> {
    if f.as_off {
        Some('O')
    } else if f.as_ready {
        Some('R')
    } else if f.as_driving {
        Some('D')
    } else if f.as_finished {
        Some('E')
    } else {
        None
    }
}

impl AssiMachine {
    /// The machine at start: nothing set, the timer not started.
    pub fn new() -> (r: Self)
        ensures
            r.flags == (AssiFlags {
                as_off: false,
                as_ready: false,
                as_driving: false,
                as_finished: false,
                as_emergency: false,
                manual_d: false,
            }),
            !r.not_ready,
            r.initial_ms == 0,
    {
        AssiMachine { flags: AssiFlags::mission_start(), not_ready: false, initial_ms: 0 }
    }

    /// The mode character to report for the current states.
    pub fn send_mode(&self) -> (r: Option<char>)
        ensures
            r == mode_char(self.flags),
    {
        if self.flags.as_off {
            Some('O')
        } else if self.flags.as_ready {
            Some('R')
        } else if self.flags.as_driving {
            Some('D')
        } else if self.flags.as_finished {
            Some('E')
        } else {
            None
        }
    }

    /// Take one step at time `now_ms` (see `assi_next`); returns the mode
    /// character to report.
    pub fn step(&mut self, s: SerialFlags, selected: bool, now_ms: u64) -> (r: Option<char>)
        ensures
            *final(self) == assi_next(*old(self), s, selected, now_ms),
            r == mode_char(final(self).flags),
    {
        self.flags.as_off = false;
        if !self.flags.as_emergency {
            if s.ebs {
                self.flags.as_driving = false;
                self.flags.as_ready = false;
                if !s.moving && s.done {
                    self.flags.as_finished = true;
                } else {
                    self.flags.as_emergency = true;
                }
            } else {
                if selected && !self.not_ready {
                    if !self.flags.as_ready {
                        self.initial_ms = now_ms;
                    }
                    self.flags.as_ready = true;
                } else {
                    self.flags.as_ready = false;
                    self.flags.as_off = true;
                }
            }
            if self.flags.as_ready && !self.flags.as_driving && now_ms >= self.initial_ms {
                let timer = now_ms - self.initial_ms;
                if timer >= READY_MIN_MS && timer < READY_MAX_MS && s.go {
                    self.flags.as_ready = false;
                    self.flags.as_driving = true;
                }
                if timer > READY_MAX_MS {
                    self.flags.as_emergency = true;
                    self.flags.as_ready = false;
                }
            }
        }
        self.send_mode()
    }
}

/// An emergency never ends: a step keeps every state but the off state,
/// which it clears.
pub proof fn lemma_emergency_absorbing(m: AssiMachine, s: SerialFlags, selected: bool, now_ms: u64)
    requires
        m.flags.as_emergency,
    ensures
        assi_next(m, s, selected, now_ms).flags == (AssiFlags { as_off: false, ..m.flags }),
        assi_next(m, s, selected, now_ms).flags.as_emergency,
{
}

/// With the emergency brake engaged, a step leaves the car neither ready
/// nor driving, and finished or in an emergency.
pub proof fn lemma_brake_stops(m: AssiMachine, s: SerialFlags, selected: bool, now_ms: u64)
    requires
        !m.flags.as_emergency,
        s.ebs,
    ensures
        !assi_next(m, s, selected, now_ms).flags.as_ready,
        !assi_next(m, s, selected, now_ms).flags.as_driving,
        assi_next(m, s, selected, now_ms).flags.as_finished || assi_next(m, s, selected, now_ms).flags.as_emergency,
{
}

/// Driving starts only from ready, with the go signal, between 5 and 30 s
/// after ready began, and without the emergency brake.
pub proof fn lemma_driving_needs_go(m: AssiMachine, s: SerialFlags, selected: bool, now_ms: u64)
    requires
        !m.flags.as_driving,
        assi_next(m, s, selected, now_ms).flags.as_driving,
    ensures
        !m.flags.as_emergency,
        !s.ebs,
        s.go,
        selected,
        now_ms >= assi_next(m, s, selected, now_ms).initial_ms + READY_MIN_MS,
        now_ms < assi_next(m, s, selected, now_ms).initial_ms + READY_MAX_MS,
{
}

/// Staying ready for more than 30 s without driving is an emergency.
pub proof fn lemma_ready_timeout(m: AssiMachine, s: SerialFlags, now_ms: u64)
    requires
        !m.flags.as_emergency,
        !m.flags.as_driving,
        m.flags.as_ready,
        !m.not_ready,
        !s.ebs,
        now_ms > m.initial_ms + READY_MAX_MS,
    ensures
        assi_next(m, s, true, now_ms).flags.as_emergency,
        !assi_next(m, s, true, now_ms).flags.as_ready,
{
}

/// The lowest and highest mission LED pins.
pub const LED_PIN_MIN: i32 = 6;
pub const LED_PIN_MAX: i32 = 12;

/// The mission-select buttons and the mode they choose.
#[derive(Clone, Copy, Debug)]
pub struct ModeSelect {
    /// The mode, which is also the pin of its LED.
    pub mode: i32,
    /// The mode shown last.
    pub prev_mode: i32,
    pub selected: bool,
    /// A press of the cycle button waits to be acted on.
    pub interrupted: bool,
}

/// The modes stay within the LED range, at most one past its end.
pub open spec fn mode_ok(m: ModeSelect) -> bool {
    LED_PIN_MIN <= m.mode <= LED_PIN_MAX + 1 && LED_PIN_MIN <= m.prev_mode <= LED_PIN_MAX + 1
}

/// What the mode loop does with the LEDs this time round.
#[derive(Clone, Copy, Debug, PartialEq, Eq, Structural)]
pub struct ModeActions {
    /// Blink the mode's LED (no mode selected yet), or hold it on.
    pub blink: bool,
    /// The LED of the mode, as read at the start of the round.
    pub led: i32,
    /// The LED to switch off because the mode changed, if any; a pause of
    /// 250 ms and a fresh blink cycle follow.
    pub clear: Option<i32>,
}

impl ModeSelect {
    /// The first mode, nothing selected.
    pub fn new() -> (r: Self)
        ensures
            mode_ok(r),
            r.mode == LED_PIN_MIN,
            r.prev_mode == LED_PIN_MIN,
            !r.selected,
            !r.interrupted,
    {
        ModeSelect { mode: LED_PIN_MIN, prev_mode: LED_PIN_MIN, selected: false, interrupted: false }
    }

    /// The cycle button: move to the next mode, unless a press is still
    /// pending or a mode was selected.
    pub fn cycle_button(&mut self)
        requires
            mode_ok(*old(self)),
            old(self).interrupted || old(self).mode <= LED_PIN_MAX,
        ensures
            mode_ok(*final(self)),
            if !old(self).interrupted && !old(self).selected {
                *final(self) == (ModeSelect { mode: (old(self).mode + 1) as i32, interrupted: true, ..*old(self) })
            } else {
                *final(self) == *old(self)
            },
    {
        if !self.interrupted && !self.selected {
            self.mode = self.mode + 1;
            self.interrupted = true;
        }
    }

    /// The select button: choose the current mode.
    pub fn select_button(&mut self)
        ensures
            *final(self) == (ModeSelect { selected: true, ..*old(self) }),
    {
        self.selected = true;
    }

    /// One round of the mode loop: show the mode, wrap it back to the
    /// first past the last, and when it changed, clear the old LED and
    /// accept the next press.
    pub fn update(&mut self) -> (r: ModeActions)
        requires
            mode_ok(*old(self)),
        ensures
            mode_ok(*final(self)),
            r.blink == !old(self).selected,
            r.led == old(self).mode,
            final(self).selected == old(self).selected,
            final(self).mode == if old(self).mode > LED_PIN_MAX {
                LED_PIN_MIN
            } else {
                old(self).mode
            },
            ({
                let p = if old(self).prev_mode > LED_PIN_MAX {
                    LED_PIN_MIN
                } else {
                    old(self).prev_mode
                };
                let i = if old(self).prev_mode > LED_PIN_MAX {
                    false
                } else {
                    old(self).interrupted
                };
                if old(self).mode != p {
                    r.clear == Some(p) && final(self).prev_mode == old(self).mode && !final(self).interrupted
                } else {
                    r.clear is None && final(self).prev_mode == p && final(self).interrupted == i
                }
            }),
    {
        let mode = self.mode;
        let blink = !self.selected;
        if mode > LED_PIN_MAX {
            self.mode = LED_PIN_MIN;
        }
        if self.prev_mode > LED_PIN_MAX {
            self.prev_mode = LED_PIN_MIN;
            self.interrupted = false;
        }
        let mut clear: Option<i32> = None;
        if mode != self.prev_mode {
            clear = Some(self.prev_mode);
            self.prev_mode = mode;
            self.interrupted = false;
        }
        ModeActions { blink, led: mode, clear }
    }
}

} // verus!
