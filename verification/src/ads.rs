//! The actuator test rig: its remote commands, the PWM duty of a power
//! setting, the extend/retract cycle, the serial message receiver of the
//! state-machine sketch, and the Arduino `map` used by the steering sketches.
//!
//! Reading from the network or the serial port, writing pins and sleeping
//! are left to callers, who hand in what arrived and perform the actions.
use vstd::prelude::*;

verus! {

/// The settings that remote commands change.
#[derive(Clone, Copy, Debug, PartialEq, Eq, Structural)]
pub struct ActuatorSettings {
    pub paused: bool,
    pub a_val: i32,
    pub b_val: i32,
    /// The time of each cycle phase, in ms.
    pub st: i32,
    pub count: i32,
    pub count_r: i32,
    pub cycle_test: bool,
}

impl ActuatorSettings {
    /// The settings at start: paused, both powers 100, 2 s phases.
    pub fn new() -> (r: Self)
        ensures
            r == (ActuatorSettings {
                paused: true,
                a_val: 100,
                b_val: 100,
                st: 2000,
                count: 0,
                count_r: 0,
                cycle_test: false,
            }),
    {
        ActuatorSettings { paused: true, a_val: 100, b_val: 100, st: 2000, count: 0, count_r: 0, cycle_test: false }
    }
}

/// How many integers command `data` reads from the client: three for
/// 's', one for 'a' and 'b', none otherwise.
pub open spec fn ints_needed(data: char) -> nat {
    if data == 's' {
        3
    } else if data == 'a' || data == 'b' {
        1
    } else {
        0
    }
}

/// The settings after command `data` with the integers `ints` it read:
/// 'p' toggles the pause, 's' sets both powers and the phase time (sent
/// in seconds), 'r' zeroes the counters, 'l' toggles the cycle test, 'a'
/// and 'b' set one power and end the cycle test; anything else changes
/// nothing.
pub open spec fn after_command(s: ActuatorSettings, data: char, ints: Seq<i32>) -> ActuatorSettings {
    if data == 'p' {
        ActuatorSettings { paused: !s.paused, ..s }
    } else if data == 's' {
        ActuatorSettings { a_val: ints[0], b_val: ints[1], st: (ints[2] * 1000) as i32, ..s }
    } else if data == 'r' {
        ActuatorSettings { count: 0, count_r: 0, ..s }
    } else if data == 'l' {
        ActuatorSettings { cycle_test: !s.cycle_test, ..s }
    } else if data == 'a' {
        ActuatorSettings { a_val: ints[0], cycle_test: false, ..s }
    } else if data == 'b' {
        ActuatorSettings { b_val: ints[0], cycle_test: false, ..s }
    } else {
        s
    }
}

/// How many integers command `data` reads from the client.
pub fn command_ints(data: char) -> (r: usize)
    ensures
        r == ints_needed(data),
{
    if data == 's' {
        3
    } else if data == 'a' || data == 'b' {
        1
    } else {
        0
    }
}

/// Apply command `data` with the integers `ints` it read. The phase time
/// of 's' must fit once multiplied by 1000.
pub fn command(s: &mut ActuatorSettings, data: char, ints: &[i32])
    requires
        ints@.len() == ints_needed(data),
        data == 's' ==> i32::MIN <= ints@[2] * 1000 <= i32::MAX,
    ensures
        *final(s) == after_command(*old(s), data, ints@),
{
    if data == 'p' {
        s.paused = !s.paused;
    } else if data == 's' {
        s.a_val = ints[0];
        s.b_val = ints[1];
        s.st = ints[2] * 1000;
    } else if data == 'r' {
        s.count = 0;
        s.count_r = 0;
    } else if data == 'l' {
        s.cycle_test = !s.cycle_test;
    } else if data == 'a' {
        s.a_val = ints[0];
        s.cycle_test = false;
    } else if data == 'b' {
        s.b_val = ints[0];
        s.cycle_test = false;
    }
}

/// Toggling the pause twice gives the settings back.
pub proof fn lemma_pause_toggle_twice(s: ActuatorSettings)
    ensures
        after_command(after_command(s, 'p', seq![]), 'p', seq![]) == s,
{
}

/// Truncating division of `a` by a positive `b`.
pub open spec fn trunc_div(a: int, b: int) -> int {
    if a >= 0 {
        a / b
    } else {
        -((-a) / b)
    }
}

/// The PWM duty for a power setting in percent of full power (255):
/// 255 * state / 100 with Rust's truncating division, kept to a byte.
pub fn pwm_duty(state: i32) -> (r: u8)
    requires
        i32::MIN <= 255 * state <= i32::MAX,
    ensures
        r == (trunc_div(255 * state, 100) as u8),
        0 <= state <= 100 ==> r == 255 * state / 100,
{
    let p = 255 * state;
    let q = if p >= 0 {
        p / 100
    } else {
        0 - ((0 - p) / 100)
    };
    #[verifier::truncate]
    (q as u8)
}

/// Whether the hall counter moved since it was last reported.
pub fn hall_changed(count: i64, count_r: i64) -> (r: bool)
    ensures
        r == (count != count_r),
{
    count != count_r
}

/// One action of the extend/retract cycle.
#[derive(Clone, Copy, Debug, PartialEq, Eq, Structural)]
pub enum CycleAction {
    /// Drive output A at a power setting.
    DriveA(i32),
    /// Drive output B at a power setting.
    DriveB(i32),
    /// Report the hall counter and wait one phase.
    Wait,
}

/// The actions of one cycle: both off, wait; A at its power (extend),
/// wait; A off, wait; B at its power (retract), wait.
pub open spec fn cycle_plan(s: ActuatorSettings) -> Seq<CycleAction> {
    seq![
        CycleAction::DriveA(0),
        CycleAction::DriveB(0),
        CycleAction::Wait,
        CycleAction::DriveA(s.a_val),
        CycleAction::Wait,
        CycleAction::DriveA(0),
        CycleAction::Wait,
        CycleAction::DriveB(s.b_val),
        CycleAction::Wait,
    ]
}

/// The actions of one cycle, none while paused.
pub fn cycle_actions(s: &ActuatorSettings) -> (r: Vec<CycleAction>)
    ensures
        r@ == if s.paused {
            Seq::<CycleAction>::empty()
        } else {
            cycle_plan(*s)
        },
{
    let mut v: Vec<CycleAction> = Vec::new();
    if !s.paused {
        v.push(CycleAction::DriveA(0));
        v.push(CycleAction::DriveB(0));
        v.push(CycleAction::Wait);
        v.push(CycleAction::DriveA(s.a_val));
        v.push(CycleAction::Wait);
        v.push(CycleAction::DriveA(0));
        v.push(CycleAction::Wait);
        v.push(CycleAction::DriveB(s.b_val));
        v.push(CycleAction::Wait);
    }
    assert(v@ =~= if s.paused {
        Seq::<CycleAction>::empty()
    } else {
        cycle_plan(*s)
    });
    v
}

/// The size of the marker receiver's buffer.
pub const NUM_CHARS: usize = 32;

/// A receiver of `<...>` messages, one byte at a time.
pub struct MarkerReceiver {
    chars: Vec<u8>,
    ndx: usize,
    in_progress: bool,
    new_data: bool,
}

/// The receiver's state after byte `c`: inside a message, the end marker
/// terminates it (a zero at the index), resets the index and flags new
/// data, and any other byte is stored (the index stops at the last cell);
/// outside one, the start marker begins one.
pub open spec fn received(buf: Seq<u8>, ndx: int, in_progress: bool, new_data: bool, c: u8) -> (Seq<u8>, int, bool, bool) {
    if in_progress {
        if c != 62 {
            (buf.update(ndx, c), if ndx + 1 >= NUM_CHARS {
                NUM_CHARS - 1
            } else {
                ndx + 1
            }, true, new_data)
        } else {
            (buf.update(ndx, 0), 0, false, true)
        }
    } else if c == 60 {
        (buf, ndx, true, new_data)
    } else {
        (buf, ndx, false, new_data)
    }
}

/// The message held: the bytes before the first zero (all of them when
/// there is none).
pub open spec fn message_len(buf: Seq<u8>) -> int {
    if exists|i: int| 0 <= i < buf.len() && buf[i] == 0 {
        choose|i: int| 0 <= i < buf.len() && buf[i] == 0 && forall|j: int| 0 <= j < i ==> buf[j] != 0
    } else {
        buf.len() as int
    }
}

impl MarkerReceiver {
    pub closed spec fn spec_buf(&self) -> Seq<u8> {
        self.chars@
    }

    pub closed spec fn spec_ndx(&self) -> int {
        self.ndx as int
    }

    pub closed spec fn spec_in_progress(&self) -> bool {
        self.in_progress
    }

    pub closed spec fn spec_new_data(&self) -> bool {
        self.new_data
    }

    pub closed spec fn wf(&self) -> bool {
        self.chars@.len() == NUM_CHARS && self.ndx < NUM_CHARS
    }

    /// An empty receiver.
    pub fn new() -> (r: Self)
        ensures
            r.wf(),
            r.spec_buf() == Seq::new(NUM_CHARS as nat, |i: int| 0u8),
            r.spec_ndx() == 0,
            !r.spec_in_progress(),
            !r.spec_new_data(),
    {
        MarkerReceiver { chars: crate::gfx::vec_of(0u8, NUM_CHARS), ndx: 0, in_progress: false, new_data: false }
    }

    /// Take in one byte.
    pub fn receive(&mut self, c: u8)
        requires
            old(self).wf(),
        ensures
            final(self).wf(),
            (final(self).spec_buf(), final(self).spec_ndx(), final(self).spec_in_progress(), final(self).spec_new_data())
                == received(
                old(self).spec_buf(),
                old(self).spec_ndx(),
                old(self).spec_in_progress(),
                old(self).spec_new_data(),
                c,
            ),
    {
        if self.in_progress {
            if c != 62u8 {
                self.chars.set(self.ndx, c);
                self.ndx = self.ndx + 1;
                if self.ndx >= NUM_CHARS {
                    self.ndx = NUM_CHARS - 1;
                }
            } else {
                self.chars.set(self.ndx, 0);
                self.in_progress = false;
                self.ndx = 0;
                self.new_data = true;
            }
        } else if c == 60u8 {
            self.in_progress = true;
        }
    }

    /// Whether a receive loop goes on reading: while a message is in
    /// progress.
    pub fn in_progress(&self) -> (r: bool)
        ensures
            r == self.spec_in_progress(),
    {
        self.in_progress
    }

    /// The new message, if one arrived since the last call: the bytes
    /// before the first zero. The flag is cleared.
    pub fn take_message(&mut self) -> (r: Option<Vec<u8>>)
        requires
            old(self).wf(),
        ensures
            final(self).wf(),
            final(self).spec_buf() == old(self).spec_buf(),
            final(self).spec_ndx() == old(self).spec_ndx(),
            final(self).spec_in_progress() == old(self).spec_in_progress(),
            !final(self).spec_new_data(),
            match r {
                Some(m) => old(self).spec_new_data() && m@ == old(self).spec_buf().take(message_len(old(self).spec_buf())),
                None => !old(self).spec_new_data(),
            },
    {
        if !self.new_data {
            return None;
        }
        self.new_data = false;
        let mut len: usize = 0;
        while len < NUM_CHARS && self.chars[len] != 0
            invariant
                self.wf(),
                len <= NUM_CHARS,
                forall|j: int| 0 <= j < len ==> self.chars@[j] != 0,
            decreases NUM_CHARS - len,
        {
            len = len + 1;
        }
        proof {
            let b = self.chars@;
            if len < NUM_CHARS {
                assert(b[len as int] == 0);
                let k = choose|i: int| 0 <= i < b.len() && b[i] == 0 && forall|j: int| 0 <= j < i ==> b[j] != 0;
                assert(0 <= k < b.len() && b[k] == 0 && forall|j: int| 0 <= j < k ==> b[j] != 0);
                assert(k == len) by {
                    if k < len {
                        assert(b[k] != 0);
                    } else if k > len {
                        assert(b[len as int] != 0);
                    }
                }
            } else {
                assert(!exists|i: int| 0 <= i < b.len() && b[i] == 0);
            }
        }
        let mut m: Vec<u8> = Vec::new();
        let mut i: usize = 0;
        while i < len
            invariant
                self.wf(),
                i <= len <= NUM_CHARS,
                m@ == self.chars@.take(i as int),
            decreases len - i,
        {
            m.push(self.chars[i]);
            i = i + 1;
            assert(m@ =~= self.chars@.take(i as int));
        }
        Some(m)
    }
}

/// Arduino's `map`: `val` moved from the range `in_min..in_max` to
/// `out_min..out_max` by integer arithmetic with truncating division.
pub open spec fn map_spec(val: int, in_min: int, in_max: int, out_min: int, out_max: int) -> int {
    let num = (val - in_min) * (out_max - out_min);
    let den = in_max - in_min;
    (if (num >= 0) == (den > 0) {
        (if num >= 0 {
            num
        } else {
            -num
        }) / (if den > 0 {
            den
        } else {
            -den
        })
    } else {
        -((if num >= 0 {
            num
        } else {
            -num
        }) / (if den > 0 {
            den
        } else {
            -den
        }))
    }) + out_min
}

/// Arduino's `map`, on 32-bit integers. The ranges must differ in their
/// input ends and the arithmetic must fit.
pub fn map(val: i32, in_min: i32, in_max: i32, out_min: i32, out_max: i32) -> (r: i32)
    requires
        in_max != in_min,
        i32::MIN <= val - in_min <= i32::MAX,
        i32::MIN <= out_max - out_min <= i32::MAX,
        i32::MIN < (val - in_min) * (out_max - out_min) <= i32::MAX,
        i32::MIN < in_max - in_min <= i32::MAX,
        i32::MIN <= map_spec(val as int, in_min as int, in_max as int, out_min as int, out_max as int) <= i32::MAX,
    ensures
        r == map_spec(val as int, in_min as int, in_max as int, out_min as int, out_max as int),
{
    let a = val - in_min;
    let b = out_max - out_min;
    let num = a * b;
    let den = in_max - in_min;
    let an: i32 = if num >= 0 {
        num
    } else {
        0 - num
    };
    let ad: i32 = if den > 0 {
        den
    } else {
        0 - den
    };
    let q = an / ad;
    let s = if (num >= 0) == (den > 0) {
        q
    } else {
        0 - q
    };
    assert(0 <= q <= an) by (nonlinear_arith)
        requires
            an >= 0,
            ad > 0,
            q == an / ad,
    ;
    s + out_min
}

} // verus!
