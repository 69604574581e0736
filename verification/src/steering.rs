//! The drive-and-steer command handling of the ultrasonic steering sketch,
//! and the direction of the wheel encoder's pulses.
//!
//! The distance is handed in as the rounded reading in centimetres, and
//! the actions returned are performed by the caller.
use vstd::prelude::*;
use crate::fontconvert::white_space;

verus! {

/// What the drive and steering logic reports.
#[derive(Clone, Copy, Debug, PartialEq, Eq, Structural)]
pub enum Note {
    Forwards,
    Reverse,
    Neutral,
    Left,
    Right,
    Hold,
    MaxLockLeft,
    MaxLockRight,
}

/// One action of a round.
#[derive(Clone, Copy, Debug, PartialEq, Eq, Structural)]
pub enum DriveAction {
    /// PWM on the drive motor's forward and backward pins.
    Drive(u8, u8),
    /// The levels of the two steering motor pins.
    Steer(bool, bool),
    /// A message to print.
    Report(Note),
}

/// The last command character and the pending drive and steering commands.
#[derive(Clone, Copy, Debug, PartialEq, Eq, Structural)]
pub struct CommandState {
    pub ch: char,
    pub drive_cmd: char,
    pub steer_cmd: char,
    pub d_update: bool,
    pub s_update: bool,
}

/// The state after reading `input` and sorting the current character: a
/// drive command ('w', 's', 'n') or a steering command ('a', 'd', 'm',
/// 'b') is taken unless one of its kind is still pending.
pub open spec fn sorted(s: CommandState, input: Option<char>) -> CommandState {
    let ch = match input {
        Some(c) => c,
        None => s.ch,
    };
    let s1 = if (ch == 'w' || ch == 's' || ch == 'n') && !s.d_update {
        CommandState { ch, drive_cmd: ch, d_update: true, ..s }
    } else {
        CommandState { ch, ..s }
    };
    if (ch == 'a' || ch == 'd' || ch == 'm' || ch == 'b') && !s1.s_update {
        CommandState { steer_cmd: ch, s_update: true, ..s1 }
    } else {
        s1
    }
}

/// The drive actions of a pending drive command, and the state after.
pub open spec fn drive_plan(s: CommandState) -> (Seq<DriveAction>, CommandState) {
    if s.d_update && s.drive_cmd == 'w' {
        (seq![DriveAction::Drive(50, 0), DriveAction::Report(Note::Forwards)], CommandState { d_update: false, ..s })
    } else if s.d_update && s.drive_cmd == 's' {
        (seq![DriveAction::Drive(0, 50), DriveAction::Report(Note::Reverse)], CommandState { d_update: false, ..s })
    } else if s.d_update && s.drive_cmd == 'n' {
        (seq![DriveAction::Drive(0, 0), DriveAction::Report(Note::Neutral)], CommandState { d_update: false, ..s })
    } else {
        (seq![], s)
    }
}

/// The steering actions for distance `d` (cm), and the state after: left
/// ('a', pending) locks at 15 cm or more, else steers left; right ('d')
/// locks at 9 cm or less (whether pending or not), else steers right when
/// pending; hold ('m', pending) stops the steering motor.
pub open spec fn steer_plan(s: CommandState, d: i32) -> (Seq<DriveAction>, CommandState) {
    let done = CommandState { s_update: false, ..s };
    if s.steer_cmd == 'a' && s.s_update {
        if d >= 15 {
            (seq![DriveAction::Steer(false, false)], done)
        } else {
            (seq![DriveAction::Steer(true, false), DriveAction::Report(Note::Left)], done)
        }
    } else if s.steer_cmd == 'd' {
        if d <= 9 {
            (seq![DriveAction::Steer(false, false)], done)
        } else if s.s_update {
            (seq![DriveAction::Steer(false, true), DriveAction::Report(Note::Right)], done)
        } else {
            (seq![], s)
        }
    } else if s.steer_cmd == 'm' && s.s_update {
        (seq![DriveAction::Steer(false, false), DriveAction::Report(Note::Hold)], done)
    } else {
        (seq![], s)
    }
}

/// The lock warnings for distance `d`: left from 16 cm, right up to 9 cm.
pub open spec fn warnings(d: i32) -> Seq<DriveAction> {
    (if d >= 16 {
        seq![DriveAction::Report(Note::MaxLockLeft)]
    } else {
        seq![]
    }) + (if d <= 9 {
        seq![DriveAction::Report(Note::MaxLockRight)]
    } else {
        seq![]
    })
}

impl CommandState {
    /// No command yet.
    pub fn new() -> (r: Self)
        ensures
            r == (CommandState { ch: '\0', drive_cmd: '\0', steer_cmd: '\0', d_update: false, s_update: false }),
    {
        CommandState { ch: '\0', drive_cmd: '\0', steer_cmd: '\0', d_update: false, s_update: false }
    }

    /// One round: take the character read (if any), carry out the pending
    /// drive and steering commands for the distance `d` (cm), then warn of
    /// the steering locks.
    pub fn round(&mut self, input: Option<char>, d: i32) -> (r: Vec<DriveAction>)
        ensures
            ({
                let s1 = sorted(*old(self), input);
                let (a2, s2) = drive_plan(s1);
                let (a3, s3) = steer_plan(s2, d);
                &&& r@ == a2 + a3 + warnings(d)
                &&& *final(self) == s3
            }),
    {
        match input {
            Some(c) => {
                self.ch = c;
            },
            None => {},
        }
        let ch = self.ch;
        if (ch == 'w' || ch == 's' || ch == 'n') && !self.d_update {
            self.drive_cmd = ch;
            self.d_update = true;
        }
        if (ch == 'a' || ch == 'd' || ch == 'm' || ch == 'b') && !self.s_update {
            self.steer_cmd = ch;
            self.s_update = true;
        }
        let ghost s1 = *self;
        let mut v: Vec<DriveAction> = Vec::new();
        if self.drive_cmd == 'w' && self.d_update {
            v.push(DriveAction::Drive(50, 0));
            v.push(DriveAction::Report(Note::Forwards));
            self.d_update = false;
        }
        if self.drive_cmd == 's' && self.d_update {
            v.push(DriveAction::Drive(0, 50));
            v.push(DriveAction::Report(Note::Reverse));
            self.d_update = false;
        }
        if self.drive_cmd == 'n' && self.d_update {
            v.push(DriveAction::Drive(0, 0));
            v.push(DriveAction::Report(Note::Neutral));
            self.d_update = false;
        }
        assert(v@ =~= drive_plan(s1).0);
        let ghost s2 = *self;
        let ghost n2 = v@.len();
        if self.steer_cmd == 'a' && self.s_update {
            if d >= 15 {
                v.push(DriveAction::Steer(false, false));
                self.s_update = false;
            } else if self.s_update {
                v.push(DriveAction::Steer(true, false));
                v.push(DriveAction::Report(Note::Left));
                self.s_update = false;
            }
        }
        if self.steer_cmd == 'd' {
            if d <= 9 {
                v.push(DriveAction::Steer(false, false));
                self.s_update = false;
            } else if self.s_update {
                v.push(DriveAction::Steer(false, true));
                v.push(DriveAction::Report(Note::Right));
                self.s_update = false;
            }
        }
        if self.steer_cmd == 'm' && self.s_update {
            v.push(DriveAction::Steer(false, false));
            v.push(DriveAction::Report(Note::Hold));
            self.s_update = false;
        }
        assert(v@ =~= drive_plan(s1).0 + steer_plan(s2, d).0);
        if d >= 16 {
            v.push(DriveAction::Report(Note::MaxLockLeft));
        }
        if d <= 9 {
            v.push(DriveAction::Report(Note::MaxLockRight));
        }
        assert(v@ =~= drive_plan(s1).0 + steer_plan(s2, d).0 + warnings(d));
        v
    }
}

/// The steering locks: a left command at 15 cm or more, or a right
/// command at 9 cm or less, only stops the steering motor.
pub proof fn lemma_steering_locks(s: CommandState, d: i32)
    requires
        s.steer_cmd == 'a' && s.s_update && d >= 15 || s.steer_cmd == 'd' && d <= 9,
    ensures
        steer_plan(s, d).0 == seq![DriveAction::Steer(false, false)],
        !steer_plan(s, d).1.s_update,
{
}

/// The encoder count's change on a rising edge of channel A: forward when
/// channel B is low, backward when it is high; nothing without the edge.
pub fn encoder_step(a: bool, b: bool) -> (r: i32)
    ensures
        r == if !a {
            0
        } else if !b {
            1
        } else {
            -1
        },
{
    if a {
        if !b {
            1
        } else {
            -1
        }
    } else {
        0
    }
}

/// Slowest PWM that still turns the steering motor.
pub const PWM_MIN: i32 = 35;
/// Fastest PWM the steering controller uses.
pub const PWM_MAX: i32 = 200;

/// The signed PWM of the potentiometer steering controller from its
/// unsigned size: held between `PWM_MIN` and `PWM_MAX`, positive when the
/// target lies to the right.
pub fn shape_pwm(raw: i32, right: bool) -> (r: i32)
    ensures
        ({
            let m = if raw < 0 {
                0
            } else if raw > PWM_MAX {
                PWM_MAX
            } else {
                raw
            };
            let p = if m < PWM_MIN {
                PWM_MIN
            } else {
                m
            };
            r == if right {
                p as int
            } else {
                -p
            }
        }),
        PWM_MIN <= (if right { r as int } else { -r }) <= PWM_MAX,
{
    let mut pwm = if raw < 0 {
        0
    } else if raw > PWM_MAX {
        PWM_MAX
    } else {
        raw
    };
    if pwm < PWM_MIN {
        pwm = PWM_MIN;
    }
    if right {
        pwm
    } else {
        -pwm
    }
}

/// The two PWM outputs (right-turn pin, left-turn pin) for a signed drive:
/// the magnitude, held at 255, on the pin of its sign; both off at zero.
pub fn drive_outputs(pwm_signed: i32) -> (r: (u8, u8))
    requires
        pwm_signed != i32::MIN,
    ensures
        ({
            let mag = if pwm_signed < 0 {
                -pwm_signed
            } else {
                pwm_signed as int
            };
            let m = if mag > 255 {
                255
            } else {
                mag
            };
            r == if pwm_signed > 0 {
                (m as u8, 0u8)
            } else if pwm_signed < 0 {
                (0u8, m as u8)
            } else {
                (0u8, 0u8)
            }
        }),
{
    let mag: i32 = if pwm_signed < 0 {
        -pwm_signed
    } else {
        pwm_signed
    };
    let m: u8 = if mag > 255 {
        255
    } else {
        mag as u8
    };
    if pwm_signed > 0 {
        (m, 0)
    } else if pwm_signed < 0 {
        (0, m)
    } else {
        (0, 0)
    }
}

/// Whether the operator typed "ARM": the line with blanks trimmed from
/// both ends is exactly those three letters.
pub open spec fn arms(line: Seq<char>) -> bool {
    exists|a: int|
        0 <= a && a + 3 <= line.len() && #[trigger] line.subrange(a, a + 3) == seq!['A', 'R', 'M'] && (forall|j: int|
            0 <= j < a ==> white_space(#[trigger] line[j])) && (forall|j: int|
            a + 3 <= j < line.len() ==> white_space(#[trigger] line[j]))
}

/// Whether `line` is the arming command.
pub fn is_arm_command(line: &Vec<char>) -> (r: bool)
    ensures
        r == arms(line@),
{
    let n = line.len();
    let mut a: usize = 0;
    while a < n && is_blank(line[a])
        invariant
            a <= n,
            n == line@.len(),
            forall|j: int| 0 <= j < a ==> white_space(#[trigger] line@[j]),
        decreases n - a,
    {
        a += 1;
    }
    let mut b: usize = n;
    while b > a && is_blank(line[b - 1])
        invariant
            a <= b <= n,
            n == line@.len(),
            forall|j: int| b <= j < n ==> white_space(#[trigger] line@[j]),
        decreases b,
    {
        b -= 1;
    }
    let r = b - a == 3 && line[a] == 'A' && line[a + 1] == 'R' && line[a + 2] == 'M';
    proof {
        let l = line@;
        if r {
            assert(l.subrange(a as int, a + 3) =~= seq!['A', 'R', 'M']);
        }
        if arms(l) {
            let x = choose|x: int|
                0 <= x && x + 3 <= l.len() && #[trigger] l.subrange(x, x + 3) == seq!['A', 'R', 'M'] && (forall|j: int|
                    0 <= j < x ==> white_space(#[trigger] l[j])) && (forall|j: int|
                    x + 3 <= j < l.len() ==> white_space(#[trigger] l[j]));
            assert(l[x] == l.subrange(x, x + 3)[0]);
            assert(l[x + 1] == l.subrange(x, x + 3)[1]);
            assert(l[x + 2] == l.subrange(x, x + 3)[2]);
            assert(!white_space(l[x]));
            assert(!white_space(l[x + 2]));
            assert(a == x) by {
                if a < x {
                    assert(a < n);
                } else if a > x {
                    assert(white_space(l[x]));
                }
            }
            assert(b == x + 3) by {
                if b > x + 3 {
                    assert(white_space(l[b - 1]));
                } else if b < x + 3 {
                    assert(white_space(l[x + 2]));
                }
            }
        }
    }
    r
}

fn is_blank(c: char) -> (r: bool)
    ensures
        r == white_space(c),
{
    let v = c as u32;
    (0x09 <= v && v <= 0x0D) || v == 0x20 || v == 0x85 || v == 0xA0 || v == 0x1680 || (0x2000 <= v && v
        <= 0x200A) || v == 0x2028 || v == 0x2029 || v == 0x202F || v == 0x205F || v == 0x3000
}

} // verus!
