//! Driver of the MYOSA light, proximity and gesture board (APDS-9960 on
//! I2C address 0x39): register transactions, sensor configuration, color
//! and light readings, and the gesture engine that turns the chip's FIFO
//! of up/down/left/right photodiode samples into swipes.
use vstd::prelude::*;
use crate::gfx::{iabs, tdiv};
pub use crate::wire::{I2CBus, DelayMs, I2cOp};

verus! {

/// I2C address of the APDS-9960.
pub const APDS9960_I2C_ADDRESS: u8 = 0x39;

pub const GESTURE_THRESHOLD_OUT: u8 = 10;
pub const GESTURE_SENSITIVITY_1: i32 = 50;
pub const GESTURE_SENSITIVITY_2: i32 = 20;

/// Error code of the byte-returning getters.
pub const ERROR: u8 = 0xFF;

pub const APDS9960_ID_1: u8 = 0xAB;
pub const APDS9960_ID_2: u8 = 0x9C;
pub const APDS9960_ID_3: u8 = 0xA8;

/// Wait (ms) between FIFO reads.
pub const FIFO_PAUSE_TIME: u16 = 30;

pub const APDS9960_ENABLE: u8 = 0x80;
pub const APDS9960_ATIME: u8 = 0x81;
pub const APDS9960_WTIME: u8 = 0x83;
pub const APDS9960_AILTL: u8 = 0x84;
pub const APDS9960_AILTH: u8 = 0x85;
pub const APDS9960_AIHTL: u8 = 0x86;
pub const APDS9960_AIHTH: u8 = 0x87;
pub const APDS9960_PILT: u8 = 0x89;
pub const APDS9960_PIHT: u8 = 0x8B;
pub const APDS9960_PERS: u8 = 0x8C;
pub const APDS9960_CONFIG1: u8 = 0x8D;
pub const APDS9960_PPULSE: u8 = 0x8E;
pub const APDS9960_CONTROL: u8 = 0x8F;
pub const APDS9960_CONFIG2: u8 = 0x90;
pub const APDS9960_ID: u8 = 0x92;
pub const APDS9960_STATUS: u8 = 0x93;
pub const APDS9960_CDATAL: u8 = 0x94;
pub const APDS9960_CDATAH: u8 = 0x95;
pub const APDS9960_RDATAL: u8 = 0x96;
pub const APDS9960_RDATAH: u8 = 0x97;
pub const APDS9960_GDATAL: u8 = 0x98;
pub const APDS9960_GDATAH: u8 = 0x99;
pub const APDS9960_BDATAL: u8 = 0x9A;
pub const APDS9960_BDATAH: u8 = 0x9B;
pub const APDS9960_PDATA: u8 = 0x9C;
pub const APDS9960_POFFSET_UR: u8 = 0x9D;
pub const APDS9960_POFFSET_DL: u8 = 0x9E;
pub const APDS9960_CONFIG3: u8 = 0x9F;
pub const APDS9960_GPENTH: u8 = 0xA0;
pub const APDS9960_GEXTH: u8 = 0xA1;
pub const APDS9960_GCONF1: u8 = 0xA2;
pub const APDS9960_GCONF2: u8 = 0xA3;
pub const APDS9960_GOFFSET_U: u8 = 0xA4;
pub const APDS9960_GOFFSET_D: u8 = 0xA5;
pub const APDS9960_GOFFSET_L: u8 = 0xA7;
pub const APDS9960_GOFFSET_R: u8 = 0xA9;
pub const APDS9960_GPULSE: u8 = 0xA6;
pub const APDS9960_GCONF3: u8 = 0xAA;
pub const APDS9960_GCONF4: u8 = 0xAB;
pub const APDS9960_GFLVL: u8 = 0xAE;
pub const APDS9960_GSTATUS: u8 = 0xAF;
pub const APDS9960_IFORCE: u8 = 0xE4;
pub const APDS9960_PICLEAR: u8 = 0xE5;
pub const APDS9960_CICLEAR: u8 = 0xE6;
pub const APDS9960_AICLEAR: u8 = 0xE7;
pub const APDS9960_GFIFO_U: u8 = 0xFC;
pub const APDS9960_GFIFO_D: u8 = 0xFD;
pub const APDS9960_GFIFO_L: u8 = 0xFE;
pub const APDS9960_GFIFO_R: u8 = 0xFF;

pub const ENABLE_MSK: u8 = 0x01;
pub const PON_EN_MSK: u8 = 0x01;
pub const AEN_EN_MSK: u8 = 0x02;
pub const PEN_EN_MSK: u8 = 0x04;
pub const WEN_EN_MSK: u8 = 0x08;
pub const AIEN_EN_MSK: u8 = 0x10;
pub const PIEN_EN_MSK: u8 = 0x20;
pub const GEN_EN_MSK: u8 = 0x40;
pub const PON_EN_POS: u8 = 0x00;
pub const AEN_EN_POS: u8 = 0x01;
pub const PEN_EN_POS: u8 = 0x02;
pub const WEN_EN_POS: u8 = 0x03;
pub const AIEN_EN_POS: u8 = 0x04;
pub const PIEN_EN_POS: u8 = 0x05;
pub const GEN_EN_POS: u8 = 0x06;

pub const APSD9960_GAIN_MSK: u8 = 0x03;
pub const ALS_GAIN_MSK: u8 = 0x03;
pub const PRX_GAIN_MSK: u8 = 0x0C;
pub const LED_DRIVE_MSK: u8 = 0xC0;
pub const ALS_GAIN_POS: u8 = 0x00;
pub const PRX_GAIN_POS: u8 = 0x02;
pub const LED_DRIVE_POS: u8 = 0x06;

pub const GES_WTIME_MSK: u8 = 0x07;
pub const GES_LDRIVE_MSK: u8 = 0x18;
pub const GES_GAIN_MSK: u8 = 0x60;
pub const GES_WTIME_POS: u8 = 0x00;
pub const GES_LDRIVE_POS: u8 = 0x03;
pub const GES_GAIN_POS: u8 = 0x05;

pub const GES_GCONFIG4_MSK: u8 = 0x01;
pub const GES_GMODE_MSK: u8 = 0x01;
pub const GES_GIEN_MSK: u8 = 0x02;
pub const GES_GMODE_POS: u8 = 0x00;
pub const GES_GIEN_POS: u8 = 0x01;

pub const CFG2_LED_BOOST_MSK: u8 = 0x30;
pub const CFG2_LED_BOOST_POS: u8 = 0x04;

pub const GES_STATUS_MSK: u8 = 0x01;
pub const GSTS_GVALID_MSK: u8 = 0x01;
pub const GSTS_GFOV_MSK: u8 = 0x02;
pub const GSTS_GVALID_POS: u8 = 0x00;
pub const GSTS_GFOV_POS: u8 = 0x01;

pub const LED_DRIVE_100MA: u8 = 0;
pub const LED_DRIVE_50MA: u8 = 1;
pub const LED_DRIVE_25MA: u8 = 2;
pub const LED_DRIVE_12_5MA: u8 = 3;

pub const PGAIN_1X: u8 = 0;
pub const PGAIN_2X: u8 = 1;
pub const PGAIN_4X: u8 = 2;
pub const PGAIN_8X: u8 = 3;

pub const AGAIN_1X: u8 = 0;
pub const AGAIN_4X: u8 = 1;
pub const AGAIN_16X: u8 = 2;
pub const AGAIN_64X: u8 = 3;

pub const GGAIN_1X: u8 = 0;
pub const GGAIN_2X: u8 = 1;
pub const GGAIN_4X: u8 = 2;
pub const GGAIN_8X: u8 = 3;

pub const LED_BOOST_100: u8 = 0;
pub const LED_BOOST_150: u8 = 1;
pub const LED_BOOST_200: u8 = 2;
pub const LED_BOOST_300: u8 = 3;

pub const GWTIME_0MS: u8 = 0;
pub const GWTIME_2_8MS: u8 = 1;
pub const GWTIME_5_6MS: u8 = 2;
pub const GWTIME_8_4MS: u8 = 3;
pub const GWTIME_14_0MS: u8 = 4;
pub const GWTIME_22_4MS: u8 = 5;
pub const GWTIME_30_8MS: u8 = 6;
pub const GWTIME_39_2MS: u8 = 7;

pub const DEFAULT_ATIME: u8 = 219;
pub const DEFAULT_WTIME: u8 = 246;
pub const DEFAULT_PROX_PPULSE: u8 = 0x87;
pub const DEFAULT_GESTURE_PPULSE: u8 = 0x89;
pub const DEFAULT_POFFSET_UR: u8 = 0;
pub const DEFAULT_POFFSET_DL: u8 = 0;
pub const DEFAULT_CONFIG1: u8 = 0x60;
pub const DEFAULT_LDRIVE: u8 = LED_DRIVE_100MA;
pub const DEFAULT_PGAIN: u8 = PGAIN_4X;
pub const DEFAULT_AGAIN: u8 = AGAIN_4X;
pub const DEFAULT_PILT: u8 = 0;
pub const DEFAULT_PIHT: u8 = 50;
pub const DEFAULT_AILT: u16 = 0xFFFF;
pub const DEFAULT_AIHT: u16 = 0;
pub const DEFAULT_PERS: u8 = 0x11;
pub const DEFAULT_CONFIG2: u8 = 0x01;
pub const DEFAULT_CONFIG3: u8 = 0;
pub const DEFAULT_GPENTH: u8 = 40;
pub const DEFAULT_GEXTH: u8 = 30;
pub const DEFAULT_GCONF1: u8 = 0x40;
pub const DEFAULT_GGAIN: u8 = GGAIN_2X;
pub const DEFAULT_GLDRIVE: u8 = LED_DRIVE_100MA;
pub const DEFAULT_GWTIME: u8 = GWTIME_2_8MS;
pub const DEFAULT_GOFFSET: u8 = 0;
pub const DEFAULT_GPULSE: u8 = 0xC9;
pub const DEFAULT_GCONF3: u8 = 0;
pub const DEFAULT_GIEN: u8 = 0;

/// Off or on.
#[derive(Clone, Copy, Debug, PartialEq, Eq, Structural)]
pub enum State {
    DISABLE,
    ENABLE,
}

impl State {
    pub open spec fn spec_value(self) -> u8 {
        match self {
            State::DISABLE => 0,
            State::ENABLE => 1,
        }
    }

    /// 0 for off, 1 for on.
    #[verifier::when_used_as_spec(spec_value)]
    pub fn value(self) -> (r: u8)
        ensures
            r == self.spec_value(),
    {
        match self {
            State::DISABLE => 0,
            State::ENABLE => 1,
        }
    }
}

/// The features switched by the ENABLE register, by bit.
#[derive(Clone, Copy, Debug, PartialEq, Eq, Structural)]
pub enum Apds9960Mode {
    POWER,
    AMBIENT_LIGHT,
    PROXIMITY,
    WAIT,
    AMBIENT_LIGHT_INT,
    PROXIMITY_INT,
    GESTURE,
}

impl Apds9960Mode {
    pub open spec fn spec_bit(self) -> u8 {
        match self {
            Apds9960Mode::POWER => 0,
            Apds9960Mode::AMBIENT_LIGHT => 1,
            Apds9960Mode::PROXIMITY => 2,
            Apds9960Mode::WAIT => 3,
            Apds9960Mode::AMBIENT_LIGHT_INT => 4,
            Apds9960Mode::PROXIMITY_INT => 5,
            Apds9960Mode::GESTURE => 6,
        }
    }

    /// The feature's bit in the ENABLE register.
    #[verifier::when_used_as_spec(spec_bit)]
    pub fn bit(self) -> (r: u8)
        ensures
            r == self.spec_bit(),
    {
        match self {
            Apds9960Mode::POWER => 0,
            Apds9960Mode::AMBIENT_LIGHT => 1,
            Apds9960Mode::PROXIMITY => 2,
            Apds9960Mode::WAIT => 3,
            Apds9960Mode::AMBIENT_LIGHT_INT => 4,
            Apds9960Mode::PROXIMITY_INT => 5,
            Apds9960Mode::GESTURE => 6,
        }
    }
}

/// Gesture directions, as codes.
#[derive(Clone, Copy, Debug, PartialEq, Eq, Structural)]
pub enum Direction {
    DIR_NONE,
    DIR_LEFT,
    DIR_RIGHT,
    DIR_UP,
    DIR_DOWN,
    DIR_NEAR,
    DIR_FAR,
    DIR_ALL,
    TIMEOUT,
}

impl Direction {
    pub open spec fn spec_code(self) -> i32 {
        match self {
            Direction::DIR_NONE => 0,
            Direction::DIR_LEFT => 1,
            Direction::DIR_RIGHT => 2,
            Direction::DIR_UP => 3,
            Direction::DIR_DOWN => 4,
            Direction::DIR_NEAR => 5,
            Direction::DIR_FAR => 6,
            Direction::DIR_ALL => 7,
            Direction::TIMEOUT => 8,
        }
    }

    /// The direction's code.
    #[verifier::when_used_as_spec(spec_code)]
    pub fn code(self) -> (r: i32)
        ensures
            r == self.spec_code(),
    {
        match self {
            Direction::DIR_NONE => 0,
            Direction::DIR_LEFT => 1,
            Direction::DIR_RIGHT => 2,
            Direction::DIR_UP => 3,
            Direction::DIR_DOWN => 4,
            Direction::DIR_NEAR => 5,
            Direction::DIR_FAR => 6,
            Direction::DIR_ALL => 7,
            Direction::TIMEOUT => 8,
        }
    }
}

/// Near/far states of the gesture engine, as codes.
#[derive(Clone, Copy, Debug, PartialEq, Eq, Structural)]
pub enum GestureState {
    NA_STATE,
    NEAR_STATE,
    FAR_STATE,
    ALL_STATE,
}

impl GestureState {
    pub open spec fn spec_code(self) -> i32 {
        match self {
            GestureState::NA_STATE => 0,
            GestureState::NEAR_STATE => 1,
            GestureState::FAR_STATE => 2,
            GestureState::ALL_STATE => 3,
        }
    }

    /// The state's code.
    #[verifier::when_used_as_spec(spec_code)]
    pub fn code(self) -> (r: i32)
        ensures
            r == self.spec_code(),
    {
        match self {
            GestureState::NA_STATE => 0,
            GestureState::NEAR_STATE => 1,
            GestureState::FAR_STATE => 2,
            GestureState::ALL_STATE => 3,
        }
    }
}

/// Gesture samples collected from the FIFO.
#[derive(Clone, Copy, Debug)]
pub struct GestureDataType {
    pub u_data: [u8; 32],
    pub d_data: [u8; 32],
    pub l_data: [u8; 32],
    pub r_data: [u8; 32],
    pub index: u8,
    pub total_gestures: u8,
    pub in_threshold: u8,
    pub out_threshold: u8,
}

impl GestureDataType {
    /// All samples and counters zero.
    pub fn new() -> (r: Self)
        ensures
            r.u_data@ == Seq::new(32, |i: int| 0u8),
            r.d_data@ == Seq::new(32, |i: int| 0u8),
            r.l_data@ == Seq::new(32, |i: int| 0u8),
            r.r_data@ == Seq::new(32, |i: int| 0u8),
            r.index == 0,
            r.total_gestures == 0,
            r.in_threshold == 0,
            r.out_threshold == 0,
    {
        let r = GestureDataType {
            u_data: [0u8; 32],
            d_data: [0u8; 32],
            l_data: [0u8; 32],
            r_data: [0u8; 32],
            index: 0,
            total_gestures: 0,
            in_threshold: 0,
            out_threshold: 0,
        };
        assert(r.u_data@ =~= Seq::new(32, |i: int| 0u8));
        assert(r.d_data@ =~= Seq::new(32, |i: int| 0u8));
        assert(r.l_data@ =~= Seq::new(32, |i: int| 0u8));
        assert(r.r_data@ =~= Seq::new(32, |i: int| 0u8));
        r
    }
}

/// A color reading: the red, green and blue channels.
#[derive(Clone, Copy, Debug)]
pub struct RgbColor {
    pub red: u16,
    pub green: u16,
    pub blue: u16,
}

/// One register-level exchange with the chip, with its outcome.
pub enum Txn {
    /// The address alone, and the end status.
    Probe(u8),
    /// A register address alone (a special command), and the end status.
    Command(u8, u8),
    /// A register write: register, value, end status.
    Write(u8, u8, u8),
    /// A register read: register, end status, the request's reply, and
    /// the byte when exactly one was available (request and byte only
    /// after a successful end).
    Read(u8, u8, u8, Option<u8>),
    /// A block read: register, count asked, end status, the request's
    /// reply, the bytes read, and whether more arrived than asked.
    Block(u8, u8, u8, u8, Seq<u8>, bool),
}

/// The bus operations of a transaction with the chip at `a`.
pub open spec fn txn_ops(a: u8, t: Txn) -> Seq<I2cOp> {
    match t {
        Txn::Probe(s) => seq![I2cOp::BeginTransmission(a), I2cOp::EndTransmission(s)],
        Txn::Command(reg, s) => seq![I2cOp::BeginTransmission(a), I2cOp::Write(reg), I2cOp::EndTransmission(s)],
        Txn::Write(reg, v, s) => seq![
            I2cOp::BeginTransmission(a),
            I2cOp::Write(reg),
            I2cOp::Write(v),
            I2cOp::EndTransmission(s),
        ],
        Txn::Read(reg, s, q, b) => seq![I2cOp::BeginTransmission(a), I2cOp::Write(reg), I2cOp::EndTransmission(s)] + if s
            != 0 {
            seq![]
        } else {
            seq![I2cOp::RequestFrom(a, 1, q)] + match b {
                Some(v) => seq![I2cOp::Read(v)],
                None => seq![],
            }
        },
        Txn::Block(reg, n, s, q, bytes, over) => seq![
            I2cOp::BeginTransmission(a),
            I2cOp::Write(reg),
            I2cOp::EndTransmission(s),
        ] + if s != 0 {
            seq![]
        } else {
            seq![I2cOp::RequestFrom(a, n, q)] + bytes.map_values(|v: u8| I2cOp::Read(v))
        },
    }
}

/// The bus operations of a run of transactions.
pub open spec fn txns_ops(a: u8, ts: Seq<Txn>) -> Seq<I2cOp>
    decreases ts.len(),
{
    if ts.len() == 0 {
        seq![]
    } else {
        txns_ops(a, ts.drop_last()) + txn_ops(a, ts.last())
    }
}

proof fn lemma_txns_ops_push(a: u8, ts: Seq<Txn>, t: Txn)
    ensures
        txns_ops(a, ts.push(t)) == txns_ops(a, ts) + txn_ops(a, t),
{
    assert(ts.push(t).drop_last() =~= ts);
}

proof fn lemma_txns_ops_add(a: u8, t1: Seq<Txn>, t2: Seq<Txn>)
    ensures
        txns_ops(a, t1 + t2) == txns_ops(a, t1) + txns_ops(a, t2),
    decreases t2.len(),
{
    if t2.len() == 0 {
        assert(t1 + t2 =~= t1);
        assert(txns_ops(a, t1) + txns_ops(a, t2) =~= txns_ops(a, t1));
    } else {
        lemma_txns_ops_add(a, t1, t2.drop_last());
        assert((t1 + t2).drop_last() =~= t1 + t2.drop_last());
        assert((t1 + t2).last() == t2.last());
        assert(txns_ops(a, t1 + t2) =~= txns_ops(a, t1) + txns_ops(a, t2));
    }
}

/// The byte a transaction read, when it read one.
pub open spec fn read_value(t: Txn) -> Option<u8> {
    match t {
        Txn::Read(_, s, _, b) => if s == 0 {
            b
        } else {
            None
        },
        _ => None,
    }
}

/// `t` is a read of register `reg`.
pub open spec fn reads(t: Txn, reg: u8) -> bool {
    t matches Txn::Read(r, _, _, _) && r == reg
}

/// `t` is a write of `v` to register `reg`.
pub open spec fn writes(t: Txn, reg: u8, v: u8) -> bool {
    t matches Txn::Write(r, w, _) && r == reg && w == v
}

/// A write or command that the chip acknowledged.
pub open spec fn acked(t: Txn) -> bool {
    match t {
        Txn::Probe(s) => s == 0,
        Txn::Command(_, s) => s == 0,
        Txn::Write(_, _, s) => s == 0,
        _ => false,
    }
}

/// The register value after clearing `clear` and setting `set`.
pub open spec fn updated(v: u8, clear: u8, set: u8) -> u8 {
    (v & !clear) | set
}

/// The bytes a block read received.
pub open spec fn block_bytes(t: Txn) -> Seq<u8> {
    match t {
        Txn::Block(_, _, s, _, b, _) => if s == 0 {
            b
        } else {
            seq![]
        },
        _ => seq![],
    }
}

/// What a block read returns: the count, or -1 when the chip did not
/// answer or sent more than asked.
pub open spec fn block_count(t: Txn) -> i8 {
    match t {
        Txn::Block(_, _, s, _, b, over) => if s != 0 || over {
            -1i8
        } else {
            b.len() as i8
        },
        _ => -1i8,
    }
}

/// Buffer `buf` with its first bytes replaced by `bytes`.
pub open spec fn block_fill_with(buf: Seq<u8>, bytes: Seq<u8>) -> Seq<u8> {
    Seq::new(buf.len(), |i: int| if i < bytes.len() { bytes[i] } else { buf[i] })
}

/// Buffer `buf` after the block read `t`.
pub open spec fn block_fill(buf: Seq<u8>, t: Txn) -> Seq<u8> {
    block_fill_with(buf, block_bytes(t))
}

/// A step of a configuration sequence.
#[derive(Clone, Copy, Debug, PartialEq, Eq, Structural)]
pub enum Action {
    /// Write a value to a register.
    Write(u8, u8),
    /// Read a register, clear some bits, set others, write it back.
    Update(u8, u8, u8),
    /// Switch an ENABLE bit: an update of ENABLE that also fails when the
    /// register reads 0xFF (the getters' error code).
    Mode(u8, bool),
    /// Send a special command.
    Command(u8),
    /// Read the ID register and check it names an APDS-9960.
    CheckId,
}

/// The ENABLE update of a mode switch.
pub open spec fn mode_masks(bit: u8, on: bool) -> (u8, u8) {
    (1u8 << bit, (if on { 1u8 } else { 0u8 }) << bit)
}

/// How many transactions the run of `a` at the head of `t` takes: a
/// read-modify-write stops after a failed (or, for a mode switch, refused)
/// read.
pub open spec fn act_len(a: Action, t: Seq<Txn>) -> int {
    match a {
        Action::Update(_, _, _) => if read_value(t[0]) is Some {
            2
        } else {
            1
        },
        Action::Mode(_, _) => if read_value(t[0]) is Some && read_value(t[0])->0 != ERROR {
            2
        } else {
            1
        },
        _ => 1,
    }
}

/// `t` is exactly a run of `a`.
pub open spec fn act_shape(a: Action, t: Seq<Txn>) -> bool {
    match a {
        Action::Write(reg, v) => t.len() == 1 && writes(t[0], reg, v),
        Action::Command(reg) => t.len() == 1 && (t[0] matches Txn::Command(r, _) && r == reg),
        Action::CheckId => t.len() == 1 && reads(t[0], APDS9960_ID),
        Action::Update(reg, clear, set) => t.len() >= 1 && reads(t[0], reg) && match read_value(t[0]) {
            Some(v) => t.len() == 2 && writes(t[1], reg, updated(v, clear, set)),
            None => t.len() == 1,
        },
        Action::Mode(bit, on) => t.len() >= 1 && reads(t[0], APDS9960_ENABLE) && match read_value(t[0]) {
            Some(v) => if v != ERROR {
                t.len() == 2 && writes(t[1], APDS9960_ENABLE, updated(v, mode_masks(bit, on).0, mode_masks(bit, on).1))
            } else {
                t.len() == 1
            },
            None => t.len() == 1,
        },
    }
}

/// The run `t` of `a` succeeded.
pub open spec fn act_ok(a: Action, t: Seq<Txn>) -> bool {
    match a {
        Action::Write(_, _) => acked(t[0]),
        Action::Command(_) => acked(t[0]),
        Action::CheckId => match read_value(t[0]) {
            Some(v) => v == APDS9960_ID_1 || v == APDS9960_ID_2 || v == APDS9960_ID_3,
            None => false,
        },
        Action::Update(_, _, _) => t.len() == 2 && acked(t[1]),
        Action::Mode(_, _) => t.len() == 2 && acked(t[1]),
    }
}

/// `t` is what running the steps `acts` in order did: each step's
/// transactions, up to and including the first step that failed; `r` says
/// whether all succeeded.
pub open spec fn performs(acts: Seq<Action>, t: Seq<Txn>, r: bool) -> bool
    decreases acts.len(),
{
    if acts.len() == 0 {
        t.len() == 0 && r
    } else {
        let k = act_len(acts[0], t);
        &&& 0 < k <= t.len()
        &&& act_shape(acts[0], t.take(k))
        &&& if act_ok(acts[0], t.take(k)) {
            performs(acts.drop_first(), t.skip(k), r)
        } else {
            t.len() == k && !r
        }
    }
}

/// A step the driver can take: mode switches name an ENABLE bit.
pub open spec fn valid_action(a: Action) -> bool {
    match a {
        Action::Mode(bit, _) => bit < 8,
        _ => true,
    }
}

/// A register field read by `t`, shifted down; `ERROR` when the read failed.
pub open spec fn field_or_error(t: Txn, mask: u8, pos: u8) -> u8 {
    match read_value(t) {
        Some(v) => (v & mask) >> pos,
        None => ERROR,
    }
}

/// Whether the bits of `mask` of the register read by `t` are not all
/// clear; false when the read failed.
pub open spec fn flag_set(t: Txn, mask: u8, pos: u8) -> bool {
    match read_value(t) {
        Some(v) => ((v & mask) >> pos) != 0,
        None => false,
    }
}

/// `t` reads the 16-bit value in registers `lo` and `hi`: the low byte,
/// then (if that worked) the high byte.
pub open spec fn reads_word(t: Seq<Txn>, lo: u8, hi: u8) -> bool {
    &&& t.len() >= 1
    &&& reads(t[0], lo)
    &&& if read_value(t[0]) is Some {
        t.len() == 2 && reads(t[1], hi)
    } else {
        t.len() == 1
    }
}

/// Both bytes of a word read came.
pub open spec fn word_ok(t: Seq<Txn>) -> bool {
    read_value(t[0]) is Some && t.len() == 2 && read_value(t[1]) is Some
}

/// The value of a successful word read.
pub open spec fn word_value(t: Seq<Txn>) -> u16 {
    ((read_value(t[1])->0 as u16) << 8u16) | (read_value(t[0])->0 as u16)
}

/// The steps of `begin`: check the ID, disable everything, then write the
/// default light, proximity and gesture settings.
pub open spec fn begin_program() -> Seq<Action> {
    seq![
        Action::CheckId,
        Action::Write(APDS9960_ENABLE, 0),
        Action::Write(APDS9960_ATIME, DEFAULT_ATIME),
        Action::Write(APDS9960_WTIME, DEFAULT_WTIME),
        Action::Write(APDS9960_PPULSE, DEFAULT_PROX_PPULSE),
        Action::Write(APDS9960_POFFSET_UR, DEFAULT_POFFSET_UR),
        Action::Write(APDS9960_POFFSET_DL, DEFAULT_POFFSET_DL),
        Action::Write(APDS9960_CONFIG1, DEFAULT_CONFIG1),
        Action::Update(APDS9960_CONTROL, LED_DRIVE_MSK, 0x00),
        Action::Update(APDS9960_CONTROL, PRX_GAIN_MSK, 0x08),
        Action::Update(APDS9960_CONTROL, ALS_GAIN_MSK, 0x01),
        Action::Write(APDS9960_PILT, DEFAULT_PILT),
        Action::Write(APDS9960_PIHT, DEFAULT_PIHT),
        Action::Write(APDS9960_AILTL, 0xFF),
        Action::Write(APDS9960_AILTH, 0xFF),
        Action::Write(APDS9960_AIHTL, 0x00),
        Action::Write(APDS9960_AIHTH, 0x00),
        Action::Write(APDS9960_PERS, DEFAULT_PERS),
        Action::Write(APDS9960_CONFIG2, DEFAULT_CONFIG2),
        Action::Write(APDS9960_CONFIG3, DEFAULT_CONFIG3),
        Action::Write(APDS9960_GPENTH, DEFAULT_GPENTH),
        Action::Write(APDS9960_GEXTH, DEFAULT_GEXTH),
        Action::Write(APDS9960_GCONF1, DEFAULT_GCONF1),
        Action::Update(APDS9960_GCONF2, GES_GAIN_MSK, 0x20),
        Action::Update(APDS9960_GCONF2, GES_LDRIVE_MSK, 0x00),
        Action::Update(APDS9960_GCONF2, GES_WTIME_MSK, 0x01),
        Action::Write(APDS9960_GOFFSET_U, DEFAULT_GOFFSET),
        Action::Write(APDS9960_GOFFSET_D, DEFAULT_GOFFSET),
        Action::Write(APDS9960_GOFFSET_L, DEFAULT_GOFFSET),
        Action::Write(APDS9960_GOFFSET_R, DEFAULT_GOFFSET),
        Action::Write(APDS9960_GPULSE, DEFAULT_GPULSE),
        Action::Write(APDS9960_GCONF3, DEFAULT_GCONF3),
        Action::Update(APDS9960_GCONF4, GES_GIEN_MSK, 0x00),
    ]
}

/// Set a two-bit field at `pos` of `reg` to `v & 3`.
pub open spec fn set_field2(reg: u8, mask: u8, pos: u8, v: u8) -> Action {
    Action::Update(reg, mask, (v & 0x03) << pos)
}

/// Set one interrupt-enable bit at `pos` of `reg` from `s`.
pub open spec fn set_flag(reg: u8, mask: u8, pos: u8, s: State) -> Action {
    Action::Update(reg, mask, (s.spec_value() & 0x01) << pos)
}

/// The steps of `enable_ambient_light_sensor`.
pub open spec fn als_on_program(interrupt: State) -> Seq<Action> {
    seq![
        set_field2(APDS9960_CONTROL, ALS_GAIN_MSK, ALS_GAIN_POS, DEFAULT_AGAIN),
        set_flag(APDS9960_ENABLE, AIEN_EN_MSK, AIEN_EN_POS, interrupt),
        Action::Mode(0, true),
        Action::Mode(1, true),
    ]
}

/// The steps of `enable_proximity_sensor`.
pub open spec fn prox_on_program(interrupt: State) -> Seq<Action> {
    seq![
        set_field2(APDS9960_CONTROL, PRX_GAIN_MSK, PRX_GAIN_POS, DEFAULT_PGAIN),
        set_field2(APDS9960_CONTROL, LED_DRIVE_MSK, LED_DRIVE_POS, DEFAULT_LDRIVE),
        set_flag(APDS9960_ENABLE, PIEN_EN_MSK, PIEN_EN_POS, interrupt),
        Action::Mode(0, true),
        Action::Mode(2, true),
    ]
}

/// The steps of `enable_gesture_sensor`.
pub open spec fn gesture_on_program(interrupt: State) -> Seq<Action> {
    seq![
        Action::Write(APDS9960_ENABLE, 0x00),
        Action::Write(APDS9960_WTIME, 0xFF),
        Action::Write(APDS9960_PPULSE, DEFAULT_GESTURE_PPULSE),
        Action::Update(APDS9960_CONFIG2, CFG2_LED_BOOST_MSK, 0x30),
        set_flag(APDS9960_GCONF4, GES_GIEN_MSK, GES_GIEN_POS, interrupt),
        Action::Update(APDS9960_GCONF4, GES_GMODE_MSK, 0x01),
        Action::Mode(0, true),
        Action::Mode(3, true),
        Action::Mode(2, true),
        Action::Mode(6, true),
    ]
}

/// The steps of `disable_gesture_sensor`.
pub open spec fn gesture_off_program() -> Seq<Action> {
    seq![
        Action::Update(APDS9960_GCONF4, GES_GIEN_MSK, 0x00),
        Action::Update(APDS9960_GCONF4, GES_GMODE_MSK, 0x00),
        Action::Mode(6, false),
    ]
}

proof fn lemma_performs_one(a: Action, t: Seq<Txn>, r: bool)
    requires
        t.len() > 0,
        act_len(a, t) == t.len(),
        act_shape(a, t),
        r == act_ok(a, t),
    ensures
        performs(seq![a], t, r),
{
    assert(seq![a].drop_first() =~= Seq::<Action>::empty());
    assert(seq![a][0] == a);
    assert(t.take(t.len() as int) =~= t);
    assert(t.skip(t.len() as int) =~= Seq::<Txn>::empty());
    assert(performs(Seq::<Action>::empty(), t.skip(t.len() as int), r) == r);
}

proof fn lemma_performs_step(p: Seq<Action>, i: int, t: Seq<Txn>, t2: Seq<Txn>, r2: bool)
    requires
        0 <= i < p.len(),
        performs(p.take(i), t, true),
        performs(seq![p[i]], t2, r2),
    ensures
        r2 ==> performs(p.take(i + 1), t + t2, true),
        !r2 ==> performs(p, t + t2, false),
    decreases i,
{
    let a = p[i];
    if i == 0 {
        assert(p.take(0).len() == 0);
        assert(t.len() == 0);
        assert(t + t2 =~= t2);
        let k = act_len(a, t2);
        assert(seq![a].drop_first() =~= Seq::<Action>::empty());
        assert(seq![a][0] == a);
        if r2 {
            assert(p.take(1) =~= seq![a]);
        } else {
            assert(p[0] == a);
            if act_ok(a, t2.take(k)) {
                assert(performs(Seq::<Action>::empty(), t2.skip(k), false));
                assert(false);
            }
            assert(t2.len() == k);
        }
    } else {
        let p1 = p.drop_first();
        let k = act_len(p[0], t);
        assert(p.take(i)[0] == p[0]);
        assert(p.take(i).drop_first() =~= p1.take(i - 1));
        assert(act_ok(p[0], t.take(k)));
        lemma_performs_step(p1, i - 1, t.skip(k), t2, r2);
        assert(p1[i - 1] == a);
        assert((t + t2)[0] == t[0]);
        assert(act_len(p[0], t + t2) == k);
        assert((t + t2).take(k) =~= t.take(k));
        assert((t + t2).skip(k) =~= t.skip(k) + t2);
        if r2 {
            assert(p.take(i + 1)[0] == p[0]);
            assert(p.take(i + 1).drop_first() =~= p1.take(i));
        }
    }
}

/// What the gesture engine holds: the samples (up, down, left, right),
/// their count, and its counters.
pub struct GestureView {
    pub u: Seq<u8>,
    pub d: Seq<u8>,
    pub l: Seq<u8>,
    pub r: Seq<u8>,
    pub index: u8,
    pub total: u8,
    pub ud_delta: i32,
    pub lr_delta: i32,
    pub ud_count: i32,
    pub lr_count: i32,
    pub near_count: i32,
    pub far_count: i32,
    pub state: i32,
    pub motion: i32,
}

/// The gesture engine cleared: no samples, no counts, no motion; the
/// sample buffers stay.
pub open spec fn reset_gesture(g: GestureView) -> GestureView {
    GestureView {
        index: 0,
        total: 0,
        ud_delta: 0,
        lr_delta: 0,
        ud_count: 0,
        lr_count: 0,
        near_count: 0,
        far_count: 0,
        state: 0,
        motion: Direction::DIR_NONE.spec_code(),
        ..g
    }
}

/// Sample `i` is strong on all four photodiodes.
pub open spec fn above(v: GestureView, i: int) -> bool {
    v.u[i] > GESTURE_THRESHOLD_OUT && v.d[i] > GESTURE_THRESHOLD_OUT && v.l[i] > GESTURE_THRESHOLD_OUT && v.r[i]
        > GESTURE_THRESHOLD_OUT
}

/// The first strong sample at or after `i` and before `n`; -1 if none.
pub open spec fn first_above(v: GestureView, i: int, n: int) -> int
    decreases n - i,
{
    if i >= n {
        -1
    } else if above(v, i) {
        i
    } else {
        first_above(v, i + 1, n)
    }
}

/// The last strong sample before `n`; -1 if none.
pub open spec fn last_above(v: GestureView, n: int) -> int
    decreases n,
{
    if n <= 0 {
        -1
    } else if above(v, n - 1) {
        n - 1
    } else {
        last_above(v, n - 1)
    }
}

/// The balance of two photodiodes, in percent of their sum, rounded toward zero.
pub open spec fn ratio(a: int, b: int) -> int {
    tdiv((a - b) * 100, a + b)
}

/// A signed count from an accumulated delta: +1, -1 or 0 around the
/// first sensitivity.
pub open spec fn swipe_count(acc: int) -> int {
    if acc >= GESTURE_SENSITIVITY_1 {
        1
    } else if acc <= -GESTURE_SENSITIVITY_1 {
        -1
    } else {
        0
    }
}

/// What processing the collected samples does to the engine: compare the
/// first and last strong samples, accumulate the up/down and left/right
/// changes, count swipes, and near/far events; `true` when a near or far
/// gesture was recognised.
pub open spec fn process_spec(v: GestureView) -> (GestureView, bool) {
    let n = v.total as int;
    if n <= 4 {
        (v, false)
    } else {
        let f = first_above(v, 0, n);
        if f < 0 {
            (v, false)
        } else {
            let la = last_above(v, n);
            let ud_d = ratio(v.u[la] as int, v.d[la] as int) - ratio(v.u[f] as int, v.d[f] as int);
            let lr_d = ratio(v.l[la] as int, v.r[la] as int) - ratio(v.l[f] as int, v.r[f] as int);
            let uda = v.ud_delta + ud_d;
            let lra = v.lr_delta + lr_d;
            let udc = swipe_count(uda);
            let lrc = swipe_count(lra);
            let small = iabs(ud_d) < GESTURE_SENSITIVITY_2 && iabs(lr_d) < GESTURE_SENSITIVITY_2;
            let still = ud_d == 0 && lr_d == 0;
            if udc == 0 && lrc == 0 {
                if small {
                    let near = if still { v.near_count + 1 } else { v.near_count as int };
                    let far = if still { v.far_count as int } else { v.far_count + 1 };
                    let v1 = GestureView {
                        ud_delta: uda as i32,
                        lr_delta: lra as i32,
                        ud_count: 0,
                        lr_count: 0,
                        near_count: near as i32,
                        far_count: far as i32,
                        ..v
                    };
                    if near >= 10 && far >= 2 {
                        let st = if still {
                            GestureState::NEAR_STATE.spec_code()
                        } else if ud_d != 0 && lr_d != 0 {
                            GestureState::FAR_STATE.spec_code()
                        } else {
                            v.state
                        };
                        (GestureView { state: st, ..v1 }, true)
                    } else {
                        (v1, false)
                    }
                } else {
                    (GestureView { ud_delta: uda as i32, lr_delta: lra as i32, ud_count: 0, lr_count: 0, ..v }, false)
                }
            } else {
                let near = if small && still { v.near_count + 1 } else { v.near_count as int };
                if small && near >= 10 {
                    (
                        GestureView {
                            ud_delta: 0,
                            lr_delta: 0,
                            ud_count: 0,
                            lr_count: 0,
                            near_count: near as i32,
                            ..v
                        },
                        false,
                    )
                } else {
                    (
                        GestureView {
                            ud_delta: uda as i32,
                            lr_delta: lra as i32,
                            ud_count: udc as i32,
                            lr_count: lrc as i32,
                            near_count: near as i32,
                            ..v
                        },
                        false,
                    )
                }
            }
        }
    }
}

/// The direction the engine's counts name: near or far first, then the
/// swipes; on a diagonal the larger accumulated delta wins. `None` when the
/// counts name no direction.
pub open spec fn decode_direction(v: GestureView) -> Option<Direction> {
    let udc = v.ud_count;
    let lrc = v.lr_count;
    let ud_wins = iabs(v.ud_delta as int) > iabs(v.lr_delta as int);
    if v.state == GestureState::NEAR_STATE.spec_code() {
        Some(Direction::DIR_NEAR)
    } else if v.state == GestureState::FAR_STATE.spec_code() {
        Some(Direction::DIR_FAR)
    } else if udc == -1 && lrc == 0 {
        Some(Direction::DIR_UP)
    } else if udc == 1 && lrc == 0 {
        Some(Direction::DIR_DOWN)
    } else if udc == 0 && lrc == 1 {
        Some(Direction::DIR_RIGHT)
    } else if udc == 0 && lrc == -1 {
        Some(Direction::DIR_LEFT)
    } else if udc == -1 && lrc == 1 {
        Some(if ud_wins { Direction::DIR_UP } else { Direction::DIR_RIGHT })
    } else if udc == 1 && lrc == -1 {
        Some(if ud_wins { Direction::DIR_DOWN } else { Direction::DIR_LEFT })
    } else if udc == -1 && lrc == -1 {
        Some(if ud_wins { Direction::DIR_UP } else { Direction::DIR_LEFT })
    } else if udc == 1 && lrc == 1 {
        Some(if ud_wins { Direction::DIR_DOWN } else { Direction::DIR_RIGHT })
    } else {
        None
    }
}

/// The direction opposite `d`: up and down, left and right exchanged.
pub open spec fn opposite(d: Direction) -> Direction {
    match d {
        Direction::DIR_UP => Direction::DIR_DOWN,
        Direction::DIR_DOWN => Direction::DIR_UP,
        Direction::DIR_LEFT => Direction::DIR_RIGHT,
        Direction::DIR_RIGHT => Direction::DIR_LEFT,
        other => other,
    }
}

/// A swipe is decoded the way its counts point: up only on an up/down
/// count of -1 and down only on +1, left only on a left/right count of -1
/// and right only on +1; a single nonzero count always names its
/// direction; and, away from the near and far states, negating both
/// counts names the opposite direction.
pub proof fn lemma_decode_follows_counts(v: GestureView)
    ensures
        decode_direction(v) == Some(Direction::DIR_UP) ==> v.ud_count == -1,
        decode_direction(v) == Some(Direction::DIR_DOWN) ==> v.ud_count == 1,
        decode_direction(v) == Some(Direction::DIR_LEFT) ==> v.lr_count == -1,
        decode_direction(v) == Some(Direction::DIR_RIGHT) ==> v.lr_count == 1,
        v.state != GestureState::NEAR_STATE.spec_code() && v.state != GestureState::FAR_STATE.spec_code() ==> {
            &&& (v.ud_count == -1 && v.lr_count == 0 ==> decode_direction(v) == Some(Direction::DIR_UP))
            &&& (v.ud_count == 1 && v.lr_count == 0 ==> decode_direction(v) == Some(Direction::DIR_DOWN))
            &&& (v.ud_count == 0 && v.lr_count == -1 ==> decode_direction(v) == Some(Direction::DIR_LEFT))
            &&& (v.ud_count == 0 && v.lr_count == 1 ==> decode_direction(v) == Some(Direction::DIR_RIGHT))
            &&& (v.ud_count > i32::MIN && v.lr_count > i32::MIN ==> {
                let w = GestureView { ud_count: (-v.ud_count) as i32, lr_count: (-v.lr_count) as i32, ..v };
                match decode_direction(v) {
                    Some(d) => decode_direction(w) == Some(opposite(d)),
                    None => decode_direction(w) is None,
                }
            })
        },
{
}

/// Decoding: the motion becomes the direction named, if any.
pub open spec fn decode_spec(v: GestureView) -> (GestureView, bool) {
    match decode_direction(v) {
        Some(dir) => (GestureView { motion: dir.spec_code(), ..v }, true),
        None => (v, false),
    }
}

/// The engine's accumulators leave room for one more batch below the
/// 32-bit limits: a swipe moves a delta by at most 200, a count by 1.
pub open spec fn gesture_bounded(v: GestureView) -> bool {
    &&& -(i32::MAX - 200) <= v.ud_delta <= i32::MAX - 200
    &&& -(i32::MAX - 200) <= v.lr_delta <= i32::MAX - 200
    &&& 0 <= v.near_count <= i32::MAX - 1
    &&& 0 <= v.far_count <= i32::MAX - 1
    &&& v.u.len() == 32 && v.d.len() == 32 && v.l.len() == 32 && v.r.len() == 32
}

proof fn lemma_ratio_bounds(a: int, b: int)
    requires
        10 < a <= 255,
        10 < b <= 255,
    ensures
        -100 <= ratio(a, b) <= 100,
{
    let x = (a - b) * 100;
    let y = a + b;
    assert(-100 * y <= x <= 100 * y) by (nonlinear_arith)
        requires x == (a - b) * 100, y == a + b, 10 < a, 10 < b;
    if x >= 0 {
        assert(x / y <= 100) by (nonlinear_arith)
            requires 0 <= x <= 100 * y, y > 0;
    } else {
        assert((-x) / y <= 100) by (nonlinear_arith)
            requires 0 <= -x <= 100 * y, y > 0;
    }
}

/// The samples of a FIFO batch of `c` bytes laid out as up, down, left,
/// right quadruples, stored from the start of the sample buffers.
pub open spec fn sorted(v: GestureView, fifo: Seq<u8>, c: int) -> GestureView {
    let m = (c + 3) / 4;
    GestureView {
        u: Seq::new(32, |k: int| if k < m { fifo[4 * k] } else { v.u[k] }),
        d: Seq::new(32, |k: int| if k < m { fifo[4 * k + 1] } else { v.d[k] }),
        l: Seq::new(32, |k: int| if k < m { fifo[4 * k + 2] } else { v.l[k] }),
        r: Seq::new(32, |k: int| if k < m { fifo[4 * k + 3] } else { v.r[k] }),
        index: m as u8,
        total: m as u8,
        ..v
    }
}

/// A FIFO batch of `c` bytes through the engine: stored, processed,
/// decoded when a near/far gesture was recognised, then the samples
/// dropped.
pub open spec fn batch(v: GestureView, fifo: Seq<u8>, c: int) -> GestureView {
    let v1 = sorted(v, fifo, c);
    let (v2, hit) = process_spec(v1);
    let v3 = if hit {
        decode_spec(v2).0
    } else {
        v2
    };
    GestureView { index: 0, total: 0, ..v3 }
}

/// The state of the gesture reading loop: the engine, the FIFO buffer and
/// the passes made.
pub struct GLoop {
    pub view: GestureView,
    pub fifo: Seq<u8>,
    pub cnt: int,
}

/// How a pass of the reading loop ends: on to the next pass, or done with
/// a result, the engine's state, and whether a last pause was made.
pub enum PassOut {
    Continue(GLoop),
    Done(i32, GestureView, bool),
}

/// How many transactions a pass from `s` takes, judging by the first ones
/// of `t`: the status read, then (while data is valid) the FIFO level read
/// and, for a level from 1 to 63, the FIFO read.
pub open spec fn pass_len(s: GLoop, t: Seq<Txn>) -> int {
    match read_value(t[0]) {
        Some(st) => if (st & GSTS_GVALID_MSK) == GSTS_GVALID_MSK && s.cnt + 1 <= 10 {
            match read_value(t[1]) {
                Some(level) => if level == 0 || level >= 64 {
                    2
                } else {
                    3
                },
                None => 2,
            }
        } else {
            1
        },
        None => 1,
    }
}

/// `t` is exactly the transactions of a pass from `s`.
pub open spec fn pass_shape(s: GLoop, t: Seq<Txn>) -> bool {
    &&& t.len() == pass_len(s, t)
    &&& reads(t[0], APDS9960_GSTATUS)
    &&& t.len() >= 2 ==> reads(t[1], APDS9960_GFLVL)
    &&& t.len() == 3 ==> (t[2] matches Txn::Block(reg, n, _, _, _, _) && reg == APDS9960_GFIFO_U && n == read_value(
        t[1],
    )->0 * 4)
}

/// One pass of the reading loop from `s` with the transactions `t`.
/// Unreadable registers, a FIFO level over 63 (whose byte count does not
/// fit in a byte) and a refused FIFO read end it with `ERROR`; while data is
/// valid (and for at most 10 passes) batches of at least one quadruple go
/// through the engine; once data is no longer valid the loop ends with a
/// timeout after 10 passes, else with the decoded motion, the engine cleared.
pub open spec fn pass(s: GLoop, t: Seq<Txn>) -> PassOut {
    match read_value(t[0]) {
        None => PassOut::Done(ERROR as i32, s.view, false),
        Some(st) => if (st & GSTS_GVALID_MSK) == GSTS_GVALID_MSK && s.cnt + 1 <= 10 {
            match read_value(t[1]) {
                None => PassOut::Done(ERROR as i32, s.view, false),
                Some(level) => if level == 0 {
                    PassOut::Continue(GLoop { cnt: s.cnt + 1, ..s })
                } else if level >= 64 {
                    PassOut::Done(ERROR as i32, s.view, false)
                } else {
                    let c = block_count(t[2]);
                    if c == -1 {
                        PassOut::Done(ERROR as i32, s.view, false)
                    } else {
                        let fifo2 = block_fill(s.fifo, t[2]);
                        PassOut::Continue(
                            GLoop {
                                view: if c >= 4 {
                                    batch(s.view, fifo2, c as int)
                                } else {
                                    s.view
                                },
                                fifo: fifo2,
                                cnt: s.cnt + 1,
                            },
                        )
                    }
                }
            }
        } else if s.cnt + 1 >= 10 {
            PassOut::Done(Direction::TIMEOUT.spec_code(), s.view, false)
        } else {
            let v2 = decode_spec(s.view).0;
            PassOut::Done(v2.motion, reset_gesture(v2), true)
        }
    }
}

/// `n` passes from `s0` with the transactions `t` lead on to `s1`.
pub open spec fn runs_to(s0: GLoop, t: Seq<Txn>, s1: GLoop, n: nat) -> bool
    decreases n,
{
    if n == 0 {
        t.len() == 0 && s1 == s0
    } else {
        let k = pass_len(s0, t);
        &&& 0 < k <= t.len()
        &&& pass_shape(s0, t.take(k))
        &&& pass(s0, t.take(k)) is Continue
        &&& runs_to(pass(s0, t.take(k))->Continue_0, t.skip(k), s1, (n - 1) as nat)
    }
}

/// The last pass from `s`, with the transactions `t`, ends the loop with
/// result `r`, engine state `v`, and a last pause or not.
pub open spec fn finishes(s: GLoop, t: Seq<Txn>, r: i32, v: GestureView, extra: bool) -> bool {
    &&& t.len() > 0
    &&& pass_shape(s, t)
    &&& pass(s, t) == PassOut::Done(r, v, extra)
}

/// The start of the reading loop.
pub open spec fn gloop0(v: GestureView) -> GLoop {
    GLoop { view: v, fifo: Seq::new(128, |i: int| 0u8), cnt: 0 }
}

/// `n` pauses of the FIFO pause time.
pub open spec fn pauses(n: nat) -> Seq<u16> {
    Seq::new(n, |i: int| FIFO_PAUSE_TIME)
}

/// What reading a gesture did: the transactions `t`, the pauses `w`, the
/// result `r` and the engine's state `v1` afterwards, from engine state
/// `v0`. Unless the chip holds a valid gesture with power and gesture
/// sensing on (an unreadable ENABLE counting as on), nothing more happens
/// and the result is `DIR_NONE`; otherwise the reading loop runs.
pub open spec fn gesture_read(v0: GestureView, t: Seq<Txn>, w: Seq<u16>, r: i32, v1: GestureView) -> bool {
    &&& t.len() >= 1
    &&& reads(t[0], APDS9960_GSTATUS)
    &&& if !flag_set(t[0], GSTS_GVALID_MSK, GSTS_GVALID_POS) {
        t.len() == 1 && r == Direction::DIR_NONE.spec_code() && v1 == v0 && w.len() == 0
    } else {
        &&& t.len() >= 2
        &&& reads(t[1], APDS9960_ENABLE)
        &&& if (field_or_error(t[1], 0xFF, 0) & (GEN_EN_MSK | PON_EN_MSK)) == 0 {
            t.len() == 2 && r == Direction::DIR_NONE.spec_code() && v1 == v0 && w.len() == 0
        } else {
            exists|k: int, s1: GLoop, n: nat, extra: bool|
                #![trigger runs_to(gloop0(v0), t.subrange(2, k), s1, n), finishes(s1, t.skip(k), r, v1, extra)]
                2 <= k < t.len() && runs_to(gloop0(v0), t.subrange(2, k), s1, n) && finishes(s1, t.skip(k), r, v1, extra)
                    && w == pauses(n + 1 + if extra { 1nat } else { 0nat })
        }
    }
}

/// The engine's accumulators leave room for a whole gesture read (ten
/// batches) below the 32-bit limits, its sample buffers are whole and no
/// samples are held.
pub open spec fn gesture_calm(v: GestureView) -> bool {
    &&& -(i32::MAX - 2200) <= v.ud_delta <= i32::MAX - 2200
    &&& -(i32::MAX - 2200) <= v.lr_delta <= i32::MAX - 2200
    &&& 0 <= v.near_count <= i32::MAX - 11
    &&& 0 <= v.far_count <= i32::MAX - 11
    &&& v.u.len() == 32 && v.d.len() == 32 && v.l.len() == 32 && v.r.len() == 32
    &&& v.index == 0 && v.total == 0
}

proof fn lemma_runs_to_extend(s0: GLoop, t1: Seq<Txn>, s1: GLoop, n: nat, t2: Seq<Txn>, s2: GLoop)
    requires
        runs_to(s0, t1, s1, n),
        t2.len() > 0,
        pass_shape(s1, t2),
        pass(s1, t2) == PassOut::Continue(s2),
    ensures
        runs_to(s0, t1 + t2, s2, n + 1),
    decreases n,
{
    if n == 0 {
        assert(t1 + t2 =~= t2);
        assert(t2.take(t2.len() as int) =~= t2);
        assert(t2.skip(t2.len() as int) =~= Seq::<Txn>::empty());
        assert(runs_to(s2, Seq::<Txn>::empty(), s2, 0));
    } else {
        let k = pass_len(s0, t1);
        let s_mid = pass(s0, t1.take(k))->Continue_0;
        lemma_runs_to_extend(s_mid, t1.skip(k), s1, (n - 1) as nat, t2, s2);
        assert((t1 + t2)[0] == t1[0]);
        assert(k >= 2 ==> (t1 + t2)[1] == t1[1]);
        assert(pass_len(s0, t1 + t2) == k);
        assert((t1 + t2).take(k) =~= t1.take(k));
        assert((t1 + t2).skip(k) =~= t1.skip(k) + t2);
    }
}

/// The engine `v` within what `n` batches can add to the engine `v0`:
/// each delta at most 200 per batch further from 0, each count at most 1
/// per batch higher, the sample buffers whole and no samples held.
pub open spec fn loop_bounded(v0: GestureView, v: GestureView, n: nat) -> bool {
    &&& iabs(v.ud_delta as int) <= iabs(v0.ud_delta as int) + 200 * n
    &&& iabs(v.lr_delta as int) <= iabs(v0.lr_delta as int) + 200 * n
    &&& 0 <= v.near_count <= v0.near_count + n
    &&& 0 <= v.far_count <= v0.far_count + n
    &&& v.u.len() == 32 && v.d.len() == 32 && v.l.len() == 32 && v.r.len() == 32
    &&& v.index == 0 && v.total == 0
}

/// The engine has room for `k` more gesture reads after the next one:
/// calm, with `k` reads' worth of growth to spare.
pub open spec fn gesture_room(v: GestureView, k: nat) -> bool {
    &&& iabs(v.ud_delta as int) <= i32::MAX - 2200 - 2000 * k
    &&& iabs(v.lr_delta as int) <= i32::MAX - 2200 - 2000 * k
    &&& 0 <= v.near_count <= i32::MAX - 11 - 10 * k
    &&& 0 <= v.far_count <= i32::MAX - 11 - 10 * k
    &&& v.u.len() == 32 && v.d.len() == 32 && v.l.len() == 32 && v.r.len() == 32
    &&& v.index == 0 && v.total == 0
}

/// A gesture read (at most ten batches) uses up one read of room: an
/// engine with room for `k + 1` reads is left with room for `k`, and room
/// for none is exactly what a read asks for.
pub proof fn lemma_read_uses_room(v0: GestureView, v1: GestureView, k: nat)
    requires
        gesture_room(v0, k + 1),
        loop_bounded(v0, v1, 10),
    ensures
        gesture_room(v1, k),
        gesture_room(v1, 0) == gesture_calm(v1),
        gesture_calm(v0),
{
}

/// The name of a gesture code.
pub open spec fn gesture_name(code: i32) -> Seq<char> {
    if code == Direction::DIR_UP.spec_code() {
        "UP"@
    } else if code == Direction::DIR_DOWN.spec_code() {
        "DOWN"@
    } else if code == Direction::DIR_LEFT.spec_code() {
        "LEFT"@
    } else if code == Direction::DIR_RIGHT.spec_code() {
        "RIGHT"@
    } else if code == Direction::DIR_NEAR.spec_code() {
        "NEAR"@
    } else if code == Direction::DIR_FAR.spec_code() {
        "FAR"@
    } else if code == Direction::TIMEOUT.spec_code() {
        "TIMEOUT"@
    } else {
        "NONE"@
    }
}

/// Running the steps `acts` did `t`, whether all succeeded or not.
pub open spec fn ran(acts: Seq<Action>, t: Seq<Txn>) -> bool {
    performs(acts, t, true) || performs(acts, t, false)
}

/// How many transactions a word read at the head of `t` took.
pub open spec fn word_len(t: Seq<Txn>) -> int {
    if read_value(t[0]) is Some {
        2
    } else {
        1
    }
}

/// `t` is the reading of the red, then green, then blue channel, each
/// only after the previous one succeeded, with result `c` (0 for a channel
/// not read or not readable).
pub open spec fn rgb_reads(t: Seq<Txn>, c: RgbColor) -> bool {
    let n1 = word_len(t);
    let t1 = t.take(n1);
    let t2 = t.skip(n1);
    &&& t.len() >= n1
    &&& reads_word(t1, APDS9960_RDATAL, APDS9960_RDATAH)
    &&& if !word_ok(t1) {
        t2.len() == 0 && c.red == 0 && c.green == 0 && c.blue == 0
    } else {
        let n2 = word_len(t2);
        let u1 = t2.take(n2);
        let u2 = t2.skip(n2);
        &&& c.red == word_value(t1)
        &&& t2.len() >= n2
        &&& reads_word(u1, APDS9960_GDATAL, APDS9960_GDATAH)
        &&& if !word_ok(u1) {
            u2.len() == 0 && c.green == 0 && c.blue == 0
        } else {
            &&& c.green == word_value(u1)
            &&& reads_word(u2, APDS9960_BDATAL, APDS9960_BDATAH)
            &&& c.blue == (if word_ok(u2) { word_value(u2) } else { 0 })
        }
    }
}

/// The state of an APDS-9960 driver.
pub struct LightProximityAndGesture<I2C: I2CBus, D: DelayMs> {
    _i2c_slave_address: u8,
    _is_connected: bool,
    _gesture_data: GestureDataType,
    _gesture_ud_delta: i32,
    _gesture_lr_delta: i32,
    _gesture_ud_count: i32,
    _gesture_lr_count: i32,
    _gesture_near_count: i32,
    _gesture_far_count: i32,
    _gesture_state: i32,
    _gesture_motion: i32,
    i2c: I2C,
    delay: D,
    base: Ghost<Seq<I2cOp>>,
    log: Ghost<Seq<Txn>>,
}

impl<I2C: I2CBus, D: DelayMs> LightProximityAndGesture<I2C, D> {
    /// The transactions with the chip so far.
    pub closed spec fn txns(&self) -> Seq<Txn> {
        self.log@
    }

    /// The delays asked for so far.
    pub closed spec fn waits(&self) -> Seq<u16> {
        self.delay.waits()
    }

    /// What was done on the bus.
    pub closed spec fn bus_ops(&self) -> Seq<I2cOp> {
        self.i2c.ops()
    }

    /// What was on the bus before the driver took it.
    pub closed spec fn bus_before(&self) -> Seq<I2cOp> {
        self.base@
    }

    /// Whether the last `ping` found the chip.
    pub closed spec fn connected(&self) -> bool {
        self._is_connected
    }

    /// The gesture engine's state.
    pub closed spec fn gesture(&self) -> GestureView {
        GestureView {
            u: self._gesture_data.u_data@,
            d: self._gesture_data.d_data@,
            l: self._gesture_data.l_data@,
            r: self._gesture_data.r_data@,
            index: self._gesture_data.index,
            total: self._gesture_data.total_gestures,
            ud_delta: self._gesture_ud_delta,
            lr_delta: self._gesture_lr_delta,
            ud_count: self._gesture_ud_count,
            lr_count: self._gesture_lr_count,
            near_count: self._gesture_near_count,
            far_count: self._gesture_far_count,
            state: self._gesture_state,
            motion: self._gesture_motion,
        }
    }

    /// The bus holds exactly what was there before plus the transactions,
    /// all with the chip's address.
    pub closed spec fn wf(&self) -> bool {
        &&& self._i2c_slave_address == APDS9960_I2C_ADDRESS
        &&& self.i2c.ops() == self.base@ + txns_ops(APDS9960_I2C_ADDRESS, self.log@)
    }

    /// The transactions since state `o`.
    pub open spec fn since(&self, o: &Self) -> Seq<Txn> {
        self.txns().skip(o.txns().len() as int)
    }

    /// This state follows `o`: its transactions continue `o`'s, and the
    /// bus history before the driver is the same.
    pub open spec fn after(&self, o: &Self) -> bool {
        &&& self.wf()
        &&& o.txns().len() <= self.txns().len()
        &&& self.txns().take(o.txns().len() as int) == o.txns()
        &&& self.bus_before() == o.bus_before()
    }

    /// Only transactions happened: no delay, the connection flag and the
    /// gesture engine unchanged.
    pub open spec fn only_io(&self, o: &Self) -> bool {
        &&& self.after(o)
        &&& self.waits() == o.waits()
        &&& self.connected() == o.connected()
        &&& self.gesture() == o.gesture()
    }

    /// A driver for the chip on `i2c`, not yet connected, with the gesture
    /// engine cleared.
    pub fn new(i2c: I2C, delay: D) -> (r: Self)
        ensures
            r.wf(),
            r.txns() == Seq::<Txn>::empty(),
            r.bus_before() == i2c.ops(),
            r.waits() == delay.waits(),
            !r.connected(),
            r.gesture().u == Seq::new(32, |i: int| 0u8),
            r.gesture().d == Seq::new(32, |i: int| 0u8),
            r.gesture().l == Seq::new(32, |i: int| 0u8),
            r.gesture().r == Seq::new(32, |i: int| 0u8),
            r.gesture().index == 0,
            r.gesture().total == 0,
            r.gesture().ud_delta == 0,
            r.gesture().lr_delta == 0,
            r.gesture().ud_count == 0,
            r.gesture().lr_count == 0,
            r.gesture().near_count == 0,
            r.gesture().far_count == 0,
            r.gesture().state == 0,
            r.gesture().motion == Direction::DIR_NONE.spec_code(),
    {
        let ghost b = i2c.ops();
        let r = LightProximityAndGesture {
            _i2c_slave_address: APDS9960_I2C_ADDRESS,
            _is_connected: false,
            _gesture_data: GestureDataType::new(),
            _gesture_ud_delta: 0,
            _gesture_lr_delta: 0,
            _gesture_ud_count: 0,
            _gesture_lr_count: 0,
            _gesture_near_count: 0,
            _gesture_far_count: 0,
            _gesture_state: 0,
            _gesture_motion: Direction::DIR_NONE.code(),
            i2c,
            delay,
            base: Ghost(b),
            log: Ghost(Seq::empty()),
        };
        assert(r.i2c.ops() =~= r.base@ + txns_ops(APDS9960_I2C_ADDRESS, r.log@));
        r
    }

    /// Read one register: `result` gets the byte when exactly one came.
    fn read_byte_reg(&mut self, reg: u8, result: &mut u8) -> (r: bool)
        requires
            old(self).wf(),
        ensures
            final(self).only_io(old(self)),
            final(self).since(old(self)).len() == 1,
            reads(final(self).since(old(self))[0], reg),
            r == read_value(final(self).since(old(self))[0]) is Some,
            *final(result) == (if r { read_value(final(self).since(old(self))[0])->0 } else { *old(result) }),
    {
        let addr = self._i2c_slave_address;
        let ghost o0 = self.i2c.ops();
        self.i2c.begin_transmission(addr);
        self.i2c.write_byte(reg);
        let s = self.i2c.end_transmission();
        if s != 0 {
            assert(self.i2c.ops() =~= o0 + txn_ops(APDS9960_I2C_ADDRESS, Txn::Read(reg, s, 0, None)));
            self.log_txn(Ghost(o0), Ghost(Txn::Read(reg, s, 0, None)));
            return false;
        }
        let q = self.i2c.request_from(addr, 1);
        if self.i2c.available() != 1 {
            assert(self.i2c.ops() =~= o0 + txn_ops(APDS9960_I2C_ADDRESS, Txn::Read(reg, 0, q, None)));
            self.log_txn(Ghost(o0), Ghost(Txn::Read(reg, 0, q, None)));
            return false;
        }
        let v = self.i2c.read_byte();
        assert(self.i2c.ops() =~= o0 + txn_ops(APDS9960_I2C_ADDRESS, Txn::Read(reg, 0, q, Some(v))));
        self.log_txn(Ghost(o0), Ghost(Txn::Read(reg, 0, q, Some(v))));
        *result = v;
        true
    }

    /// Every field but the bus is as in `o`.
    closed spec fn frozen(&self, o: &Self) -> bool {
        &&& self._i2c_slave_address == o._i2c_slave_address
        &&& self._is_connected == o._is_connected
        &&& self._gesture_data == o._gesture_data
        &&& self._gesture_ud_delta == o._gesture_ud_delta
        &&& self._gesture_lr_delta == o._gesture_lr_delta
        &&& self._gesture_ud_count == o._gesture_ud_count
        &&& self._gesture_lr_count == o._gesture_lr_count
        &&& self._gesture_near_count == o._gesture_near_count
        &&& self._gesture_far_count == o._gesture_far_count
        &&& self._gesture_state == o._gesture_state
        &&& self._gesture_motion == o._gesture_motion
        &&& self.delay == o.delay
        &&& self.base == o.base
        &&& self.log == o.log
    }

    proof fn lemma_after_trans(a: &Self, b: &Self, c: &Self)
        requires
            b.after(a),
            c.after(b),
        ensures
            c.after(a),
            c.since(a) == b.since(a) + c.since(b),
    {
        assert(c.txns().take(a.txns().len() as int) =~= c.txns().take(b.txns().len() as int).take(a.txns().len() as int));
        assert(c.txns() =~= c.txns().take(b.txns().len() as int) + c.since(b));
        assert(b.txns() =~= b.txns().take(a.txns().len() as int) + b.since(a));
        assert(c.since(a) =~= b.since(a) + c.since(b));
    }

    /// Write one register.
    fn write_byte_val(&mut self, reg: u8, val: u8) -> (r: bool)
        requires
            old(self).wf(),
        ensures
            final(self).only_io(old(self)),
            final(self).since(old(self)).len() == 1,
            writes(final(self).since(old(self))[0], reg, val),
            r == acked(final(self).since(old(self))[0]),
    {
        let addr = self._i2c_slave_address;
        let ghost o0 = self.i2c.ops();
        self.i2c.begin_transmission(addr);
        self.i2c.write_byte(reg);
        self.i2c.write_byte(val);
        let s = self.i2c.end_transmission();
        assert(self.i2c.ops() =~= o0 + txn_ops(APDS9960_I2C_ADDRESS, Txn::Write(reg, val, s)));
        self.log_txn(Ghost(o0), Ghost(Txn::Write(reg, val, s)));
        s == 0
    }

    /// Send a special command (a register address alone).
    fn write_byte_cmd(&mut self, reg: u8) -> (r: bool)
        requires
            old(self).wf(),
        ensures
            final(self).only_io(old(self)),
            final(self).since(old(self)).len() == 1,
            final(self).since(old(self))[0] matches Txn::Command(c, _) && c == reg,
            r == acked(final(self).since(old(self))[0]),
    {
        let addr = self._i2c_slave_address;
        let ghost o0 = self.i2c.ops();
        self.i2c.begin_transmission(addr);
        self.i2c.write_byte(reg);
        let s = self.i2c.end_transmission();
        assert(self.i2c.ops() =~= o0 + txn_ops(APDS9960_I2C_ADDRESS, Txn::Command(reg, s)));
        self.log_txn(Ghost(o0), Ghost(Txn::Command(reg, s)));
        s == 0
    }

    /// Address the chip without data: whether it answers.
    fn write_address(&mut self) -> (r: bool)
        requires
            old(self).wf(),
        ensures
            final(self).only_io(old(self)),
            final(self).since(old(self)).len() == 1,
            final(self).since(old(self))[0] is Probe,
            r == acked(final(self).since(old(self))[0]),
    {
        let addr = self._i2c_slave_address;
        let ghost o0 = self.i2c.ops();
        self.i2c.begin_transmission(addr);
        let s = self.i2c.end_transmission();
        assert(self.i2c.ops() =~= o0 + txn_ops(APDS9960_I2C_ADDRESS, Txn::Probe(s)));
        self.log_txn(Ghost(o0), Ghost(Txn::Probe(s)));
        s == 0
    }

    /// Read up to `length` bytes from register `reg` into `result`: the
    /// count read, or -1 when the chip did not answer or sent more bytes
    /// than asked for.
    fn read_multi_bytes_reg(&mut self, reg: u8, length: u8, result: &mut [u8; 128]) -> (r: i8)
        requires
            old(self).wf(),
        ensures
            final(self).only_io(old(self)),
            final(self).since(old(self)).len() == 1,
            ({
                let t = final(self).since(old(self))[0];
                &&& t matches Txn::Block(rg, n, _, _, _, _) && rg == reg && n == length
                &&& r == block_count(t)
                &&& final(result)@ == block_fill(old(result)@, t)
                &&& block_bytes(t).len() <= 127
                &&& block_count(t) <= (if length < 128 { length as int } else { 0 })
            }),
    {
        let addr = self._i2c_slave_address;
        let ghost o0 = self.i2c.ops();
        let mut n_data: i8 = 0;
        self.i2c.begin_transmission(addr);
        self.i2c.write_byte(reg);
        let s = self.i2c.end_transmission();
        if s != 0 {
            let ghost t = Txn::Block(reg, length, s, 0, Seq::empty(), false);
            assert(self.i2c.ops() =~= o0 + txn_ops(APDS9960_I2C_ADDRESS, t));
            self.log_txn(Ghost(o0), Ghost(t));
            return -1;
        }
        let q = self.i2c.request_from(addr, length);
        let lim: i8 = #[verifier::truncate] (length as i8);
        assert((length < 128 ==> lim == length) && (length >= 128 ==> lim < 0)) by (bit_vector)
            requires lim == #[verifier::truncate] (length as i8);
        let ghost mut bytes: Seq<u8> = Seq::empty();
        let ghost start = self.i2c.ops();
        let ghost r0 = result@;
        let ghost me = *self;
        while self.i2c.available() > 0
            invariant
                self.frozen(&me),
                me.frozen(old(self)),
                addr == APDS9960_I2C_ADDRESS,
                self._i2c_slave_address == APDS9960_I2C_ADDRESS,
                o0 == self.base@ + txns_ops(APDS9960_I2C_ADDRESS, self.log@),
                0 <= n_data <= 127,
                n_data as int == bytes.len(),
                lim < 0 ==> n_data == 0,
                lim >= 0 ==> n_data <= lim,
                (length < 128 ==> lim == length) && (length >= 128 ==> lim < 0),
                start == o0 + seq![
                    I2cOp::BeginTransmission(addr),
                    I2cOp::Write(reg),
                    I2cOp::EndTransmission(0),
                    I2cOp::RequestFrom(addr, length, q),
                ],
                self.i2c.ops() == start + bytes.map_values(|v: u8| I2cOp::Read(v)),
                result@.len() == 128,
                r0 == old(result)@,
                result@ == block_fill_with(r0, bytes),
            decreases 127 - n_data,
        {
            if n_data >= lim {
                let ghost t = Txn::Block(reg, length, 0, q, bytes, true);
                assert(self.i2c.ops() =~= o0 + txn_ops(APDS9960_I2C_ADDRESS, t));
                self.log_txn(Ghost(o0), Ghost(t));
                return -1;
            }
            let b = self.i2c.read_byte();
            result[n_data as usize] = b;
            proof {
                assert(bytes.push(b).map_values(|v: u8| I2cOp::Read(v)) =~= bytes.map_values(|v: u8| I2cOp::Read(v)).push(
                    I2cOp::Read(b),
                ));
                bytes = bytes.push(b);
                assert(result@ =~= block_fill_with(r0, bytes));
            }
            n_data += 1;
        }
        let ghost t = Txn::Block(reg, length, 0, q, bytes, false);
        assert(self.i2c.ops() =~= o0 + txn_ops(APDS9960_I2C_ADDRESS, t));
        self.log_txn(Ghost(o0), Ghost(t));
        n_data
    }

    /// The ENABLE register, or `ERROR` when it could not be read.
    pub fn get_mode(&mut self) -> (r: u8)
        requires
            old(self).wf(),
        ensures
            final(self).only_io(old(self)),
            final(self).since(old(self)).len() == 1,
            reads(final(self).since(old(self))[0], APDS9960_ENABLE),
            r == (match read_value(final(self).since(old(self))[0]) {
                Some(v) => v,
                None => ERROR,
            }),
    {
        let mut enable_val: u8 = 0;
        let ok = self.read_byte_reg(APDS9960_ENABLE, &mut enable_val);
        if !ok {
            return ERROR;
        }
        enable_val
    }

    /// Take one configuration step.
    fn step(&mut self, a: Action) -> (r: bool)
        requires
            old(self).wf(),
            valid_action(a),
        ensures
            final(self).only_io(old(self)),
            performs(seq![a], final(self).since(old(self)), r),
    {
        let ghost o = *self;
        assert(seq![a].drop_first() =~= Seq::<Action>::empty());
        assert(seq![a][0] == a);
        match a {
            Action::Write(reg, v) => {
                let ok = self.write_byte_val(reg, v);
                assert(self.since(&o).take(1) =~= self.since(&o));
                assert(self.since(&o).skip(1) =~= Seq::<Txn>::empty());
                proof {
                    lemma_performs_one(a, self.since(&o), ok);
                }
                ok
            },
            Action::Command(reg) => {
                let ok = self.write_byte_cmd(reg);
                assert(self.since(&o).take(1) =~= self.since(&o));
                assert(self.since(&o).skip(1) =~= Seq::<Txn>::empty());
                proof {
                    lemma_performs_one(a, self.since(&o), ok);
                }
                ok
            },
            Action::CheckId => {
                let mut id: u8 = 0;
                let ok = self.read_byte_reg(APDS9960_ID, &mut id);
                assert(self.since(&o).take(1) =~= self.since(&o));
                assert(self.since(&o).skip(1) =~= Seq::<Txn>::empty());
                if !ok {
                    proof {
                        lemma_performs_one(a, self.since(&o), false);
                    }
                    return false;
                }
                let good = id == APDS9960_ID_1 || id == APDS9960_ID_2 || id == APDS9960_ID_3;
                proof {
                    lemma_performs_one(a, self.since(&o), good);
                }
                good
            },
            Action::Update(reg, clear, set) => {
                let mut v: u8 = 0;
                let ok = self.read_byte_reg(reg, &mut v);
                if !ok {
                    assert(self.since(&o).take(1) =~= self.since(&o));
                    assert(self.since(&o).skip(1) =~= Seq::<Txn>::empty());
                    proof {
                        lemma_performs_one(a, self.since(&o), false);
                    }
                    return false;
                }
                let ghost mid = *self;
                let ok2 = self.write_byte_val(reg, (v & !clear) | set);
                proof {
                    Self::lemma_after_trans(&o, &mid, self);
                    assert(self.since(&o).take(2) =~= self.since(&o));
                    assert(self.since(&o).skip(2) =~= Seq::<Txn>::empty());
                    assert(self.since(&o)[1] == self.since(&mid)[0]);
                }
                proof {
                    lemma_performs_one(a, self.since(&o), ok2);
                }
                ok2
            },
            Action::Mode(bit, on) => {
                let mut enable_val = self.get_mode();
                if enable_val == ERROR {
                    assert(self.since(&o).take(1) =~= self.since(&o));
                    assert(self.since(&o).skip(1) =~= Seq::<Txn>::empty());
                    proof {
                        lemma_performs_one(a, self.since(&o), false);
                    }
                    return false;
                }
                let ghost mid = *self;
                let state: u8 = if on {
                    1
                } else {
                    0
                };
                enable_val = enable_val & !(1u8 << bit);
                enable_val = enable_val | (state << bit);
                let ok2 = self.write_byte_val(APDS9960_ENABLE, enable_val);
                proof {
                    Self::lemma_after_trans(&o, &mid, self);
                    assert(self.since(&o).take(2) =~= self.since(&o));
                    assert(self.since(&o).skip(2) =~= Seq::<Txn>::empty());
                    assert(self.since(&o)[1] == self.since(&mid)[0]);
                }
                proof {
                    lemma_performs_one(a, self.since(&o), ok2);
                }
                ok2
            },
        }
    }

    /// Take the steps `acts` in order, stopping at the first that fails.
    fn run(&mut self, acts: &[Action]) -> (r: bool)
        requires
            old(self).wf(),
            forall|i: int| 0 <= i < acts@.len() ==> valid_action(#[trigger] acts@[i]),
        ensures
            final(self).only_io(old(self)),
            performs(acts@, final(self).since(old(self)), r),
    {
        let ghost o = *self;
        assert(self.since(&o) =~= Seq::<Txn>::empty());
        assert(self.txns().take(o.txns().len() as int) =~= o.txns());
        assert(acts@.take(0) =~= Seq::<Action>::empty());
        let mut i: usize = 0;
        while i < acts.len()
            invariant
                o == *old(self),
                i <= acts@.len(),
                forall|j: int| 0 <= j < acts@.len() ==> valid_action(#[trigger] acts@[j]),
                self.only_io(&o),
                performs(acts@.take(i as int), self.since(&o), true),
            decreases acts@.len() - i,
        {
            let ghost mid = *self;
            let ok = self.step(acts[i]);
            proof {
                Self::lemma_after_trans(&o, &mid, self);
                lemma_performs_step(acts@, i as int, mid.since(&o), self.since(&mid), ok);
            }
            if !ok {
                return false;
            }
            i += 1;
        }
        assert(acts@.take(acts@.len() as int) =~= acts@);
        true
    }

    /// Power the chip on.
    pub fn enable_power(&mut self) -> (r: bool)
        requires
            old(self).wf(),
        ensures
            final(self).only_io(old(self)),
            performs(seq![Action::Mode(0, true)], final(self).since(old(self)), r),
    {
        self.step(Action::Mode(0, true))
    }

    /// Power the chip off.
    pub fn disable_power(&mut self) -> (r: bool)
        requires
            old(self).wf(),
        ensures
            final(self).only_io(old(self)),
            performs(seq![Action::Mode(0, false)], final(self).since(old(self)), r),
    {
        self.step(Action::Mode(0, false))
    }

    /// Switch one feature of the ENABLE register on or off.
    pub fn set_mode(&mut self, mode: Apds9960Mode, state: State) -> (r: bool)
        requires
            old(self).wf(),
        ensures
            final(self).only_io(old(self)),
            performs(seq![Action::Mode(mode.spec_bit(), state == State::ENABLE)], final(self).since(old(self)), r),
    {
        let on = match state {
            State::ENABLE => true,
            State::DISABLE => false,
        };
        self.step(Action::Mode(mode.bit(), on))
    }

    /// Enable or disable the ambient light interrupt.
    pub fn set_ambient_light_int(&mut self, int_state: State) -> (r: bool)
        requires
            old(self).wf(),
        ensures
            final(self).only_io(old(self)),
            performs(seq![set_flag(APDS9960_ENABLE, AIEN_EN_MSK, AIEN_EN_POS, int_state)], final(self).since(old(self)), r),
    {
        self.step(Action::Update(APDS9960_ENABLE, AIEN_EN_MSK, (int_state.value() & 0x01) << AIEN_EN_POS))
    }

    /// Enable or disable the proximity interrupt.
    pub fn set_proximity_int(&mut self, int_state: State) -> (r: bool)
        requires
            old(self).wf(),
        ensures
            final(self).only_io(old(self)),
            performs(seq![set_flag(APDS9960_ENABLE, PIEN_EN_MSK, PIEN_EN_POS, int_state)], final(self).since(old(self)), r),
    {
        self.step(Action::Update(APDS9960_ENABLE, PIEN_EN_MSK, (int_state.value() & 0x01) << PIEN_EN_POS))
    }

    /// Enable or disable the gesture interrupt.
    pub fn set_gesture_int(&mut self, int_state: State) -> (r: bool)
        requires
            old(self).wf(),
        ensures
            final(self).only_io(old(self)),
            performs(seq![set_flag(APDS9960_GCONF4, GES_GIEN_MSK, GES_GIEN_POS, int_state)], final(self).since(old(self)), r),
    {
        self.step(Action::Update(APDS9960_GCONF4, GES_GIEN_MSK, (int_state.value() & 0x01) << GES_GIEN_POS))
    }

    /// Set the ambient light gain (two bits).
    pub fn set_ambient_light_gain(&mut self, als_gain: u8) -> (r: bool)
        requires
            old(self).wf(),
        ensures
            final(self).only_io(old(self)),
            performs(seq![Action::Update(APDS9960_CONTROL, ALS_GAIN_MSK, (als_gain & 0x03) << ALS_GAIN_POS)], final(self).since(old(self)), r),
    {
        self.step(Action::Update(APDS9960_CONTROL, ALS_GAIN_MSK, (als_gain & 0x03) << ALS_GAIN_POS))
    }

    /// Set the proximity gain (two bits).
    pub fn set_proximity_gain(&mut self, prx_gain: u8) -> (r: bool)
        requires
            old(self).wf(),
        ensures
            final(self).only_io(old(self)),
            performs(seq![Action::Update(APDS9960_CONTROL, PRX_GAIN_MSK, (prx_gain & 0x03) << PRX_GAIN_POS)], final(self).since(old(self)), r),
    {
        self.step(Action::Update(APDS9960_CONTROL, PRX_GAIN_MSK, (prx_gain & 0x03) << PRX_GAIN_POS))
    }

    /// Set the LED drive strength (two bits).
    pub fn set_led_drive(&mut self, drive: u8) -> (r: bool)
        requires
            old(self).wf(),
        ensures
            final(self).only_io(old(self)),
            performs(seq![Action::Update(APDS9960_CONTROL, LED_DRIVE_MSK, (drive & 0x03) << LED_DRIVE_POS)], final(self).since(old(self)), r),
    {
        self.step(Action::Update(APDS9960_CONTROL, LED_DRIVE_MSK, (drive & 0x03) << LED_DRIVE_POS))
    }

    /// Set the gesture gain (two bits).
    pub fn set_gesture_gain(&mut self, ges_gain: u8) -> (r: bool)
        requires
            old(self).wf(),
        ensures
            final(self).only_io(old(self)),
            performs(seq![Action::Update(APDS9960_GCONF2, GES_GAIN_MSK, (ges_gain & 0x03) << GES_GAIN_POS)], final(self).since(old(self)), r),
    {
        self.step(Action::Update(APDS9960_GCONF2, GES_GAIN_MSK, (ges_gain & 0x03) << GES_GAIN_POS))
    }

    /// Set the gesture LED drive strength (two bits).
    pub fn set_gesture_led_drive(&mut self, drive: u8) -> (r: bool)
        requires
            old(self).wf(),
        ensures
            final(self).only_io(old(self)),
            performs(seq![Action::Update(APDS9960_GCONF2, GES_LDRIVE_MSK, (drive & 0x03) << GES_LDRIVE_POS)], final(self).since(old(self)), r),
    {
        self.step(Action::Update(APDS9960_GCONF2, GES_LDRIVE_MSK, (drive & 0x03) << GES_LDRIVE_POS))
    }

    /// Set the wait between gesture cycles (three bits).
    fn set_gesture_wait_time(&mut self, time: u8) -> (r: bool)
        requires
            old(self).wf(),
        ensures
            final(self).only_io(old(self)),
            performs(seq![Action::Update(APDS9960_GCONF2, GES_WTIME_MSK, (time & GES_WTIME_MSK) << GES_WTIME_POS)], final(self).since(old(self)), r),
    {
        self.step(Action::Update(APDS9960_GCONF2, GES_WTIME_MSK, (time & GES_WTIME_MSK) << GES_WTIME_POS))
    }

    /// Enter (1) or leave (0) the gesture state machine.
    fn set_gesture_mode(&mut self, mode: u8) -> (r: bool)
        requires
            old(self).wf(),
        ensures
            final(self).only_io(old(self)),
            performs(seq![Action::Update(APDS9960_GCONF4, GES_GMODE_MSK, (mode & GES_GMODE_MSK) << GES_GMODE_POS)], final(self).since(old(self)), r),
    {
        self.step(Action::Update(APDS9960_GCONF4, GES_GMODE_MSK, (mode & GES_GMODE_MSK) << GES_GMODE_POS))
    }

    /// Set the LED boost (two bits).
    fn set_led_boost(&mut self, boost: u8) -> (r: bool)
        requires
            old(self).wf(),
        ensures
            final(self).only_io(old(self)),
            performs(seq![Action::Update(APDS9960_CONFIG2, CFG2_LED_BOOST_MSK, (boost & 0x03) << CFG2_LED_BOOST_POS)], final(self).since(old(self)), r),
    {
        self.step(Action::Update(APDS9960_CONFIG2, CFG2_LED_BOOST_MSK, (boost & 0x03) << CFG2_LED_BOOST_POS))
    }

    /// Set the low proximity interrupt threshold.
    pub fn set_proximity_int_low_threshold(&mut self, threshold: u8) -> (r: bool)
        requires
            old(self).wf(),
        ensures
            final(self).only_io(old(self)),
            performs(seq![Action::Write(APDS9960_PILT, threshold)], final(self).since(old(self)), r),
    {
        self.step(Action::Write(APDS9960_PILT, threshold))
    }

    /// Set the high proximity interrupt threshold.
    pub fn set_proximity_int_high_threshold(&mut self, threshold: u8) -> (r: bool)
        requires
            old(self).wf(),
        ensures
            final(self).only_io(old(self)),
            performs(seq![Action::Write(APDS9960_PIHT, threshold)], final(self).since(old(self)), r),
    {
        self.step(Action::Write(APDS9960_PIHT, threshold))
    }

    /// Clear the ambient light interrupt.
    pub fn clear_ambient_light_int(&mut self) -> (r: bool)
        requires
            old(self).wf(),
        ensures
            final(self).only_io(old(self)),
            performs(seq![Action::Command(APDS9960_AICLEAR)], final(self).since(old(self)), r),
    {
        self.step(Action::Command(APDS9960_AICLEAR))
    }

    /// Clear the proximity interrupt.
    pub fn clear_proximity_int(&mut self) -> (r: bool)
        requires
            old(self).wf(),
        ensures
            final(self).only_io(old(self)),
            performs(seq![Action::Command(APDS9960_PICLEAR)], final(self).since(old(self)), r),
    {
        self.step(Action::Command(APDS9960_PICLEAR))
    }

    /// Set the low ambient light interrupt threshold.
    pub fn set_light_int_low_threshold(&mut self, threshold: u16) -> (r: bool)
        requires
            old(self).wf(),
        ensures
            final(self).only_io(old(self)),
            performs(
                seq![Action::Write(APDS9960_AILTL, (threshold & 0xFF) as u8), Action::Write(APDS9960_AILTH, ((threshold >> 8u16) & 0xFF) as u8)],
                final(self).since(old(self)),
                r,
            ),
    {
        let lo: u8 = (threshold & 0xFF) as u8;
        let hi: u8 = ((threshold >> 8u16) & 0xFF) as u8;
        let acts: [Action; 2] = [Action::Write(APDS9960_AILTL, lo), Action::Write(APDS9960_AILTH, hi)];
        assert(acts@ =~= seq![Action::Write(APDS9960_AILTL, (threshold & 0xFF) as u8), Action::Write(APDS9960_AILTH, ((threshold >> 8u16) & 0xFF) as u8)]);
        self.run(&acts)
    }

    /// Set the high ambient light interrupt threshold.
    pub fn set_light_int_high_threshold(&mut self, threshold: u16) -> (r: bool)
        requires
            old(self).wf(),
        ensures
            final(self).only_io(old(self)),
            performs(
                seq![Action::Write(APDS9960_AIHTL, (threshold & 0xFF) as u8), Action::Write(APDS9960_AIHTH, ((threshold >> 8u16) & 0xFF) as u8)],
                final(self).since(old(self)),
                r,
            ),
    {
        let lo: u8 = (threshold & 0xFF) as u8;
        let hi: u8 = ((threshold >> 8u16) & 0xFF) as u8;
        let acts: [Action; 2] = [Action::Write(APDS9960_AIHTL, lo), Action::Write(APDS9960_AIHTH, hi)];
        assert(acts@ =~= seq![Action::Write(APDS9960_AIHTL, (threshold & 0xFF) as u8), Action::Write(APDS9960_AIHTH, ((threshold >> 8u16) & 0xFF) as u8)]);
        self.run(&acts)
    }

    /// Turn the ambient light sensor and its interrupt off.
    pub fn disable_ambient_light_sensor(&mut self) -> (r: bool)
        requires
            old(self).wf(),
        ensures
            final(self).only_io(old(self)),
            performs(seq![Action::Update(APDS9960_ENABLE, AIEN_EN_MSK, 0x00), Action::Mode(1, false)], final(self).since(old(self)), r),
    {
        let acts: [Action; 2] = [
            Action::Update(APDS9960_ENABLE, AIEN_EN_MSK, 0x00),
            Action::Mode(1, false)
        ];
        assert(acts@ =~= seq![Action::Update(APDS9960_ENABLE, AIEN_EN_MSK, 0x00), Action::Mode(1, false)]);
        self.run(&acts)
    }

    /// Turn the proximity sensor and its interrupt off.
    pub fn disable_proximity_sensor(&mut self) -> (r: bool)
        requires
            old(self).wf(),
        ensures
            final(self).only_io(old(self)),
            performs(seq![Action::Update(APDS9960_ENABLE, PIEN_EN_MSK, 0x00), Action::Mode(2, false)], final(self).since(old(self)), r),
    {
        let acts: [Action; 2] = [
            Action::Update(APDS9960_ENABLE, PIEN_EN_MSK, 0x00),
            Action::Mode(2, false)
        ];
        assert(acts@ =~= seq![Action::Update(APDS9960_ENABLE, PIEN_EN_MSK, 0x00), Action::Mode(2, false)]);
        self.run(&acts)
    }

    /// Default gain, the interrupt as asked, power and the sensor on.
    pub fn enable_ambient_light_sensor(&mut self, interrupt: State) -> (r: bool)
        requires
            old(self).wf(),
        ensures
            final(self).only_io(old(self)),
            performs(als_on_program(interrupt), final(self).since(old(self)), r),
    {
        let acts: [Action; 4] = [
            Action::Update(APDS9960_CONTROL, ALS_GAIN_MSK, (DEFAULT_AGAIN & 0x03) << ALS_GAIN_POS),
            Action::Update(APDS9960_ENABLE, AIEN_EN_MSK, (interrupt.value() & 0x01) << AIEN_EN_POS),
            Action::Mode(0, true),
            Action::Mode(1, true)
        ];
        assert(acts@ =~= als_on_program(interrupt));
        self.run(&acts)
    }

    /// Default gain and LED drive, the interrupt as asked, power and the sensor on.
    pub fn enable_proximity_sensor(&mut self, interrupt: State) -> (r: bool)
        requires
            old(self).wf(),
        ensures
            final(self).only_io(old(self)),
            performs(prox_on_program(interrupt), final(self).since(old(self)), r),
    {
        let acts: [Action; 5] = [
            Action::Update(APDS9960_CONTROL, PRX_GAIN_MSK, (DEFAULT_PGAIN & 0x03) << PRX_GAIN_POS),
            Action::Update(APDS9960_CONTROL, LED_DRIVE_MSK, (DEFAULT_LDRIVE & 0x03) << LED_DRIVE_POS),
            Action::Update(APDS9960_ENABLE, PIEN_EN_MSK, (interrupt.value() & 0x01) << PIEN_EN_POS),
            Action::Mode(0, true),
            Action::Mode(2, true)
        ];
        assert(acts@ =~= prox_on_program(interrupt));
        self.run(&acts)
    }

    /// Clear the gesture engine, then set up and switch on gesture sensing: power off (ENABLE to 0), longest wait, gesture pulses, 300% LED boost, the interrupt as asked, gesture mode, then power, wait, proximity and gesture on.
    pub fn enable_gesture_sensor(&mut self, interrupt: State) -> (r: bool)
        requires
            old(self).wf(),
        ensures
            final(self).after(old(self)),
            final(self).waits() == old(self).waits(),
            final(self).connected() == old(self).connected(),
            final(self).gesture() == reset_gesture(old(self).gesture()),
            performs(gesture_on_program(interrupt), final(self).since(old(self)), r),
    {
        self.reset_gesture_parameters();
        let acts: [Action; 10] = [
            Action::Write(APDS9960_ENABLE, 0x00),
            Action::Write(APDS9960_WTIME, 0xFF),
            Action::Write(APDS9960_PPULSE, DEFAULT_GESTURE_PPULSE),
            Action::Update(APDS9960_CONFIG2, CFG2_LED_BOOST_MSK, 0x30),
            Action::Update(APDS9960_GCONF4, GES_GIEN_MSK, (interrupt.value() & 0x01) << GES_GIEN_POS),
            Action::Update(APDS9960_GCONF4, GES_GMODE_MSK, 0x01),
            Action::Mode(0, true),
            Action::Mode(3, true),
            Action::Mode(2, true),
            Action::Mode(6, true)
        ];
        assert(acts@ =~= gesture_on_program(interrupt));
        self.run(&acts)
    }

    /// Clear the gesture engine, then switch gesture sensing, its interrupt and gesture mode off.
    pub fn disable_gesture_sensor(&mut self) -> (r: bool)
        requires
            old(self).wf(),
        ensures
            final(self).after(old(self)),
            final(self).waits() == old(self).waits(),
            final(self).connected() == old(self).connected(),
            final(self).gesture() == reset_gesture(old(self).gesture()),
            performs(gesture_off_program(), final(self).since(old(self)), r),
    {
        self.reset_gesture_parameters();
        let acts: [Action; 3] = [
            Action::Update(APDS9960_GCONF4, GES_GIEN_MSK, 0x00),
            Action::Update(APDS9960_GCONF4, GES_GMODE_MSK, 0x00),
            Action::Mode(6, false)
        ];
        assert(acts@ =~= gesture_off_program());
        self.run(&acts)
    }

    /// Check the chip's ID and write the default configuration; on
    /// success the driver counts as connected.
    pub fn begin(&mut self) -> (r: bool)
        requires
            old(self).wf(),
        ensures
            final(self).after(old(self)),
            final(self).waits() == old(self).waits(),
            final(self).gesture() == old(self).gesture(),
            final(self).connected() == (r || old(self).connected()),
            performs(begin_program(), final(self).since(old(self)), r),
    {
        let acts: [Action; 33] = [
            Action::CheckId,
            Action::Write(APDS9960_ENABLE, 0),
            Action::Write(APDS9960_ATIME, DEFAULT_ATIME),
            Action::Write(APDS9960_WTIME, DEFAULT_WTIME),
            Action::Write(APDS9960_PPULSE, DEFAULT_PROX_PPULSE),
            Action::Write(APDS9960_POFFSET_UR, DEFAULT_POFFSET_UR),
            Action::Write(APDS9960_POFFSET_DL, DEFAULT_POFFSET_DL),
            Action::Write(APDS9960_CONFIG1, DEFAULT_CONFIG1),
            Action::Update(APDS9960_CONTROL, LED_DRIVE_MSK, 0x00),
            Action::Update(APDS9960_CONTROL, PRX_GAIN_MSK, 0x08),
            Action::Update(APDS9960_CONTROL, ALS_GAIN_MSK, 0x01),
            Action::Write(APDS9960_PILT, DEFAULT_PILT),
            Action::Write(APDS9960_PIHT, DEFAULT_PIHT),
            Action::Write(APDS9960_AILTL, 0xFF),
            Action::Write(APDS9960_AILTH, 0xFF),
            Action::Write(APDS9960_AIHTL, 0x00),
            Action::Write(APDS9960_AIHTH, 0x00),
            Action::Write(APDS9960_PERS, DEFAULT_PERS),
            Action::Write(APDS9960_CONFIG2, DEFAULT_CONFIG2),
            Action::Write(APDS9960_CONFIG3, DEFAULT_CONFIG3),
            Action::Write(APDS9960_GPENTH, DEFAULT_GPENTH),
            Action::Write(APDS9960_GEXTH, DEFAULT_GEXTH),
            Action::Write(APDS9960_GCONF1, DEFAULT_GCONF1),
            Action::Update(APDS9960_GCONF2, GES_GAIN_MSK, 0x20),
            Action::Update(APDS9960_GCONF2, GES_LDRIVE_MSK, 0x00),
            Action::Update(APDS9960_GCONF2, GES_WTIME_MSK, 0x01),
            Action::Write(APDS9960_GOFFSET_U, DEFAULT_GOFFSET),
            Action::Write(APDS9960_GOFFSET_D, DEFAULT_GOFFSET),
            Action::Write(APDS9960_GOFFSET_L, DEFAULT_GOFFSET),
            Action::Write(APDS9960_GOFFSET_R, DEFAULT_GOFFSET),
            Action::Write(APDS9960_GPULSE, DEFAULT_GPULSE),
            Action::Write(APDS9960_GCONF3, DEFAULT_GCONF3),
            Action::Update(APDS9960_GCONF4, GES_GIEN_MSK, 0x00),
        ];
        assert(acts@ =~= begin_program());
        let ok = self.run(&acts);
        if ok {
            self._is_connected = true;
        }
        ok
    }

    /// The ID register, or `ERROR`.
    pub fn get_device_id(&mut self) -> (r: u8)
        requires
            old(self).wf(),
        ensures
            final(self).only_io(old(self)),
            final(self).since(old(self)).len() == 1,
            reads(final(self).since(old(self))[0], APDS9960_ID),
            r == field_or_error(final(self).since(old(self))[0], 0xFF, 0),
    {
        let mut v: u8 = 0;
        if !self.read_byte_reg(APDS9960_ID, &mut v) {
            return ERROR;
        }
        (v & 0xFF) >> 0
    }

    /// The ambient light gain, or `ERROR`.
    pub fn get_ambient_light_gain(&mut self) -> (r: u8)
        requires
            old(self).wf(),
        ensures
            final(self).only_io(old(self)),
            final(self).since(old(self)).len() == 1,
            reads(final(self).since(old(self))[0], APDS9960_CONTROL),
            r == field_or_error(final(self).since(old(self))[0], ALS_GAIN_MSK, ALS_GAIN_POS),
    {
        let mut v: u8 = 0;
        if !self.read_byte_reg(APDS9960_CONTROL, &mut v) {
            return ERROR;
        }
        (v & ALS_GAIN_MSK) >> ALS_GAIN_POS
    }

    /// The proximity gain, or `ERROR`.
    pub fn get_proximity_gain(&mut self) -> (r: u8)
        requires
            old(self).wf(),
        ensures
            final(self).only_io(old(self)),
            final(self).since(old(self)).len() == 1,
            reads(final(self).since(old(self))[0], APDS9960_CONTROL),
            r == field_or_error(final(self).since(old(self))[0], PRX_GAIN_MSK, PRX_GAIN_POS),
    {
        let mut v: u8 = 0;
        if !self.read_byte_reg(APDS9960_CONTROL, &mut v) {
            return ERROR;
        }
        (v & PRX_GAIN_MSK) >> PRX_GAIN_POS
    }

    /// The LED drive strength, or `ERROR`.
    pub fn get_led_drive(&mut self) -> (r: u8)
        requires
            old(self).wf(),
        ensures
            final(self).only_io(old(self)),
            final(self).since(old(self)).len() == 1,
            reads(final(self).since(old(self))[0], APDS9960_CONTROL),
            r == field_or_error(final(self).since(old(self))[0], LED_DRIVE_MSK, LED_DRIVE_POS),
    {
        let mut v: u8 = 0;
        if !self.read_byte_reg(APDS9960_CONTROL, &mut v) {
            return ERROR;
        }
        (v & LED_DRIVE_MSK) >> LED_DRIVE_POS
    }

    /// The gesture gain, or `ERROR`.
    pub fn get_gesture_gain(&mut self) -> (r: u8)
        requires
            old(self).wf(),
        ensures
            final(self).only_io(old(self)),
            final(self).since(old(self)).len() == 1,
            reads(final(self).since(old(self))[0], APDS9960_GCONF2),
            r == field_or_error(final(self).since(old(self))[0], GES_GAIN_MSK, GES_GAIN_POS),
    {
        let mut v: u8 = 0;
        if !self.read_byte_reg(APDS9960_GCONF2, &mut v) {
            return ERROR;
        }
        (v & GES_GAIN_MSK) >> GES_GAIN_POS
    }

    /// The gesture LED drive strength, or `ERROR`.
    pub fn get_gesture_led_drive(&mut self) -> (r: u8)
        requires
            old(self).wf(),
        ensures
            final(self).only_io(old(self)),
            final(self).since(old(self)).len() == 1,
            reads(final(self).since(old(self))[0], APDS9960_GCONF2),
            r == field_or_error(final(self).since(old(self))[0], GES_LDRIVE_MSK, GES_LDRIVE_POS),
    {
        let mut v: u8 = 0;
        if !self.read_byte_reg(APDS9960_GCONF2, &mut v) {
            return ERROR;
        }
        (v & GES_LDRIVE_MSK) >> GES_LDRIVE_POS
    }

    /// The wait between gesture cycles, or `ERROR`.
    fn get_gesture_wait_time(&mut self) -> (r: u8)
        requires
            old(self).wf(),
        ensures
            final(self).only_io(old(self)),
            final(self).since(old(self)).len() == 1,
            reads(final(self).since(old(self))[0], APDS9960_GCONF2),
            r == field_or_error(final(self).since(old(self))[0], GES_WTIME_MSK, GES_WTIME_POS),
    {
        let mut v: u8 = 0;
        if !self.read_byte_reg(APDS9960_GCONF2, &mut v) {
            return ERROR;
        }
        (v & GES_WTIME_MSK) >> GES_WTIME_POS
    }

    /// Whether the gesture state machine runs (1, 0), or `ERROR`.
    fn get_gesture_mode(&mut self) -> (r: u8)
        requires
            old(self).wf(),
        ensures
            final(self).only_io(old(self)),
            final(self).since(old(self)).len() == 1,
            reads(final(self).since(old(self))[0], APDS9960_GCONF4),
            r == field_or_error(final(self).since(old(self))[0], GES_GMODE_MSK, GES_GMODE_POS),
    {
        let mut v: u8 = 0;
        if !self.read_byte_reg(APDS9960_GCONF4, &mut v) {
            return ERROR;
        }
        (v & GES_GMODE_MSK) >> GES_GMODE_POS
    }

    /// The LED boost, or `ERROR`.
    fn get_led_boost(&mut self) -> (r: u8)
        requires
            old(self).wf(),
        ensures
            final(self).only_io(old(self)),
            final(self).since(old(self)).len() == 1,
            reads(final(self).since(old(self))[0], APDS9960_CONFIG2),
            r == field_or_error(final(self).since(old(self))[0], CFG2_LED_BOOST_MSK, CFG2_LED_BOOST_POS),
    {
        let mut v: u8 = 0;
        if !self.read_byte_reg(APDS9960_CONFIG2, &mut v) {
            return ERROR;
        }
        (v & CFG2_LED_BOOST_MSK) >> CFG2_LED_BOOST_POS
    }

    /// Whether the ambient light interrupt is enabled (false when unreadable).
    pub fn get_ambient_light_int_state(&mut self) -> (r: bool)
        requires
            old(self).wf(),
        ensures
            final(self).only_io(old(self)),
            final(self).since(old(self)).len() == 1,
            reads(final(self).since(old(self))[0], APDS9960_ENABLE),
            r == flag_set(final(self).since(old(self))[0], AIEN_EN_MSK, AIEN_EN_POS),
    {
        let mut v: u8 = 0;
        if !self.read_byte_reg(APDS9960_ENABLE, &mut v) {
            return false;
        }
        ((v & AIEN_EN_MSK) >> AIEN_EN_POS) != 0
    }

    /// Whether the proximity interrupt is enabled (false when unreadable).
    pub fn get_proximity_int_state(&mut self) -> (r: bool)
        requires
            old(self).wf(),
        ensures
            final(self).only_io(old(self)),
            final(self).since(old(self)).len() == 1,
            reads(final(self).since(old(self))[0], APDS9960_ENABLE),
            r == flag_set(final(self).since(old(self))[0], PIEN_EN_MSK, PIEN_EN_POS),
    {
        let mut v: u8 = 0;
        if !self.read_byte_reg(APDS9960_ENABLE, &mut v) {
            return false;
        }
        ((v & PIEN_EN_MSK) >> PIEN_EN_POS) != 0
    }

    /// Whether the gesture interrupt is enabled (false when unreadable).
    pub fn get_gesture_int_state(&mut self) -> (r: bool)
        requires
            old(self).wf(),
        ensures
            final(self).only_io(old(self)),
            final(self).since(old(self)).len() == 1,
            reads(final(self).since(old(self))[0], APDS9960_GCONF4),
            r == flag_set(final(self).since(old(self))[0], GES_GIEN_MSK, GES_GIEN_POS),
    {
        let mut v: u8 = 0;
        if !self.read_byte_reg(APDS9960_GCONF4, &mut v) {
            return false;
        }
        ((v & GES_GIEN_MSK) >> GES_GIEN_POS) != 0
    }

    /// Whether the chip holds a valid gesture (false when unreadable).
    fn is_gesture_available(&mut self) -> (r: bool)
        requires
            old(self).wf(),
        ensures
            final(self).only_io(old(self)),
            final(self).since(old(self)).len() == 1,
            reads(final(self).since(old(self))[0], APDS9960_GSTATUS),
            r == flag_set(final(self).since(old(self))[0], GSTS_GVALID_MSK, GSTS_GVALID_POS),
    {
        let mut v: u8 = 0;
        if !self.read_byte_reg(APDS9960_GSTATUS, &mut v) {
            return false;
        }
        ((v & GSTS_GVALID_MSK) >> GSTS_GVALID_POS) != 0
    }

    /// Read the 16-bit value in registers `lo` and `hi`; `val` is set only
    /// when both bytes came.
    fn read_word(&mut self, lo: u8, hi: u8, val: &mut u16) -> (r: bool)
        requires
            old(self).wf(),
        ensures
            final(self).only_io(old(self)),
            reads_word(final(self).since(old(self)), lo, hi),
            r == word_ok(final(self).since(old(self))),
            *final(val) == (if r { word_value(final(self).since(old(self))) } else { *old(val) }),
    {
        let ghost o = *self;
        let mut data: [u8; 2] = [0u8; 2];
        let mut b0: u8 = 0;
        if !self.read_byte_reg(lo, &mut b0) {
            return false;
        }
        let ghost mid = *self;
        let mut b1: u8 = 0;
        let ok = self.read_byte_reg(hi, &mut b1);
        proof {
            Self::lemma_after_trans(&o, &mid, self);
            assert(self.since(&o)[1] == self.since(&mid)[0]);
        }
        if !ok {
            return false;
        }
        data[0] = b0;
        data[1] = b1;
        *val = ((data[1] as u16) << 8u16) | data[0] as u16;
        true
    }

    /// The low ambient light interrupt threshold, into `threshold`.
    pub fn get_light_int_low_threshold(&mut self, threshold: &mut u16) -> (r: bool)
        requires
            old(self).wf(),
        ensures
            final(self).only_io(old(self)),
            reads_word(final(self).since(old(self)), APDS9960_AILTL, APDS9960_AILTH),
            r == word_ok(final(self).since(old(self))),
            *final(threshold) == (if r { word_value(final(self).since(old(self))) } else { *old(threshold) }),
    {
        self.read_word(APDS9960_AILTL, APDS9960_AILTH, threshold)
    }

    /// The high ambient light interrupt threshold, into `threshold`.
    pub fn get_light_int_high_threshold(&mut self, threshold: &mut u16) -> (r: bool)
        requires
            old(self).wf(),
        ensures
            final(self).only_io(old(self)),
            reads_word(final(self).since(old(self)), APDS9960_AIHTL, APDS9960_AIHTH),
            r == word_ok(final(self).since(old(self))),
            *final(threshold) == (if r { word_value(final(self).since(old(self))) } else { *old(threshold) }),
    {
        self.read_word(APDS9960_AIHTL, APDS9960_AIHTH, threshold)
    }

    /// The clear channel, into `val`.
    fn read_ambient_light(&mut self, val: &mut u16) -> (r: bool)
        requires
            old(self).wf(),
        ensures
            final(self).only_io(old(self)),
            reads_word(final(self).since(old(self)), APDS9960_CDATAL, APDS9960_CDATAH),
            r == word_ok(final(self).since(old(self))),
            *final(val) == (if r { word_value(final(self).since(old(self))) } else { *old(val) }),
    {
        self.read_word(APDS9960_CDATAL, APDS9960_CDATAH, val)
    }

    /// The red channel, into `val`.
    fn read_red_light(&mut self, val: &mut u16) -> (r: bool)
        requires
            old(self).wf(),
        ensures
            final(self).only_io(old(self)),
            reads_word(final(self).since(old(self)), APDS9960_RDATAL, APDS9960_RDATAH),
            r == word_ok(final(self).since(old(self))),
            *final(val) == (if r { word_value(final(self).since(old(self))) } else { *old(val) }),
    {
        self.read_word(APDS9960_RDATAL, APDS9960_RDATAH, val)
    }

    /// The green channel, into `val`.
    fn read_green_light(&mut self, val: &mut u16) -> (r: bool)
        requires
            old(self).wf(),
        ensures
            final(self).only_io(old(self)),
            reads_word(final(self).since(old(self)), APDS9960_GDATAL, APDS9960_GDATAH),
            r == word_ok(final(self).since(old(self))),
            *final(val) == (if r { word_value(final(self).since(old(self))) } else { *old(val) }),
    {
        self.read_word(APDS9960_GDATAL, APDS9960_GDATAH, val)
    }

    /// The blue channel, into `val`.
    fn read_blue_light(&mut self, val: &mut u16) -> (r: bool)
        requires
            old(self).wf(),
        ensures
            final(self).only_io(old(self)),
            reads_word(final(self).since(old(self)), APDS9960_BDATAL, APDS9960_BDATAH),
            r == word_ok(final(self).since(old(self))),
            *final(val) == (if r { word_value(final(self).since(old(self))) } else { *old(val) }),
    {
        self.read_word(APDS9960_BDATAL, APDS9960_BDATAH, val)
    }

    /// The low proximity interrupt threshold, into `threshold` (0 when unreadable).
    pub fn get_proximity_int_low_threshold(&mut self, threshold: &mut u8) -> (r: bool)
        requires
            old(self).wf(),
        ensures
            final(self).only_io(old(self)),
            final(self).since(old(self)).len() == 1,
            reads(final(self).since(old(self))[0], APDS9960_PILT),
            r == read_value(final(self).since(old(self))[0]) is Some,
            *final(threshold) == (if r { read_value(final(self).since(old(self))[0])->0 } else { 0 }),
    {
        *threshold = 0;
        self.read_byte_reg(APDS9960_PILT, threshold)
    }

    /// The high proximity interrupt threshold, into `threshold` (0 when unreadable).
    pub fn get_proximity_int_high_threshold(&mut self, threshold: &mut u8) -> (r: bool)
        requires
            old(self).wf(),
        ensures
            final(self).only_io(old(self)),
            final(self).since(old(self)).len() == 1,
            reads(final(self).since(old(self))[0], APDS9960_PIHT),
            r == read_value(final(self).since(old(self))[0]) is Some,
            *final(threshold) == (if r { read_value(final(self).since(old(self))[0])->0 } else { 0 }),
    {
        *threshold = 0;
        self.read_byte_reg(APDS9960_PIHT, threshold)
    }

    /// The proximity reading, into `val` (unchanged when unreadable).
    pub fn read_proximity(&mut self, val: &mut u8) -> (r: bool)
        requires
            old(self).wf(),
        ensures
            final(self).only_io(old(self)),
            final(self).since(old(self)).len() == 1,
            reads(final(self).since(old(self))[0], APDS9960_PDATA),
            r == read_value(final(self).since(old(self))[0]) is Some,
            *final(val) == (if r { read_value(final(self).since(old(self))[0])->0 } else { *old(val) }),
    {
        self.read_byte_reg(APDS9960_PDATA, val)
    }

    /// The clear channel, 0 when unreadable.
    pub fn get_ambient_light(&mut self) -> (r: u16)
        requires
            old(self).wf(),
        ensures
            final(self).only_io(old(self)),
            reads_word(final(self).since(old(self)), APDS9960_CDATAL, APDS9960_CDATAH),
            r == (if word_ok(final(self).since(old(self))) { word_value(final(self).since(old(self))) } else { 0 }),
    {
        let mut ambient_light: u16 = 0;
        if self.read_ambient_light(&mut ambient_light) {
            return ambient_light;
        }
        0
    }

    /// The red channel, 0 when unreadable.
    pub fn get_red_proportion(&mut self) -> (r: u16)
        requires
            old(self).wf(),
        ensures
            final(self).only_io(old(self)),
            reads_word(final(self).since(old(self)), APDS9960_RDATAL, APDS9960_RDATAH),
            r == (if word_ok(final(self).since(old(self))) { word_value(final(self).since(old(self))) } else { 0 }),
    {
        let mut light: u16 = 0;
        if !self.read_red_light(&mut light) {
            return 0;
        }
        light
    }

    /// The green channel, 0 when unreadable.
    pub fn get_green_proportion(&mut self) -> (r: u16)
        requires
            old(self).wf(),
        ensures
            final(self).only_io(old(self)),
            reads_word(final(self).since(old(self)), APDS9960_GDATAL, APDS9960_GDATAH),
            r == (if word_ok(final(self).since(old(self))) { word_value(final(self).since(old(self))) } else { 0 }),
    {
        let mut light: u16 = 0;
        if !self.read_green_light(&mut light) {
            return 0;
        }
        light
    }

    /// The blue channel, 0 when unreadable.
    pub fn get_blue_proportion(&mut self) -> (r: u16)
        requires
            old(self).wf(),
        ensures
            final(self).only_io(old(self)),
            reads_word(final(self).since(old(self)), APDS9960_BDATAL, APDS9960_BDATAH),
            r == (if word_ok(final(self).since(old(self))) { word_value(final(self).since(old(self))) } else { 0 }),
    {
        let mut light: u16 = 0;
        if !self.read_blue_light(&mut light) {
            return 0;
        }
        light
    }

    /// Clear the gesture engine.
    fn reset_gesture_parameters(&mut self)
        ensures
            final(self).gesture() == reset_gesture(old(self).gesture()),
            final(self).txns() == old(self).txns(),
            final(self).bus_ops() == old(self).bus_ops(),
            final(self).bus_before() == old(self).bus_before(),
            final(self).waits() == old(self).waits(),
            final(self).connected() == old(self).connected(),
            old(self).wf() ==> final(self).wf(),
    {
        self._gesture_data.index = 0;
        self._gesture_data.total_gestures = 0;
        self._gesture_ud_delta = 0;
        self._gesture_lr_delta = 0;
        self._gesture_ud_count = 0;
        self._gesture_lr_count = 0;
        self._gesture_near_count = 0;
        self._gesture_far_count = 0;
        self._gesture_state = 0;
        self._gesture_motion = Direction::DIR_NONE.code();
    }

    /// Compare the first and last strong samples collected, accumulate the
    /// changes, count swipes and near/far events.
    #[verifier::rlimit(40)]
    fn process_gesture_data(&mut self) -> (r: bool)
        requires
            gesture_bounded(old(self).gesture()),
            old(self).gesture().total <= 32,
        ensures
            (final(self).gesture(), r) == process_spec(old(self).gesture()),
            iabs(final(self).gesture().ud_delta as int) <= iabs(old(self).gesture().ud_delta as int) + 200,
            iabs(final(self).gesture().lr_delta as int) <= iabs(old(self).gesture().lr_delta as int) + 200,
            old(self).gesture().near_count <= final(self).gesture().near_count <= old(self).gesture().near_count + 1,
            old(self).gesture().far_count <= final(self).gesture().far_count <= old(self).gesture().far_count + 1,
            final(self).txns() == old(self).txns(),
            final(self).bus_ops() == old(self).bus_ops(),
            final(self).bus_before() == old(self).bus_before(),
            final(self).waits() == old(self).waits(),
            final(self).connected() == old(self).connected(),
            old(self).wf() ==> final(self).wf(),
    {
        let ghost v = self.gesture();
        let mut u_first: u8 = 0;
        let mut d_first: u8 = 0;
        let mut l_first: u8 = 0;
        let mut r_first: u8 = 0;
        let mut u_last: u8 = 0;
        let mut d_last: u8 = 0;
        let mut l_last: u8 = 0;
        let mut r_last: u8 = 0;
        let n = self._gesture_data.total_gestures;
        if n <= 4 {
            return false;
        }
        let ghost f = first_above(v, 0, n as int);
        let ghost la = last_above(v, n as int);
        let mut i: usize = 0;
        while i < n as usize
            invariant_except_break
                u_first == 0 && d_first == 0 && l_first == 0 && r_first == 0,
            invariant
                self.gesture() == v,
                n == v.total,
                n <= 32,
                gesture_bounded(v),
                i <= n,
                first_above(v, 0, n as int) == first_above(v, i as int, n as int),
            ensures
                i <= n,
                first_above(v, 0, n as int) == first_above(v, i as int, n as int),
                (i < n && above(v, i as int) && u_first == v.u[i as int] && d_first == v.d[i as int] && l_first
                    == v.l[i as int] && r_first == v.r[i as int]) || (i == n && u_first == 0 && d_first == 0
                    && l_first == 0 && r_first == 0),
            decreases n - i,
        {
            if (self._gesture_data.u_data[i] > GESTURE_THRESHOLD_OUT) && (self._gesture_data.d_data[i]
                > GESTURE_THRESHOLD_OUT) && (self._gesture_data.l_data[i] > GESTURE_THRESHOLD_OUT) && (
            self._gesture_data.r_data[i] > GESTURE_THRESHOLD_OUT) {
                u_first = self._gesture_data.u_data[i];
                d_first = self._gesture_data.d_data[i];
                l_first = self._gesture_data.l_data[i];
                r_first = self._gesture_data.r_data[i];
                break;
            }
            i += 1;
        }
        if (u_first == 0) || (d_first == 0) || (l_first == 0) || (r_first == 0) {
            assert(f == -1);
            return false;
        }
        assert(f == i && 0 <= f < n);
        let mut j: usize = n as usize;
        while j > 0
            invariant
                self.gesture() == v,
                n == v.total,
                n <= 32,
                gesture_bounded(v),
                0 <= f < n,
                above(v, f),
                j <= n,
                f < j,
                last_above(v, n as int) == last_above(v, j as int),
            ensures
                0 < j <= n,
                last_above(v, n as int) == last_above(v, j as int),
                above(v, j - 1),
                u_last == v.u[j - 1] && d_last == v.d[j - 1] && l_last == v.l[j - 1] && r_last == v.r[j - 1],
            decreases j,
        {
            if (self._gesture_data.u_data[j - 1] > GESTURE_THRESHOLD_OUT) && (self._gesture_data.d_data[j - 1]
                > GESTURE_THRESHOLD_OUT) && (self._gesture_data.l_data[j - 1] > GESTURE_THRESHOLD_OUT) && (
            self._gesture_data.r_data[j - 1] > GESTURE_THRESHOLD_OUT) {
                u_last = self._gesture_data.u_data[j - 1];
                d_last = self._gesture_data.d_data[j - 1];
                l_last = self._gesture_data.l_data[j - 1];
                r_last = self._gesture_data.r_data[j - 1];
                break;
            }
            j -= 1;
        }
        assert(la == j - 1 && 0 <= la);
        let ud_ratio_first: i32 = ((u_first as i32 - d_first as i32) * 100) / (u_first as i32 + d_first as i32);
        let lr_ratio_first: i32 = ((l_first as i32 - r_first as i32) * 100) / (l_first as i32 + r_first as i32);
        let ud_ratio_last: i32 = ((u_last as i32 - d_last as i32) * 100) / (u_last as i32 + d_last as i32);
        let lr_ratio_last: i32 = ((l_last as i32 - r_last as i32) * 100) / (l_last as i32 + r_last as i32);
        proof {
            lemma_ratio_bounds(u_first as int, d_first as int);
            lemma_ratio_bounds(l_first as int, r_first as int);
            lemma_ratio_bounds(u_last as int, d_last as int);
            lemma_ratio_bounds(l_last as int, r_last as int);
        }
        let ud_delta: i32 = ud_ratio_last - ud_ratio_first;
        let lr_delta: i32 = lr_ratio_last - lr_ratio_first;
        self._gesture_ud_delta += ud_delta;
        self._gesture_lr_delta += lr_delta;
        if self._gesture_ud_delta >= GESTURE_SENSITIVITY_1 {
            self._gesture_ud_count = 1;
        } else if self._gesture_ud_delta <= -GESTURE_SENSITIVITY_1 {
            self._gesture_ud_count = -1;
        } else {
            self._gesture_ud_count = 0;
        }
        if self._gesture_lr_delta >= GESTURE_SENSITIVITY_1 {
            self._gesture_lr_count = 1;
        } else if self._gesture_lr_delta <= -GESTURE_SENSITIVITY_1 {
            self._gesture_lr_count = -1;
        } else {
            self._gesture_lr_count = 0;
        }
        let ud_abs: i32 = if ud_delta < 0 {
            -ud_delta
        } else {
            ud_delta
        };
        let lr_abs: i32 = if lr_delta < 0 {
            -lr_delta
        } else {
            lr_delta
        };
        if (self._gesture_ud_count == 0) && (self._gesture_lr_count == 0) {
            if (ud_abs < GESTURE_SENSITIVITY_2) && (lr_abs < GESTURE_SENSITIVITY_2) {
                if (ud_delta == 0) && (lr_delta == 0) {
                    self._gesture_near_count += 1;
                } else if (ud_delta != 0) || (lr_delta != 0) {
                    self._gesture_far_count += 1;
                }
                if (self._gesture_near_count >= 10) && (self._gesture_far_count >= 2) {
                    if (ud_delta == 0) && (lr_delta == 0) {
                        self._gesture_state = GestureState::NEAR_STATE.code();
                    } else if (ud_delta != 0) && (lr_delta != 0) {
                        self._gesture_state = GestureState::FAR_STATE.code();
                    }
                    return true;
                }
            }
        } else {
            if (ud_abs < GESTURE_SENSITIVITY_2) && (lr_abs < GESTURE_SENSITIVITY_2) {
                if (ud_delta == 0) && (lr_delta == 0) {
                    self._gesture_near_count += 1;
                }
                if self._gesture_near_count >= 10 {
                    self._gesture_ud_count = 0;
                    self._gesture_lr_count = 0;
                    self._gesture_ud_delta = 0;
                    self._gesture_lr_delta = 0;
                }
            }
        }
        false
    }

    /// Turn the engine's counts into a motion; false when they name none.
    fn decode_gesture(&mut self) -> (r: bool)
        requires
            gesture_bounded(old(self).gesture()),
        ensures
            (final(self).gesture(), r) == decode_spec(old(self).gesture()),
            final(self).txns() == old(self).txns(),
            final(self).bus_ops() == old(self).bus_ops(),
            final(self).bus_before() == old(self).bus_before(),
            final(self).waits() == old(self).waits(),
            final(self).connected() == old(self).connected(),
            old(self).wf() ==> final(self).wf(),
    {
        if self._gesture_state == GestureState::NEAR_STATE.code() {
            self._gesture_motion = Direction::DIR_NEAR.code();
            return true;
        } else if self._gesture_state == GestureState::FAR_STATE.code() {
            self._gesture_motion = Direction::DIR_FAR.code();
            return true;
        }
        let ud = self._gesture_ud_count;
        let lr = self._gesture_lr_count;
        let ud_abs: i32 = if self._gesture_ud_delta < 0 {
            -self._gesture_ud_delta
        } else {
            self._gesture_ud_delta
        };
        let lr_abs: i32 = if self._gesture_lr_delta < 0 {
            -self._gesture_lr_delta
        } else {
            self._gesture_lr_delta
        };
        if (ud == -1) && (lr == 0) {
            self._gesture_motion = Direction::DIR_UP.code();
        } else if (ud == 1) && (lr == 0) {
            self._gesture_motion = Direction::DIR_DOWN.code();
        } else if (ud == 0) && (lr == 1) {
            self._gesture_motion = Direction::DIR_RIGHT.code();
        } else if (ud == 0) && (lr == -1) {
            self._gesture_motion = Direction::DIR_LEFT.code();
        } else if (ud == -1) && (lr == 1) {
            if ud_abs > lr_abs {
                self._gesture_motion = Direction::DIR_UP.code();
            } else {
                self._gesture_motion = Direction::DIR_RIGHT.code();
            }
        } else if (ud == 1) && (lr == -1) {
            if ud_abs > lr_abs {
                self._gesture_motion = Direction::DIR_DOWN.code();
            } else {
                self._gesture_motion = Direction::DIR_LEFT.code();
            }
        } else if (ud == -1) && (lr == -1) {
            if ud_abs > lr_abs {
                self._gesture_motion = Direction::DIR_UP.code();
            } else {
                self._gesture_motion = Direction::DIR_LEFT.code();
            }
        } else if (ud == 1) && (lr == 1) {
            if ud_abs > lr_abs {
                self._gesture_motion = Direction::DIR_DOWN.code();
            } else {
                self._gesture_motion = Direction::DIR_RIGHT.code();
            }
        } else {
            return false;
        }
        true
    }

    /// Store a FIFO batch of `c` bytes as sample quadruples.
    fn sort_batch(&mut self, fifo: &[u8; 128], c: i8)
        requires
            4 <= c <= 124,
            old(self).gesture().index == 0,
            old(self).gesture().total == 0,
            old(self).gesture().u.len() == 32,
            old(self).gesture().d.len() == 32,
            old(self).gesture().l.len() == 32,
            old(self).gesture().r.len() == 32,
        ensures
            final(self).gesture() == sorted(old(self).gesture(), fifo@, c as int),
            final(self).txns() == old(self).txns(),
            final(self).bus_ops() == old(self).bus_ops(),
            final(self).bus_before() == old(self).bus_before(),
            final(self).waits() == old(self).waits(),
            final(self).connected() == old(self).connected(),
            old(self).wf() ==> final(self).wf(),
    {
        let ghost v = self.gesture();
        let mut gd = self._gesture_data;
        let mut i: i8 = 0;
        while i < c
            invariant
                4 <= c <= 124,
                0 <= i <= c + 3,
                i % 4 == 0,
                i <= 124,
                gd.index as int == i / 4,
                gd.total_gestures as int == i / 4,
                gd.u_data@ == sorted(v, fifo@, i as int).u,
                gd.d_data@ == sorted(v, fifo@, i as int).d,
                gd.l_data@ == sorted(v, fifo@, i as int).l,
                gd.r_data@ == sorted(v, fifo@, i as int).r,
                v.u.len() == 32 && v.d.len() == 32 && v.l.len() == 32 && v.r.len() == 32,
                fifo@.len() == 128,
            decreases c + 4 - i,
        {
            let idx = gd.index as usize;
            gd.u_data[idx] = fifo[i as usize];
            gd.d_data[idx] = fifo[(i + 1) as usize];
            gd.l_data[idx] = fifo[(i + 2) as usize];
            gd.r_data[idx] = fifo[(i + 3) as usize];
            gd.index += 1;
            gd.total_gestures += 1;
            i += 4;
            assert(gd.u_data@ =~= sorted(v, fifo@, i as int).u);
            assert(gd.d_data@ =~= sorted(v, fifo@, i as int).d);
            assert(gd.l_data@ =~= sorted(v, fifo@, i as int).l);
            assert(gd.r_data@ =~= sorted(v, fifo@, i as int).r);
        }
        assert((i as int + 3) / 4 == (c as int + 3) / 4);
        assert(sorted(v, fifo@, i as int) == sorted(v, fifo@, c as int));
        self._gesture_data = gd;
    }

    /// A FIFO batch through the engine: stored, processed, decoded on a
    /// near/far gesture, the samples dropped.
    fn run_batch(&mut self, fifo: &[u8; 128], c: i8, Ghost(n): Ghost<nat>, Ghost(v0): Ghost<GestureView>)
        requires
            4 <= c <= 124,
            gesture_calm(v0),
            loop_bounded(v0, old(self).gesture(), n),
            n < 10,
        ensures
            final(self).gesture() == batch(old(self).gesture(), fifo@, c as int),
            loop_bounded(v0, final(self).gesture(), n + 1),
            final(self).txns() == old(self).txns(),
            final(self).bus_ops() == old(self).bus_ops(),
            final(self).bus_before() == old(self).bus_before(),
            final(self).waits() == old(self).waits(),
            final(self).connected() == old(self).connected(),
            old(self).wf() ==> final(self).wf(),
    {
        let ghost v0 = self.gesture();
        self.sort_batch(fifo, c);
        let ghost v1 = self.gesture();
        let hit = self.process_gesture_data();
        let ghost v2 = self.gesture();
        if hit {
            if self.decode_gesture() {
            }
        }
        self._gesture_data.index = 0;
        self._gesture_data.total_gestures = 0;
        assert(self.gesture() == batch(v0, fifo@, c as int));
    }

    /// Read a gesture from the chip: if it holds a valid gesture with
    /// power and gesture sensing on, pause and read the FIFO while its data
    /// stays valid, feeding each batch to the engine; then report the
    /// decoded motion, a timeout after 10 passes, or `ERROR` on a failed
    /// read.
    #[verifier::rlimit(60)]
    fn read_gesture(&mut self) -> (r: i32)
        requires
            old(self).wf(),
            gesture_calm(old(self).gesture()),
        ensures
            loop_bounded(old(self).gesture(), final(self).gesture(), 10),
            final(self).waits().len() <= old(self).waits().len() + 11,
            final(self).after(old(self)),
            final(self).connected() == old(self).connected(),
            old(self).waits().len() <= final(self).waits().len(),
            final(self).waits().take(old(self).waits().len() as int) == old(self).waits(),
            gesture_read(
                old(self).gesture(),
                final(self).since(old(self)),
                final(self).waits().skip(old(self).waits().len() as int),
                r,
                final(self).gesture(),
            ),
    {
        let ghost o = *self;
        let mut fifo_level: u8 = 0;
        let mut fifo_data: [u8; 128] = [0u8; 128];
        let mut gstatus: u8;
        let mut time_cnt: u32 = 0;
        if !self.is_gesture_available() {
            proof {
                assert(self.waits().take(o.waits().len() as int) =~= o.waits());
                assert(self.waits().skip(o.waits().len() as int) =~= Seq::<u16>::empty());
            }
            return Direction::DIR_NONE.code();
        }
        let ghost m1 = *self;
        let mode = self.get_mode();
        proof {
            Self::lemma_after_trans(&o, &m1, self);
            assert(self.since(&o)[1] == self.since(&m1)[0]);
            assert(field_or_error(self.since(&o)[1], 0xFF, 0) == mode) by {
                let t = self.since(&o)[1];
                if read_value(t) is Some {
                    let vv = read_value(t)->0;
                    assert(vv & 0xFF == vv && vv >> 0u8 == vv) by (bit_vector);
                }
            }
        }
        if (mode & (GEN_EN_MSK | PON_EN_MSK)) == 0 {
            proof {
                assert(self.waits().take(o.waits().len() as int) =~= o.waits());
                assert(self.waits().skip(o.waits().len() as int) =~= Seq::<u16>::empty());
            }
            return Direction::DIR_NONE.code();
        }
        let ghost m2 = *self;
        let ghost pre = self.since(&o);
        let ghost s0 = gloop0(o.gesture());
        let ghost mut n: nat = 0;
        proof {
            assert(fifo_data@ =~= Seq::new(128, |i: int| 0u8));
            assert(self.since(&m2) =~= Seq::<Txn>::empty());
            assert(self.txns().take(m2.txns().len() as int) =~= m2.txns());
            assert(pauses(0) =~= Seq::<u16>::empty());
            assert(self.waits() =~= m2.waits() + pauses(0));
        }
        loop
            invariant
                o == *old(self),
                m2.after(&o),
                self.after(&m2),
                pre == m2.since(&o),
                pre.len() == 2,
                reads(pre[0], APDS9960_GSTATUS),
                flag_set(pre[0], GSTS_GVALID_MSK, GSTS_GVALID_POS),
                reads(pre[1], APDS9960_ENABLE),
                (field_or_error(pre[1], 0xFF, 0) & (GEN_EN_MSK | PON_EN_MSK)) != 0,
                m2.waits() == o.waits(),
                m2.gesture() == o.gesture(),
                s0 == gloop0(o.gesture()),
                self.connected() == o.connected(),
                time_cnt as int == n,
                n <= 10,
                runs_to(s0, self.since(&m2), GLoop { view: self.gesture(), fifo: fifo_data@, cnt: n as int }, n),
                self.waits() == m2.waits() + pauses(n),
                gesture_calm(o.gesture()),
                loop_bounded(o.gesture(), self.gesture(), n),
            decreases 11 - time_cnt,
        {
            let ghost cur = GLoop { view: self.gesture(), fifo: fifo_data@, cnt: n as int };
            let ghost p0 = *self;
            assert(pauses(1) =~= seq![FIFO_PAUSE_TIME]);
            assert(pauses(2) =~= seq![FIFO_PAUSE_TIME, FIFO_PAUSE_TIME]);
            self.delay.delay_ms(FIFO_PAUSE_TIME);
            time_cnt += 1;
            gstatus = 0;
            let ok = self.read_byte_reg(APDS9960_GSTATUS, &mut gstatus);
            let ghost q1 = *self;
            if !ok {
                proof {
                    assert(self.waits() =~= p0.waits() + pauses(1));
                    Self::lemma_gesture_done(o, m2, p0, *self, cur, n, ERROR as i32, false);
                }
                return ERROR as i32;
            }
            if ((gstatus & GSTS_GVALID_MSK) == GSTS_GVALID_MSK) && (time_cnt <= 10) {
                let ok2 = self.read_byte_reg(APDS9960_GFLVL, &mut fifo_level);
                proof {
                    Self::lemma_after_trans(&p0, &q1, self);
                    assert(self.since(&p0)[1] == self.since(&q1)[0]);
                }
                if !ok2 {
                    proof {
                        assert(self.waits() =~= p0.waits() + pauses(1));
                        Self::lemma_gesture_done(o, m2, p0, *self, cur, n, ERROR as i32, false);
                    }
                    return ERROR as i32;
                }
                if fifo_level > 0 {
                    if fifo_level >= 64 {
                        proof {
                            assert(self.waits() =~= p0.waits() + pauses(1));
                            Self::lemma_gesture_done(o, m2, p0, *self, cur, n, ERROR as i32, false);
                        }
                        return ERROR as i32;
                    }
                    let ghost q2 = *self;
                    let bytes_read = self.read_multi_bytes_reg(APDS9960_GFIFO_U, fifo_level * 4, &mut fifo_data);
                    proof {
                        Self::lemma_after_trans(&p0, &q2, self);
                        assert(self.since(&p0)[2] == self.since(&q2)[0]);
                        assert(self.since(&p0)[1] == q2.since(&p0)[1]);
                        assert(self.since(&p0)[0] == q2.since(&p0)[0]);
                    }
                    if bytes_read == -1 {
                        proof {
                            assert(self.waits() =~= p0.waits() + pauses(1));
                            Self::lemma_gesture_done(o, m2, p0, *self, cur, n, ERROR as i32, false);
                        }
                        return ERROR as i32;
                    }
                    if bytes_read >= 4 {
                        self.run_batch(&fifo_data, bytes_read, Ghost(n), Ghost(o.gesture()));
                    }
                } 
                proof {
                    assert(pauses(1) =~= seq![FIFO_PAUSE_TIME]);
                    assert(self.waits() =~= p0.waits() + pauses(1));
                    Self::lemma_gesture_continue(m2, p0, *self, s0, cur, n, GLoop { view: self.gesture(), fifo: fifo_data@, cnt: (n + 1) as int });
                    n = n + 1;
                }
            } else {
                let motion: i32;
                if time_cnt >= 10 {
                    motion = Direction::TIMEOUT.code();
                    proof {
                        assert(self.waits() =~= p0.waits() + pauses(1));
                        Self::lemma_gesture_done(o, m2, p0, *self, cur, n, motion, false);
                    }
                } else {
                    self.delay.delay_ms(FIFO_PAUSE_TIME);
                    self.decode_gesture();
                    motion = self._gesture_motion;
                    self.reset_gesture_parameters();
                    proof {
                        assert(self.waits() =~= p0.waits() + pauses(2));
                        Self::lemma_gesture_done(o, m2, p0, *self, cur, n, motion, true);
                    }
                }
                return motion;
            }
        }
    }

    /// The name of the gesture read: "UP", "DOWN", "LEFT", "RIGHT", "NEAR",
    /// "FAR", "TIMEOUT", or "NONE" when the chip holds none (or the read
    /// failed).
    pub fn get_gesture(&mut self) -> (r: &'static str)
        requires
            old(self).wf(),
            gesture_calm(old(self).gesture()),
        ensures
            loop_bounded(old(self).gesture(), final(self).gesture(), 10),
            final(self).waits().len() <= old(self).waits().len() + 11,
            final(self).after(old(self)),
            final(self).connected() == old(self).connected(),
            final(self).since(old(self)).len() >= 1,
            reads(final(self).since(old(self))[0], APDS9960_GSTATUS),
            !flag_set(final(self).since(old(self))[0], GSTS_GVALID_MSK, GSTS_GVALID_POS) ==> {
                &&& final(self).since(old(self)).len() == 1
                &&& final(self).waits() == old(self).waits()
                &&& final(self).gesture() == old(self).gesture()
                &&& r@ == "NONE"@
            },
            flag_set(final(self).since(old(self))[0], GSTS_GVALID_MSK, GSTS_GVALID_POS) ==> exists|code: i32|
                #![trigger gesture_name(code)]
                gesture_read(
                    old(self).gesture(),
                    final(self).since(old(self)).skip(1),
                    final(self).waits().skip(old(self).waits().len() as int),
                    code,
                    final(self).gesture(),
                ) && r@ == gesture_name(code),
    {
        let ghost o = *self;
        let mut gesture: &'static str = "NONE";
        if self.is_gesture_available() {
            let ghost m1 = *self;
            let code = self.read_gesture();
            proof {
                Self::lemma_after_trans(&o, &m1, self);
                assert(self.since(&o).skip(1) =~= self.since(&m1));
                assert(self.waits().skip(o.waits().len() as int) =~= self.waits().skip(m1.waits().len() as int));
            }
            gesture = if code == Direction::DIR_UP.code() {
                "UP"
            } else if code == Direction::DIR_DOWN.code() {
                "DOWN"
            } else if code == Direction::DIR_LEFT.code() {
                "LEFT"
            } else if code == Direction::DIR_RIGHT.code() {
                "RIGHT"
            } else if code == Direction::DIR_NEAR.code() {
                "NEAR"
            } else if code == Direction::DIR_FAR.code() {
                "FAR"
            } else if code == Direction::TIMEOUT.code() {
                "TIMEOUT"
            } else {
                "NONE"
            };
            assert(gesture@ == gesture_name(code));
        }
        gesture
    }

    proof fn lemma_gesture_done(o: Self, m2: Self, p0: Self, fin: Self, cur: GLoop, n: nat, r: i32, extra: bool)
        requires
            m2.after(&o),
            p0.after(&m2),
            fin.after(&p0),
            m2.since(&o).len() == 2,
            reads(m2.since(&o)[0], APDS9960_GSTATUS),
            flag_set(m2.since(&o)[0], GSTS_GVALID_MSK, GSTS_GVALID_POS),
            reads(m2.since(&o)[1], APDS9960_ENABLE),
            (field_or_error(m2.since(&o)[1], 0xFF, 0) & (GEN_EN_MSK | PON_EN_MSK)) != 0,
            m2.waits() == o.waits(),
            runs_to(gloop0(o.gesture()), p0.since(&m2), cur, n),
            finishes(cur, fin.since(&p0), r, fin.gesture(), extra),
            p0.waits() == m2.waits() + pauses(n),
            fin.waits() == p0.waits() + pauses(1 + if extra { 1nat } else { 0nat }),
        ensures
            fin.after(&o),
            o.waits().len() <= fin.waits().len(),
            fin.waits().take(o.waits().len() as int) == o.waits(),
            gesture_read(o.gesture(), fin.since(&o), fin.waits().skip(o.waits().len() as int), r, fin.gesture()),
    {
        Self::lemma_after_trans(&o, &m2, &p0);
        Self::lemma_after_trans(&o, &p0, &fin);
        let t = fin.since(&o);
        let k: int = 2 + p0.since(&m2).len() as int;
        assert(t =~= m2.since(&o) + p0.since(&m2) + fin.since(&p0));
        assert(t.subrange(2, k) =~= p0.since(&m2));
        assert(t.skip(k) =~= fin.since(&p0));
        assert(t[0] == m2.since(&o)[0]);
        assert(t[1] == m2.since(&o)[1]);
        let x: nat = if extra { 1nat } else { 0nat };
        assert(pauses(n) + pauses(1 + x) =~= pauses(n + 1 + x));
        assert(fin.waits() =~= o.waits() + pauses(n + 1 + x));
        assert(fin.waits().take(o.waits().len() as int) =~= o.waits());
        assert(fin.waits().skip(o.waits().len() as int) =~= pauses(n + 1 + x));
        assert(runs_to(gloop0(o.gesture()), t.subrange(2, k), cur, n));
        assert(finishes(cur, t.skip(k), r, fin.gesture(), extra));
    }

    proof fn lemma_gesture_continue(m2: Self, p0: Self, fin: Self, s0: GLoop, cur: GLoop, n: nat, next: GLoop)
        requires
            p0.after(&m2),
            fin.after(&p0),
            runs_to(s0, p0.since(&m2), cur, n),
            fin.since(&p0).len() > 0,
            pass_shape(cur, fin.since(&p0)),
            pass(cur, fin.since(&p0)) == PassOut::Continue(next),
            p0.waits() == m2.waits() + pauses(n),
            fin.waits() == p0.waits() + pauses(1),
        ensures
            fin.after(&m2),
            runs_to(s0, fin.since(&m2), next, n + 1),
            fin.waits() == m2.waits() + pauses(n + 1),
    {
        Self::lemma_after_trans(&m2, &p0, &fin);
        lemma_runs_to_extend(s0, p0.since(&m2), cur, n, fin.since(&p0), next);
        assert(pauses(n) + pauses(1) =~= pauses(n + 1));
        assert(fin.waits() =~= m2.waits() + pauses(n + 1));
    }

    /// Probe the chip; when it answers and was not connected before, set
    /// it up (`begin`, ambient light and proximity sensing with their
    /// interrupts off, proximity gain 2x; their results ignored) and pause
    /// 500 ms. Whether it answered becomes the connection flag.
    pub fn ping(&mut self) -> (r: bool)
        requires
            old(self).wf(),
        ensures
            final(self).after(old(self)),
            final(self).connected() == r,
            final(self).since(old(self)).len() >= 1,
            final(self).since(old(self))[0] is Probe,
            r == acked(final(self).since(old(self))[0]),
            if !old(self).connected() && r {
                &&& final(self).waits() == old(self).waits().push(500)
                &&& exists|t1: Seq<Txn>, t2: Seq<Txn>, t3: Seq<Txn>, t4: Seq<Txn>|
                    #![trigger ran(begin_program(), t1), ran(als_on_program(State::DISABLE), t2), ran(prox_on_program(State::DISABLE), t3), ran(seq![set_field2(APDS9960_CONTROL, PRX_GAIN_MSK, PRX_GAIN_POS, PGAIN_2X)], t4)]
                    final(self).since(old(self)).skip(1) == t1 + t2 + t3 + t4 && ran(begin_program(), t1) && ran(
                        als_on_program(State::DISABLE),
                        t2,
                    ) && ran(prox_on_program(State::DISABLE), t3) && ran(
                        seq![set_field2(APDS9960_CONTROL, PRX_GAIN_MSK, PRX_GAIN_POS, PGAIN_2X)],
                        t4,
                    )
                &&& final(self).gesture() == old(self).gesture()
            } else {
                &&& final(self).since(old(self)).len() == 1
                &&& final(self).waits() == old(self).waits()
                &&& final(self).gesture() == old(self).gesture()
            },
    {
        let ghost o = *self;
        let get_connect_sts = self.write_address();
        if !self._is_connected && get_connect_sts {
            let ghost q0 = *self;
            let b = self.begin();
            let ghost q1 = *self;
            let a = self.enable_ambient_light_sensor(State::DISABLE);
            let ghost q2 = *self;
            let p = self.enable_proximity_sensor(State::DISABLE);
            let ghost q3 = *self;
            let g = self.set_proximity_gain(PGAIN_2X);
            let ghost q4 = *self;
            self.delay.delay_ms(500);
            proof {
                Self::lemma_after_trans(&o, &q0, &q1);
                Self::lemma_after_trans(&o, &q1, &q2);
                Self::lemma_after_trans(&o, &q2, &q3);
                Self::lemma_after_trans(&o, &q3, &q4);
                assert(q4.since(&o) =~= q0.since(&o) + q1.since(&q0) + q2.since(&q1) + q3.since(&q2) + q4.since(&q3));
                assert(q4.since(&o).skip(1) =~= q1.since(&q0) + q2.since(&q1) + q3.since(&q2) + q4.since(&q3));
                assert(ran(begin_program(), q1.since(&q0)));
                assert(ran(als_on_program(State::DISABLE), q2.since(&q1)));
                assert(ran(prox_on_program(State::DISABLE), q3.since(&q2)));
                assert(seq![Action::Update(APDS9960_CONTROL, PRX_GAIN_MSK, (PGAIN_2X & 0x03) << PRX_GAIN_POS)] =~= seq![set_field2(APDS9960_CONTROL, PRX_GAIN_MSK, PRX_GAIN_POS, PGAIN_2X)]);
                assert(ran(seq![set_field2(APDS9960_CONTROL, PRX_GAIN_MSK, PRX_GAIN_POS, PGAIN_2X)], q4.since(&q3)));
            }
        }
        self._is_connected = get_connect_sts;
        get_connect_sts
    }

    /// The red, green and blue channels; a channel that cannot be read
    /// reads 0 and stops the reading.
    pub fn get_rgb_proportion(&mut self) -> (r: RgbColor)
        requires
            old(self).wf(),
        ensures
            final(self).only_io(old(self)),
            rgb_reads(final(self).since(old(self)), r),
    {
        let ghost o = *self;
        let mut color = RgbColor { red: 0, green: 0, blue: 0 };
        if self.read_red_light(&mut color.red) {
            let ghost q1 = *self;
            if self.read_green_light(&mut color.green) {
                let ghost q2 = *self;
                self.read_blue_light(&mut color.blue);
                proof {
                    Self::lemma_after_trans(&o, &q1, &q2);
                    Self::lemma_after_trans(&o, &q2, self);
                    assert(self.since(&o) =~= q1.since(&o) + q2.since(&q1) + self.since(&q2));
                    assert(self.since(&o).take(word_len(self.since(&o))) =~= q1.since(&o));
                    assert(self.since(&o).skip(word_len(self.since(&o))) =~= q2.since(&q1) + self.since(&q2));
                    let t2 = self.since(&o).skip(word_len(self.since(&o)));
                    assert(t2.take(word_len(t2)) =~= q2.since(&q1));
                    assert(t2.skip(word_len(t2)) =~= self.since(&q2));
                }
            } else {
                proof {
                    Self::lemma_after_trans(&o, &q1, self);
                    assert(self.since(&o).take(word_len(self.since(&o))) =~= q1.since(&o));
                    assert(self.since(&o).skip(word_len(self.since(&o))) =~= self.since(&q1));
                    let t2 = self.since(&o).skip(word_len(self.since(&o)));
                    assert(t2.take(word_len(t2)) =~= t2);
                    assert(t2.skip(word_len(t2)) =~= Seq::<Txn>::empty());
                }
            }
        } else {
            proof {
                assert(self.since(&o).take(word_len(self.since(&o))) =~= self.since(&o));
                assert(self.since(&o).skip(word_len(self.since(&o))) =~= Seq::<Txn>::empty());
            }
        }
        color
    }

    /// Append `t` to the log, the bus having done its operations since `o0`.
    fn log_txn(&mut self, Ghost(o0): Ghost<Seq<I2cOp>>, Ghost(t): Ghost<Txn>)
        requires
            old(self)._i2c_slave_address == APDS9960_I2C_ADDRESS,
            o0 == old(self).base@ + txns_ops(APDS9960_I2C_ADDRESS, old(self).log@),
            old(self).i2c.ops() == o0 + txn_ops(APDS9960_I2C_ADDRESS, t),
        ensures
            final(self).wf(),
            final(self).txns() == old(self).txns().push(t),
            final(self).after(old(self)),
            final(self).since(old(self)) == seq![t],
            final(self).bus_before() == old(self).bus_before(),
            final(self).waits() == old(self).waits(),
            final(self).connected() == old(self).connected(),
            final(self).gesture() == old(self).gesture(),
    {
        proof {
            lemma_txns_ops_push(APDS9960_I2C_ADDRESS, self.log@, t);
        }
        let ghost l0 = self.log@;
        self.log = Ghost(self.log@.push(t));
        assert(self.i2c.ops() =~= self.base@ + txns_ops(APDS9960_I2C_ADDRESS, self.log@));
        assert(self.log@.take(l0.len() as int) =~= l0);
        assert(self.log@.skip(l0.len() as int) =~= seq![t]);
    }
}


} // verus!
