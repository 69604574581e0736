//! The vibration logger's decisions: severity buckets of the shake score,
//! the browser-synchronised clock, the sampling and publishing schedule on
//! wrapping timers, and the binary packet sent over BLE.
use vstd::prelude::*;

verus! {

/// Scores up to this count as still.
pub const STILL_SCORE_MAX: u16 = 5;
/// From this score on, the caution level.
pub const THRESH_CAUTION_SCORE: u16 = 25;
/// From this score on, the partial level.
pub const THRESH_PARTIAL_SCORE: u16 = 80;
/// From this score on, the severe level.
pub const THRESH_SEVERE_SCORE: u16 = 150;

/// The intensity bucket of a shake score: 0 still (0..=5), 1 light,
/// 2 caution (from 25), 3 partial (from 80), 4 severe (from 150).
pub open spec fn level_spec(score: u16) -> u8 {
    if score <= STILL_SCORE_MAX {
        0
    } else if score < THRESH_CAUTION_SCORE {
        1
    } else if score < THRESH_PARTIAL_SCORE {
        2
    } else if score < THRESH_SEVERE_SCORE {
        3
    } else {
        4
    }
}

/// The intensity bucket of a shake score.
pub fn level_from_score(score: u16) -> (r: u8)
    ensures
        r == level_spec(score),
        r <= 4,
{
    if score <= STILL_SCORE_MAX {
        return 0;
    }
    if score < THRESH_CAUTION_SCORE {
        return 1;
    }
    if score < THRESH_PARTIAL_SCORE {
        return 2;
    }
    if score < THRESH_SEVERE_SCORE {
        return 3;
    }
    4
}

/// A higher score never gives a lower level.
pub proof fn lemma_level_monotonic(a: u16, b: u16)
    requires
        a <= b,
    ensures
        level_spec(a) <= level_spec(b),
{
}

/// The name of an intensity level; anything above 3 is severe.
pub open spec fn label_spec(level: u8) -> Seq<char> {
    if level == 0 {
        "Still"@
    } else if level == 1 {
        "Light"@
    } else if level == 2 {
        "Caution"@
    } else if level == 3 {
        "Partial"@
    } else {
        "Severe"@
    }
}

/// The name of an intensity level.
pub fn level_label(level: u8) -> (r: &'static str)
    ensures
        r@ == label_spec(level),
{
    match level {
        0 => "Still",
        1 => "Light",
        2 => "Caution",
        3 => "Partial",
        _ => "Severe",
    }
}

/// Milliseconds per published window.
pub const WINDOW_MS: u32 = 500;
/// Milliseconds between attempts to find a missing motion sensor.
pub const PROBE_INTERVAL_MS: u32 = 2000;

/// The time from `last` to `now` on a 32-bit timer that wraps.
pub open spec fn since(now: u32, last: u32) -> u32 {
    vstd::wrapping::u32_specs::wrapping_sub(now, last)
}

/// Whether `period` has passed since `last`: the wrapped difference, read
/// as a signed 32-bit number, is at least `period`.
pub fn interval_due(now: u32, last: u32, period: u32) -> (r: bool)
    requires
        period <= i32::MAX,
    ensures
        r == (since(now, last) <= i32::MAX && since(now, last) >= period),
{
    let d = now.wrapping_sub(last);
    d <= 0x7fff_ffff && d >= period
}

/// A period is due exactly when that much time has passed since the last
/// mark, also when the timer wrapped in between (for elapsed times below
/// half the timer's range).
pub proof fn lemma_due_after_elapsed(last: u32, elapsed: u32, period: u32)
    requires
        period <= i32::MAX,
        elapsed <= i32::MAX,
    ensures
        since(vstd::wrapping::u32_specs::wrapping_add(last, elapsed), last) == elapsed,
        (since(vstd::wrapping::u32_specs::wrapping_add(last, elapsed), last) <= i32::MAX && since(
            vstd::wrapping::u32_specs::wrapping_add(last, elapsed),
            last,
        ) >= period) == (elapsed >= period),
{
}

/// Whether it is time to look for a missing motion sensor again.
pub fn probe_due(now: u32, last_probe: u32) -> (r: bool)
    ensures
        r == (since(now, last_probe) >= PROBE_INTERVAL_MS),
{
    now.wrapping_sub(last_probe) >= PROBE_INTERVAL_MS
}

/// Wall-clock time from the browser: the epoch milliseconds given at the
/// moment the uptime read `millis_base`.
#[derive(Clone, Copy, Debug, PartialEq, Eq, Structural)]
pub struct EpochClock {
    pub epoch_base_ms: u64,
    pub millis_base: u32,
    pub synced: bool,
}

impl EpochClock {
    /// Not synchronised.
    pub fn new() -> (r: Self)
        ensures
            r == (EpochClock { epoch_base_ms: 0, millis_base: 0, synced: false }),
    {
        EpochClock { epoch_base_ms: 0, millis_base: 0, synced: false }
    }

    /// The browser says it is `epoch_ms` while the uptime reads `now_millis`.
    pub fn set_epoch_ms(&mut self, epoch_ms: u64, now_millis: u32)
        ensures
            *final(self) == (EpochClock { epoch_base_ms: epoch_ms, millis_base: now_millis, synced: true }),
    {
        self.epoch_base_ms = epoch_ms;
        self.millis_base = now_millis;
        self.synced = true;
    }

    /// Epoch milliseconds when the uptime reads `now_millis`, or 0 before
    /// the first synchronisation.
    pub fn epoch_ms_or_zero(&self, now_millis: u32) -> (r: u64)
        requires
            self.synced ==> self.epoch_base_ms + since(now_millis, self.millis_base) <= u64::MAX,
        ensures
            r == if self.synced {
                self.epoch_base_ms + since(now_millis, self.millis_base)
            } else {
                0
            },
    {
        if !self.synced {
            return 0;
        }
        let delta = now_millis.wrapping_sub(self.millis_base);
        self.epoch_base_ms + delta as u64
    }
}

/// The packet's timestamp: whole seconds (kept to 32 bits) and the
/// milliseconds past them.
pub fn split_epoch(epoch_ms: u64) -> (r: (u32, u16))
    ensures
        r.0 == (epoch_ms / 1000) % 0x1_0000_0000,
        r.1 == epoch_ms % 1000,
{
    let secs = epoch_ms / 1000;
    ((secs % 0x1_0000_0000) as u32, (epoch_ms % 1000) as u16)
}

/// The notification sent each window.
#[derive(Clone, Copy, Debug, PartialEq, Eq, Structural)]
pub struct VibePacket {
    pub t_s: u32,
    pub t_ms: u16,
    pub rms_mg: u16,
    pub peak_mg: u16,
    pub shake_score: u16,
    pub temp_c_x100: i16,
    pub level: u8,
}

/// `v` held between `lo` and `hi`.
pub open spec fn clamp(v: int, lo: int, hi: int) -> int {
    if v < lo {
        lo
    } else if v > hi {
        hi
    } else {
        v
    }
}

fn clamp_i32(v: i32, lo: i32, hi: i32) -> (r: i32)
    requires
        lo <= hi,
    ensures
        r == clamp(v as int, lo as int, hi as int),
{
    if v < lo {
        lo
    } else if v > hi {
        hi
    } else {
        v
    }
}

/// The packet of a window. `vibe` holds the rounded RMS and peak in
/// milli-g, the shake score and the level when the motion sensor gave
/// samples; `temp_x100` the rounded temperature in hundredths of a degree
/// when one was read. Milli-g values are held to 0..65534 and the
/// temperature to ±32767; 65535 marks missing vibration (with level 0) and
/// -32768 a missing temperature.
pub fn vibe_packet(t_s: u32, t_ms: u16, vibe: Option<(i32, i32, u16, u8)>, temp_x100: Option<i32>) -> (r:
    VibePacket)
    ensures
        r.t_s == t_s,
        r.t_ms == t_ms,
        match vibe {
            Some((rms, peak, score, level)) => {
                &&& r.rms_mg == clamp(rms as int, 0, 65534)
                &&& r.peak_mg == clamp(peak as int, 0, 65534)
                &&& r.shake_score == score
                &&& r.level == level
            },
            None => r.rms_mg == 65535 && r.peak_mg == 65535 && r.shake_score == 65535 && r.level == 0,
        },
        r.temp_c_x100 == match temp_x100 {
            Some(t) => clamp(t as int, -32767, 32767),
            None => -32768,
        },
{
    let mut pkt = VibePacket { t_s, t_ms, rms_mg: 0, peak_mg: 0, shake_score: 0, temp_c_x100: 0, level: 0 };
    match vibe {
        Some((rms, peak, score, level)) => {
            pkt.rms_mg = clamp_i32(rms, 0, 65534) as u16;
            pkt.peak_mg = clamp_i32(peak, 0, 65534) as u16;
            pkt.shake_score = score;
            pkt.level = level;
        },
        None => {
            pkt.rms_mg = 65535;
            pkt.peak_mg = 65535;
            pkt.shake_score = 65535;
            pkt.level = 0;
        },
    }
    pkt.temp_c_x100 = match temp_x100 {
        Some(t) => clamp_i32(t, -32767, 32767) as i16,
        None => -32768,
    };
    pkt
}

/// The packet as sent: its fields in order, each little-endian, with the
/// temperature in two's complement.
pub open spec fn packet_bytes(p: VibePacket) -> Seq<u8> {
    let t: int = if p.temp_c_x100 < 0 {
        p.temp_c_x100 + 65536
    } else {
        p.temp_c_x100 as int
    };
    seq![
        (p.t_s % 256) as u8,
        ((p.t_s / 256) % 256) as u8,
        ((p.t_s / 65536) % 256) as u8,
        (p.t_s / 16777216) as u8,
        (p.t_ms % 256) as u8,
        (p.t_ms / 256) as u8,
        (p.rms_mg % 256) as u8,
        (p.rms_mg / 256) as u8,
        (p.peak_mg % 256) as u8,
        (p.peak_mg / 256) as u8,
        (p.shake_score % 256) as u8,
        (p.shake_score / 256) as u8,
        (t % 256) as u8,
        (t / 256) as u8,
        p.level,
    ]
}

impl VibePacket {
    /// The packet's fifteen bytes.
    pub fn to_bytes(&self) -> (r: Vec<u8>)
        ensures
            r@ == packet_bytes(*self),
    {
        let t: u16 = if self.temp_c_x100 < 0 {
            (self.temp_c_x100 as i32 + 65536) as u16
        } else {
            self.temp_c_x100 as u16
        };
        let v = vec![
            (self.t_s % 256) as u8,
            ((self.t_s / 256) % 256) as u8,
            ((self.t_s / 65536) % 256) as u8,
            (self.t_s / 16777216) as u8,
            (self.t_ms % 256) as u8,
            (self.t_ms / 256) as u8,
            (self.rms_mg % 256) as u8,
            (self.rms_mg / 256) as u8,
            (self.peak_mg % 256) as u8,
            (self.peak_mg / 256) as u8,
            (self.shake_score % 256) as u8,
            (self.shake_score / 256) as u8,
            (t % 256) as u8,
            (t / 256) as u8,
            self.level,
        ];
        assert(v@ =~= packet_bytes(*self));
        v
    }
}

} // verus!
