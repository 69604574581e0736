//! Driver of SSD1306 monochrome OLED displays over I2C, hardware SPI or
//! bit-banged SPI: a frame buffer of one bit per pixel, eight rows per
//! byte, and the command streams that set up, refresh and scroll the panel.
use vstd::prelude::*;
use crate::gfx::{Adafruit_GFX, DrawPixel, Pixel, fresh_gfx, vec_of, fill_run, fill_cells, tdiv, on_screen, i16_fits};

verus! {

/// Draw 'off' pixels.
pub const SSD1306_BLACK: u16 = 0;
/// Draw 'on' pixels.
pub const SSD1306_WHITE: u16 = 1;
/// Invert pixels.
pub const SSD1306_INVERSE: u16 = 2;

pub const BLACK: u16 = SSD1306_BLACK;
pub const WHITE: u16 = SSD1306_WHITE;
pub const INVERSE: u16 = SSD1306_INVERSE;

pub const SSD1306_MEMORYMODE: u8 = 0x20;
pub const SSD1306_COLUMNADDR: u8 = 0x21;
pub const SSD1306_PAGEADDR: u8 = 0x22;
pub const SSD1306_SETCONTRAST: u8 = 0x81;
pub const SSD1306_CHARGEPUMP: u8 = 0x8D;
pub const SSD1306_SEGREMAP: u8 = 0xA0;
pub const SSD1306_DISPLAYALLON_RESUME: u8 = 0xA4;
pub const SSD1306_DISPLAYALLON: u8 = 0xA5;
pub const SSD1306_NORMALDISPLAY: u8 = 0xA6;
pub const SSD1306_INVERTDISPLAY: u8 = 0xA7;
pub const SSD1306_SETMULTIPLEX: u8 = 0xA8;
pub const SSD1306_DISPLAYOFF: u8 = 0xAE;
pub const SSD1306_DISPLAYON: u8 = 0xAF;
pub const SSD1306_COMSCANINC: u8 = 0xC0;
pub const SSD1306_COMSCANDEC: u8 = 0xC8;
pub const SSD1306_SETDISPLAYOFFSET: u8 = 0xD3;
pub const SSD1306_SETDISPLAYCLOCKDIV: u8 = 0xD5;
pub const SSD1306_SETPRECHARGE: u8 = 0xD9;
pub const SSD1306_SETCOMPINS: u8 = 0xDA;
pub const SSD1306_SETVCOMDETECT: u8 = 0xDB;

pub const SSD1306_SETLOWCOLUMN: u8 = 0x00;
pub const SSD1306_SETHIGHCOLUMN: u8 = 0x10;
pub const SSD1306_SETSTARTLINE: u8 = 0x40;

/// External display voltage source.
pub const SSD1306_EXTERNALVCC: u8 = 0x01;
/// Display voltage generated from 3.3V.
pub const SSD1306_SWITCHCAPVCC: u8 = 0x02;

pub const SSD1306_RIGHT_HORIZONTAL_SCROLL: u8 = 0x26;
pub const SSD1306_LEFT_HORIZONTAL_SCROLL: u8 = 0x27;
pub const SSD1306_VERTICAL_AND_RIGHT_HORIZONTAL_SCROLL: u8 = 0x29;
pub const SSD1306_VERTICAL_AND_LEFT_HORIZONTAL_SCROLL: u8 = 0x2A;
pub const SSD1306_DEACTIVATE_SCROLL: u8 = 0x2E;
pub const SSD1306_ACTIVATE_SCROLL: u8 = 0x2F;
pub const SSD1306_SET_VERTICAL_SCROLL_AREA: u8 = 0xA3;

/// Bytes per I2C transmission (the Arduino core's buffer).
pub const WIRE_MAX: usize = 32;

/// One operation on an I2C bus.
#[derive(Clone, Copy, Debug, PartialEq, Eq, Structural)]
pub enum WireOp {
    Begin,
    BeginTransmission(u8),
    Write(u8),
    EndTransmission,
    SetClock(u32),
}

/// One operation on an SPI bus.
#[derive(Clone, Copy, Debug, PartialEq, Eq, Structural)]
pub enum SpiOp {
    Begin,
    Transfer(u8),
    BeginTransaction,
    EndTransaction,
}

/// One operation on the GPIO pins.
#[derive(Clone, Copy, Debug, PartialEq, Eq, Structural)]
pub enum GpioOp {
    PinModeOutput(i8),
    DigitalWrite(i8, bool),
}

/// An I2C bus; `ops` is what was done on it so far.
pub trait I2cBus {
    spec fn ops(&self) -> Seq<WireOp>;

    fn begin(&mut self)
        ensures
            final(self).ops() == old(self).ops().push(WireOp::Begin),
    ;

    fn begin_transmission(&mut self, addr: u8)
        ensures
            final(self).ops() == old(self).ops().push(WireOp::BeginTransmission(addr)),
    ;

    fn write_byte(&mut self, data: u8)
        ensures
            final(self).ops() == old(self).ops().push(WireOp::Write(data)),
    ;

    fn end_transmission(&mut self)
        ensures
            final(self).ops() == old(self).ops().push(WireOp::EndTransmission),
    ;

    fn set_clock(&mut self, freq: u32)
        ensures
            final(self).ops() == old(self).ops().push(WireOp::SetClock(freq)),
    ;
}

/// An SPI bus; `ops` is what was done on it so far.
pub trait SpiBus {
    spec fn ops(&self) -> Seq<SpiOp>;

    fn begin(&mut self)
        ensures
            final(self).ops() == old(self).ops().push(SpiOp::Begin),
    ;

    fn transfer(&mut self, data: u8) -> (r: u8)
        ensures
            final(self).ops() == old(self).ops().push(SpiOp::Transfer(data)),
    ;

    fn begin_transaction(&mut self)
        ensures
            final(self).ops() == old(self).ops().push(SpiOp::BeginTransaction),
    ;

    fn end_transaction(&mut self)
        ensures
            final(self).ops() == old(self).ops().push(SpiOp::EndTransaction),
    ;
}

/// GPIO pin control; `ops` is what was done on the pins so far.
pub trait GpioPin {
    spec fn ops(&self) -> Seq<GpioOp>;

    fn pin_mode_output(&mut self, pin: i8)
        ensures
            final(self).ops() == old(self).ops().push(GpioOp::PinModeOutput(pin)),
    ;

    fn digital_write(&mut self, pin: i8, value: bool)
        ensures
            final(self).ops() == old(self).ops().push(GpioOp::DigitalWrite(pin, value)),
    ;
}

/// A delay provider; `waits` are the delays asked for so far, in ms.
pub trait DelayProvider {
    spec fn waits(&self) -> Seq<u32>;

    fn delay_ms(&mut self, ms: u32)
        ensures
            final(self).waits() == old(self).waits().push(ms),
    ;
}

/// Which bus the SSD1306 is connected through.
pub enum SSD1306Bus<I: I2cBus, S: SpiBus> {
    I2C { wire: I, wire_clk: u32, restore_clk: u32 },
    HardwareSPI { spi: S, dc_pin: i8, cs_pin: i8 },
    SoftSPI { mosi_pin: i8, clk_pin: i8, dc_pin: i8, cs_pin: i8 },
}

/// The connection's settings, without the bus objects.
#[derive(Clone, Copy, Debug, PartialEq, Eq, Structural)]
pub enum BusConfig {
    I2C { wire_clk: u32, restore_clk: u32 },
    HardwareSPI { dc_pin: i8, cs_pin: i8 },
    SoftSPI { mosi_pin: i8, clk_pin: i8, dc_pin: i8, cs_pin: i8 },
}

/// A run of bytes sent in one go: display data (`true`) or commands.
pub type Segment = (bool, Seq<u8>);

/// The operations of `data` sent in I2C transmissions of at most
/// `WIRE_MAX` bytes, each led by the control byte `ctrl`, the last one not
/// yet ended.
pub open spec fn i2c_open(addr: u8, ctrl: u8, data: Seq<u8>) -> Seq<WireOp>
    decreases data.len(),
{
    let head = seq![WireOp::BeginTransmission(addr), WireOp::Write(ctrl)];
    if data.len() <= 31 {
        head + data.map_values(|b: u8| WireOp::Write(b))
    } else {
        head + data.take(31).map_values(|b: u8| WireOp::Write(b)) + seq![WireOp::EndTransmission] + i2c_open(
            addr,
            ctrl,
            data.skip(31),
        )
    }
}

/// The operations of `data` sent in I2C transmissions of at most
/// `WIRE_MAX` bytes, each led by the control byte `ctrl`.
pub open spec fn i2c_chunks(addr: u8, ctrl: u8, data: Seq<u8>) -> Seq<WireOp> {
    i2c_open(addr, ctrl, data).push(WireOp::EndTransmission)
}

/// What goes between byte `i - 1` and byte `i` of a chunked transmission:
/// a new transmission every 31 bytes.
pub open spec fn i2c_break(addr: u8, ctrl: u8, i: int) -> Seq<WireOp> {
    if i > 0 && i % 31 == 0 {
        seq![WireOp::EndTransmission, WireOp::BeginTransmission(addr), WireOp::Write(ctrl)]
    } else {
        seq![]
    }
}

proof fn lemma_i2c_open_step(addr: u8, ctrl: u8, d: Seq<u8>, i: int)
    requires
        0 <= i < d.len(),
    ensures
        i2c_open(addr, ctrl, d.take(i + 1)) == i2c_open(addr, ctrl, d.take(i)) + i2c_break(addr, ctrl, i) + seq![
            WireOp::Write(d[i]),
        ],
    decreases i,
{
    let head = seq![WireOp::BeginTransmission(addr), WireOp::Write(ctrl)];
    if i < 31 {
        assert(d.take(i + 1).map_values(|b: u8| WireOp::Write(b)) =~= d.take(i).map_values(|b: u8| WireOp::Write(b))
            + seq![WireOp::Write(d[i])]);
        assert(i2c_open(addr, ctrl, d.take(i + 1)) =~= i2c_open(addr, ctrl, d.take(i)) + i2c_break(addr, ctrl, i)
            + seq![WireOp::Write(d[i])]);
    } else if i == 31 {
        assert(d.take(32).take(31) =~= d.take(31));
        assert(d.take(32).skip(31) =~= seq![d[31]]);
        assert(seq![d[31]].map_values(|b: u8| WireOp::Write(b)) =~= seq![WireOp::Write(d[31])]);
        assert(i2c_open(addr, ctrl, d.take(32).skip(31)) =~= head + seq![WireOp::Write(d[31])]);
        assert(i2c_open(addr, ctrl, d.take(31)) =~= head + d.take(31).map_values(|b: u8| WireOp::Write(b)));
        assert(i2c_open(addr, ctrl, d.take(i + 1)) =~= i2c_open(addr, ctrl, d.take(i)) + i2c_break(addr, ctrl, i)
            + seq![WireOp::Write(d[i])]);
    } else {
        let d2 = d.skip(31);
        lemma_i2c_open_step(addr, ctrl, d2, i - 31);
        assert(d.take(i + 1).take(31) =~= d.take(31));
        assert(d.take(i).take(31) =~= d.take(31));
        assert(d.take(i + 1).skip(31) =~= d2.take(i - 31 + 1));
        assert(d.take(i).skip(31) =~= d2.take(i - 31));
        assert(d2[i - 31] == d[i]);
        assert(i2c_break(addr, ctrl, i - 31) == i2c_break(addr, ctrl, i)) by {
            assert((i - 31) % 31 == i % 31);
        }
        assert(i2c_open(addr, ctrl, d.take(i + 1)) =~= i2c_open(addr, ctrl, d.take(i)) + i2c_break(addr, ctrl, i)
            + seq![WireOp::Write(d[i])]);
    }
}

/// The pin writes that shift byte `d` out on a bit-banged bus, most
/// significant bit first, one clock pulse per bit.
pub open spec fn soft_spi_byte(mosi: i8, clk: i8, d: u8) -> Seq<GpioOp> {
    Seq::new(24, |k: int| {
        let bit = 7 - k / 3;
        if k % 3 == 0 {
            GpioOp::DigitalWrite(mosi, (d & (1u8 << (bit as u8))) != 0)
        } else {
            GpioOp::DigitalWrite(clk, k % 3 == 1)
        }
    })
}

/// The pin writes that shift `data` out on a bit-banged bus.
pub open spec fn soft_spi_bytes(mosi: i8, clk: i8, data: Seq<u8>) -> Seq<GpioOp>
    decreases data.len(),
{
    if data.len() == 0 {
        seq![]
    } else {
        soft_spi_bytes(mosi, clk, data.drop_last()) + soft_spi_byte(mosi, clk, data.last())
    }
}

/// What one segment puts on the I2C bus.
pub open spec fn wire_piece(cfg: BusConfig, addr: u8, s: Segment) -> Seq<WireOp> {
    match cfg {
        BusConfig::I2C { .. } => i2c_chunks(addr, if s.0 { 0x40u8 } else { 0u8 }, s.1),
        _ => seq![],
    }
}

/// What one segment puts on the hardware SPI bus.
pub open spec fn spi_piece(cfg: BusConfig, s: Segment) -> Seq<SpiOp> {
    match cfg {
        BusConfig::HardwareSPI { .. } => s.1.map_values(|b: u8| SpiOp::Transfer(b)),
        _ => seq![],
    }
}

/// What one segment puts on the pins: the data/command line, then (for a
/// bit-banged bus) the bits.
pub open spec fn gpio_piece(cfg: BusConfig, s: Segment) -> Seq<GpioOp> {
    match cfg {
        BusConfig::HardwareSPI { dc_pin, .. } => seq![GpioOp::DigitalWrite(dc_pin, s.0)],
        BusConfig::SoftSPI { mosi_pin, clk_pin, dc_pin, .. } => seq![GpioOp::DigitalWrite(dc_pin, s.0)]
            + soft_spi_bytes(mosi_pin, clk_pin, s.1),
        _ => seq![],
    }
}

pub open spec fn wire_pieces(cfg: BusConfig, addr: u8, segs: Seq<Segment>) -> Seq<WireOp>
    decreases segs.len(),
{
    if segs.len() == 0 {
        seq![]
    } else {
        wire_pieces(cfg, addr, segs.drop_last()) + wire_piece(cfg, addr, segs.last())
    }
}

pub open spec fn spi_pieces(cfg: BusConfig, segs: Seq<Segment>) -> Seq<SpiOp>
    decreases segs.len(),
{
    if segs.len() == 0 {
        seq![]
    } else {
        spi_pieces(cfg, segs.drop_last()) + spi_piece(cfg, segs.last())
    }
}

pub open spec fn gpio_pieces(cfg: BusConfig, segs: Seq<Segment>) -> Seq<GpioOp>
    decreases segs.len(),
{
    if segs.len() == 0 {
        seq![]
    } else {
        gpio_pieces(cfg, segs.drop_last()) + gpio_piece(cfg, segs.last())
    }
}

/// What a transaction carrying `segs` puts on the I2C bus: the fast clock,
/// the transmissions, the clock restored.
pub open spec fn wire_tx(cfg: BusConfig, addr: u8, segs: Seq<Segment>) -> Seq<WireOp> {
    match cfg {
        BusConfig::I2C { wire_clk, restore_clk } => seq![WireOp::SetClock(wire_clk)] + wire_pieces(cfg, addr, segs)
            + seq![WireOp::SetClock(restore_clk)],
        _ => seq![],
    }
}

/// What a transaction carrying `segs` puts on the hardware SPI bus.
pub open spec fn spi_tx(cfg: BusConfig, segs: Seq<Segment>) -> Seq<SpiOp> {
    match cfg {
        BusConfig::HardwareSPI { .. } => seq![SpiOp::BeginTransaction] + spi_pieces(cfg, segs) + seq![SpiOp::EndTransaction],
        _ => seq![],
    }
}

/// What a transaction carrying `segs` puts on the pins: chip select low,
/// the segments, chip select high.
pub open spec fn gpio_tx(cfg: BusConfig, segs: Seq<Segment>) -> Seq<GpioOp> {
    match cfg {
        BusConfig::HardwareSPI { cs_pin, .. } => seq![GpioOp::DigitalWrite(cs_pin, false)] + gpio_pieces(cfg, segs)
            + seq![GpioOp::DigitalWrite(cs_pin, true)],
        BusConfig::SoftSPI { cs_pin, .. } => seq![GpioOp::DigitalWrite(cs_pin, false)] + gpio_pieces(cfg, segs)
            + seq![GpioOp::DigitalWrite(cs_pin, true)],
        _ => seq![],
    }
}

/// A command segment.
pub open spec fn cmds(c: Seq<u8>) -> Segment {
    (false, c)
}


/// Byte `b` with the pixels of `mask` drawn in `color`: white sets them,
/// black clears them, inverse flips them, any other color leaves them.
pub open spec fn paint(b: u8, mask: u8, color: u16) -> u8 {
    if color == SSD1306_WHITE {
        b | mask
    } else if color == SSD1306_BLACK {
        b & !mask
    } else if color == SSD1306_INVERSE {
        b ^ mask
    } else {
        b
    }
}

/// A byte whose eight pixels are all drawn in `color` at once: inverse
/// flips them all, black clears them, any other color sets them.
pub open spec fn paint_full(b: u8, color: u16) -> u8 {
    if color == SSD1306_INVERSE {
        b ^ 0xFF
    } else if color != SSD1306_BLACK {
        0xFF
    } else {
        0
    }
}

/// Raw frame position of display pixel (x, y) under the rotation, as the
/// driver computes it; `None` when the 16-bit arithmetic would overflow.
pub open spec fn ssd_rotate(g: Adafruit_GFX, x: int, y: int) -> Option<(int, int)> {
    let w = g.WIDTH as int;
    let h = g.HEIGHT as int;
    if g.rotation == 1 {
        if i16_fits(w - y) && i16_fits(w - y - 1) {
            Some((w - y - 1, x))
        } else {
            None
        }
    } else if g.rotation == 2 {
        if i16_fits(w - x) && i16_fits(w - x - 1) && i16_fits(h - y) && i16_fits(h - y - 1) {
            Some((w - x - 1, h - y - 1))
        } else {
            None
        }
    } else if g.rotation == 3 {
        if i16_fits(h - x) && i16_fits(h - x - 1) {
            Some((y, h - x - 1))
        } else {
            None
        }
    } else {
        Some((x, y))
    }
}

/// The frame byte that holds raw pixel (rx, ry): column rx of page ry / 8
/// of a panel `w` columns wide.
pub open spec fn ssd_byte(w: int, rx: int, ry: int) -> int {
    rx + tdiv(ry, 8) * w
}

/// The bit of that byte: row ry % 8, least significant bit on top.
pub open spec fn ssd_bit(ry: i16) -> u8 {
    1u8 << ((ry & 7i16) as u8)
}

fn fits16(v: i32) -> (r: bool)
    ensures
        r == i16_fits(v as int),
{
    -32768 <= v && v <= 32767
}

fn row_bit(ry: i16) -> (r: u8)
    ensures
        r == ssd_bit(ry),
{
    assert(0 <= (ry & 7i16) < 8) by (bit_vector);
    1u8 << ((ry & 7) as u8)
}

/// The byte of raw pixel (rx, ry) is computed without overflow and lies in
/// a frame of `len` bytes.
pub open spec fn ssd_byte_ok(w: int, rx: int, ry: int, len: int) -> bool {
    i16_fits(tdiv(ry, 8) * w) && i16_fits(ssd_byte(w, rx, ry)) && 0 <= ssd_byte(w, rx, ry) < len
}

/// Drawing or reading display pixel (x, y) is well defined: off-screen
/// points are skipped, on-screen ones land in the frame.
pub open spec fn ssd_point_ok(g: Adafruit_GFX, len: int, x: int, y: int) -> bool {
    on_screen(g, x, y) ==> match ssd_rotate(g, x, y) {
        Some((rx, ry)) => i16_fits(ry) && ssd_byte_ok(g.WIDTH as int, rx, ry, len),
        None => false,
    }
}

/// The frame `f` after drawing display pixel (x, y) in `color` under the
/// rotation of `g`: one bit of one byte painted, or nothing off screen.
pub open spec fn pixel_drawn(g: Adafruit_GFX, f: Seq<u8>, x: int, y: int, color: u16) -> Seq<u8> {
    if on_screen(g, x, y) {
        let (rx, ry) = ssd_rotate(g, x, y)->0;
        let i = ssd_byte(g.WIDTH as int, rx, ry);
        f.update(i, paint(f[i], ssd_bit(ry as i16), color))
    } else {
        f
    }
}

/// Whether display pixel (x, y) is set in the frame `f`; false off screen.
pub open spec fn pixel_read(g: Adafruit_GFX, f: Seq<u8>, x: int, y: int) -> bool {
    on_screen(g, x, y) && {
        let (rx, ry) = ssd_rotate(g, x, y)->0;
        (f[ssd_byte(g.WIDTH as int, rx, ry)] & ssd_bit(ry as i16)) != 0
    }
}

/// Bit `k` of byte `b`.
pub open spec fn bit_of(b: u8, k: u8) -> u8 {
    (b >> k) & 1u8
}

proof fn lemma_byte_bits(b: u8, m: u8, k: u8, lo: u8, hi: u8, ry: i16)
    by (bit_vector)
    requires
        k < 8,
    ensures
        (b ^ m) ^ m == b,
        m != 0 ==> (b | m) & m != 0,
        (b & !m) & m == 0,
        (1u8 << ((ry & 7i16) as u8)) != 0,
        (m >> k) & 1u8 == 0 ==> ((b | m) >> k) & 1u8 == (b >> k) & 1u8 && ((b & !m) >> k) & 1u8 == (b >> k)
            & 1u8 && ((b ^ m) >> k) & 1u8 == (b >> k) & 1u8,
        (0xFFu8 >> k) & 1u8 == 1u8,
        (m >> k) & 1u8 <= 1u8,
        lo < hi && hi <= 8 ==> ((((0xFFu8 >> ((8 - (hi - lo)) as u8)) << lo) >> k) & 1u8 == 1u8) == (lo <= k
            && k < hi),
{
}

/// Drawing a pixel in inverse twice gives the frame back.
pub proof fn lemma_inverse_twice(g: Adafruit_GFX, f: Seq<u8>, x: int, y: int)
    requires
        ssd_point_ok(g, f.len() as int, x, y),
    ensures
        pixel_drawn(g, pixel_drawn(g, f, x, y, SSD1306_INVERSE), x, y, SSD1306_INVERSE) == f,
{
    if on_screen(g, x, y) {
        let (rx, ry) = ssd_rotate(g, x, y)->0;
        let i = ssd_byte(g.WIDTH as int, rx, ry);
        lemma_byte_bits(f[i], ssd_bit(ry as i16), 0, 0, 0, ry as i16);
        assert(pixel_drawn(g, pixel_drawn(g, f, x, y, SSD1306_INVERSE), x, y, SSD1306_INVERSE) =~= f);
    }
}

/// A pixel drawn white reads back as set, one drawn black as clear, and a
/// point off screen always reads as clear.
pub proof fn lemma_pixel_reads_back(g: Adafruit_GFX, f: Seq<u8>, x: int, y: int)
    requires
        ssd_point_ok(g, f.len() as int, x, y),
    ensures
        on_screen(g, x, y) ==> pixel_read(g, pixel_drawn(g, f, x, y, SSD1306_WHITE), x, y),
        !pixel_read(g, pixel_drawn(g, f, x, y, SSD1306_BLACK), x, y),
        !on_screen(g, x, y) ==> !pixel_read(g, f, x, y),
{
    if on_screen(g, x, y) {
        let (rx, ry) = ssd_rotate(g, x, y)->0;
        let i = ssd_byte(g.WIDTH as int, rx, ry);
        lemma_byte_bits(f[i], ssd_bit(ry as i16), 0, 0, 0, ry as i16);
    }
}

/// Whether raw bit `k` of frame byte `i` shows a pixel of the clipped
/// vertical run (x, y, h): the byte is in column x, and its row lies among
/// the run's rows.
pub open spec fn in_vrun(g: Adafruit_GFX, x: int, y: int, h: int, i: int, k: int) -> bool {
    match vrun(g, x, y, h) {
        Some((a, n)) => i % (g.WIDTH as int) == x && a <= (i / (g.WIDTH as int)) * 8 + k < a + n,
        None => false,
    }
}

proof fn lemma_page_bit(p: int, a: int, n: int, k: u8)
    requires
        k < 8,
    ensures
        (bit_of(page_bits(p, a, n), k) == 1) == (a <= 8 * p + k < a + n),
{
    let lo = if a - 8 * p > 0 {
        a - 8 * p
    } else {
        0
    };
    let hi = if a + n - 8 * p < 8 {
        a + n - 8 * p
    } else {
        8
    };
    if lo < hi {
        lemma_byte_bits(0, 0, k, lo as u8, hi as u8, 0);
        assert(bit_range(lo, hi) == ((0xFFu8 >> ((8 - (hi - lo)) as u8)) << (lo as u8)));
    } else {
        assert(bit_range(lo, hi) == 0);
        assert(bit_of(0, k) == 0) by (bit_vector)
            requires
                k < 8,
        ;
    }
}

proof fn lemma_paint_col_keeps(f: Seq<u8>, x: int, w: int, a: int, n: int, color: u16, pend: nat, i: int, k: u8)
    requires
        0 <= x < w,
        k < 8,
        0 <= i < f.len(),
        !(i % w == x && a <= (i / w) * 8 + k < a + n),
    ensures
        paint_col(f, x, w, a, n, color, pend).len() == f.len(),
        bit_of(paint_col(f, x, w, a, n, color, pend)[i], k) == bit_of(f[i], k),
    decreases pend,
{
    if pend > 0 {
        let p = pend - 1;
        lemma_paint_col_keeps(f, x, w, a, n, color, p as nat, i, k);
        let gg = paint_col(f, x, w, a, n, color, p as nat);
        let j = x + p * w;
        if j == i {
            vstd::arithmetic::div_mod::lemma_fundamental_div_mod_converse(i, w, p, x);
            lemma_page_bit(p, a, n, k);
            let m = page_bits(p, a, n);
            lemma_byte_bits(gg[i], m, k, 0, 0, 0);
            assert(i / w == p && i % w == x);
            assert(bit_of(m, k) == 0);
            assert(m != 0xFF);
            assert(paint_col(f, x, w, a, n, color, pend)[i] == paint(gg[i], m, color));
        }
    }
}

/// Drawing a vertical line changes only the pixels of its clipped run:
/// every other bit of the frame stays as it was.
pub proof fn lemma_vline_only_run(g: Adafruit_GFX, f: Seq<u8>, x: int, y: int, h: int, color: u16, i: int, k: u8)
    requires
        0 <= i < f.len(),
        k < 8,
        !in_vrun(g, x, y, h, i, k as int),
    ensures
        vrun_frame(g, f, x, y, h, color).len() == f.len(),
        bit_of(vrun_frame(g, f, x, y, h, color)[i], k) == bit_of(f[i], k),
{
    match vrun(g, x, y, h) {
        Some((a, n)) => {
            lemma_paint_col_keeps(f, x, g.WIDTH as int, a, n, color, ((a + n + 7) / 8) as nat, i, k);
        },
        None => {},
    }
}

/// The frame `f` with bytes `start .. start + n` painted with `mask` in `color`.
pub open spec fn paint_run(f: Seq<u8>, start: int, n: int, mask: u8, color: u16) -> Seq<u8> {
    Seq::new(f.len(), |i: int| if start <= i < start + n { paint(f[i], mask, color) } else { f[i] })
}

/// Where a raw horizontal run (x, y, w) lands after clipping to the panel:
/// its first byte and length; `None` when nothing is drawn.
pub open spec fn hrun(g: Adafruit_GFX, x: int, y: int, w: int) -> Option<(int, int)> {
    let width = g.WIDTH as int;
    let height = g.HEIGHT as int;
    if 0 <= y < height {
        let (cx, cw) = if x < 0 {
            (0, w + x)
        } else {
            (x, w)
        };
        let cw2 = if cx + cw > width {
            width - cx
        } else {
            cw
        };
        if cw2 > 0 {
            Some(((y / 8) * width + cx, cw2))
        } else {
            None
        }
    } else {
        None
    }
}

/// The raw horizontal run (x, y, w) is computed without overflow and lies
/// in a frame of `len` bytes.
pub open spec fn hrun_ok(g: Adafruit_GFX, len: int, x: int, y: int, w: int) -> bool {
    let width = g.WIDTH as int;
    let height = g.HEIGHT as int;
    0 <= y < height ==> {
        let (cx, cw) = if x < 0 {
            (0, w + x)
        } else {
            (x, w)
        };
        &&& i16_fits(cw)
        &&& i16_fits(cx + cw)
        &&& i16_fits(width - cx)
        &&& (match hrun(g, x, y, w) {
            Some((start, n)) => i16_fits((y / 8) * width) && i16_fits(start) && 0 <= start && start + n <= len,
            None => true,
        })
    }
}

/// The frame after the raw horizontal run (x, y, w) in `color`.
pub open spec fn hrun_frame(g: Adafruit_GFX, f: Seq<u8>, x: int, y: int, w: int, color: u16) -> Seq<u8> {
    match hrun(g, x, y, w) {
        Some((start, n)) => paint_run(f, start, n, ssd_bit(y as i16), color),
        None => f,
    }
}

/// Bits `lo` .. `hi` - 1 of a byte (0 <= lo, hi <= 8); row k of a page is bit k.
pub open spec fn bit_range(lo: int, hi: int) -> u8 {
    if lo >= hi {
        0
    } else {
        (0xFFu8 >> ((8 - (hi - lo)) as u8)) << (lo as u8)
    }
}

/// The rows of page `p` (rows 8p .. 8p + 7) among rows `a` .. `a + n - 1`.
pub open spec fn page_bits(p: int, a: int, n: int) -> u8 {
    let lo = if a - 8 * p > 0 {
        a - 8 * p
    } else {
        0
    };
    let hi = if a + n - 8 * p < 8 {
        a + n - 8 * p
    } else {
        8
    };
    bit_range(lo, hi)
}

/// A column's byte in page `p` after painting rows `a` .. `a + n - 1` of
/// the column in `color`: a fully covered byte at once, a partly covered one
/// pixel by pixel.
pub open spec fn paint_page(b: u8, p: int, a: int, n: int, color: u16) -> u8 {
    let m = page_bits(p, a, n);
    if m == 0xFF {
        paint_full(b, color)
    } else {
        paint(b, m, color)
    }
}

/// The frame after painting rows `a` .. `a + n - 1` of column `x`, in
/// pages 0 .. `pend` - 1 of a panel `w` columns wide.
pub open spec fn paint_col(f: Seq<u8>, x: int, w: int, a: int, n: int, color: u16, pend: nat) -> Seq<u8>
    decreases pend,
{
    if pend == 0 {
        f
    } else {
        let g = paint_col(f, x, w, a, n, color, (pend - 1) as nat);
        let i = x + (pend - 1) * w;
        if 0 <= i < g.len() {
            g.update(i, paint_page(g[i], pend - 1, a, n, color))
        } else {
            g
        }
    }
}

/// The rows a raw vertical run (x, y, h) paints after clipping to the
/// panel: first row and count, as 8-bit values; `None` when nothing is drawn.
pub open spec fn vrun(g: Adafruit_GFX, x: int, y: int, h: int) -> Option<(int, int)> {
    let width = g.WIDTH as int;
    let height = g.HEIGHT as int;
    if 0 <= x < width {
        let (cy, ch) = if y < 0 {
            (0, h + y)
        } else {
            (y, h)
        };
        let ch2 = if cy + ch > height {
            height - cy
        } else {
            ch
        };
        if ch2 > 0 {
            Some((cy % 256, ch2 % 256))
        } else {
            None
        }
    } else {
        None
    }
}

/// The raw vertical run (x, y, h) is computed without overflow and its
/// pages lie in a frame of `len` bytes.
pub open spec fn vrun_ok(g: Adafruit_GFX, len: int, x: int, y: int, h: int) -> bool {
    let width = g.WIDTH as int;
    let height = g.HEIGHT as int;
    0 <= x < width ==> {
        let (cy, ch) = if y < 0 {
            (0, h + y)
        } else {
            (y, h)
        };
        &&& i16_fits(ch)
        &&& i16_fits(cy + ch)
        &&& i16_fits(height - cy)
        &&& (match vrun(g, x, y, h) {
            Some((a, n)) => i16_fits((a / 8) * width) && i16_fits((a / 8) * width + x) && x + ((a + n + 7) / 8 - 1)
                * width < len && x + ((a + n + 7) / 8) * width <= usize::MAX,
            None => true,
        })
    }
}

/// The frame after the raw vertical run (x, y, h) in `color`.
pub open spec fn vrun_frame(g: Adafruit_GFX, f: Seq<u8>, x: int, y: int, h: int, color: u16) -> Seq<u8> {
    match vrun(g, x, y, h) {
        Some((a, n)) => paint_col(f, x, g.WIDTH as int, a, n, color, ((a + n + 7) / 8) as nat),
        None => f,
    }
}

proof fn lemma_paint_zero(b: u8, color: u16)
    ensures
        paint(b, 0, color) == b,
{
    crate::bits::lemma_u8_low_bits();
    assert(b | 0 == b && b & !0u8 == b && b ^ 0 == b);
}

proof fn lemma_paint_col_before(f: Seq<u8>, x: int, w: int, a: int, n: int, color: u16, pend: nat)
    requires
        8 * pend <= a,
        n >= 0,
    ensures
        paint_col(f, x, w, a, n, color, pend) == f,
    decreases pend,
{
    if pend > 0 {
        lemma_paint_col_before(f, x, w, a, n, color, (pend - 1) as nat);
        let i = x + (pend - 1) * w;
        if 0 <= i < f.len() {
            lemma_paint_zero(f[i], color);
            assert(page_bits(pend - 1, a, n) == 0);
            assert(f.update(i, f[i]) =~= f);
        }
    }
}

/// The mask of the first, partly covered page of a run starting at row
/// `m` of its page and `n` rows long.
proof fn lemma_first_mask(m: u8, n: u8)
    requires
        1 <= m <= 7,
    ensures
        n < 8 - m ==> ((0xFFu8 << m) & (0xFFu8 >> ((8 - m - n) as u8))) == bit_range(m as int, (m + n) as int),
        n >= 8 - m ==> (0xFFu8 << m) == bit_range(m as int, 8),
{
    if n < 8 - m {
        assert(((0xFFu8 << m) & (0xFFu8 >> ((8 - m - n) as u8))) == (if m >= m + n { 0u8 } else { (0xFFu8 >> ((8 - n) as u8)) << m })) by (bit_vector)
            requires 1 <= m <= 7, n < 8 - m;
    } else {
        assert((0xFFu8 << m) == (0xFFu8 >> ((8 - (8 - m)) as u8)) << m) by (bit_vector)
            requires 1 <= m <= 7;
    }
}

proof fn lemma_full_mask()
    ensures
        bit_range(0, 8) == 0xFF,
{
    assert((0xFFu8 >> 0u8) << 0u8 == 0xFFu8) by (bit_vector);
}

/// The mask of the last, partly covered page: its first `r` rows.
proof fn lemma_last_mask(r: u8)
    requires
        1 <= r <= 7,
    ensures
        (0xFFu8 >> ((8 - r) as u8)) == bit_range(0, r as int),
        (0xFFu8 >> ((8 - r) as u8)) != 0xFF,
{
    assert((0xFFu8 >> ((8 - r) as u8)) == (0xFFu8 >> ((8 - r) as u8)) << 0u8) by (bit_vector);
    assert((0xFFu8 >> ((8 - r) as u8)) != 0xFF) by (bit_vector)
        requires 1 <= r <= 7;
}

/// Where a display run of `len` pixels from (x, y), vertical when `vert`,
/// goes under the rotation, as the driver computes it: drawn as a raw
/// vertical run (`true`) or horizontal one, from raw (rx, ry); `None` when
/// the 16-bit arithmetic would overflow.
pub open spec fn ssd_run(g: Adafruit_GFX, x: int, y: int, len: int, vert: bool) -> Option<(bool, int, int)> {
    let w = g.WIDTH as int;
    let h = g.HEIGHT as int;
    if g.rotation == 1 {
        if !(i16_fits(w - y) && i16_fits(w - y - 1)) {
            None
        } else if vert {
            if i16_fits(len - 1) && i16_fits(w - y - 1 - (len - 1)) {
                Some((false, w - y - 1 - (len - 1), x))
            } else {
                None
            }
        } else {
            Some((true, w - y - 1, x))
        }
    } else if g.rotation == 2 {
        if !(i16_fits(w - x) && i16_fits(w - x - 1) && i16_fits(h - y) && i16_fits(h - y - 1) && i16_fits(len - 1)) {
            None
        } else if vert {
            if i16_fits(h - y - 1 - (len - 1)) {
                Some((true, w - x - 1, h - y - 1 - (len - 1)))
            } else {
                None
            }
        } else {
            if i16_fits(w - x - 1 - (len - 1)) {
                Some((false, w - x - 1 - (len - 1), h - y - 1))
            } else {
                None
            }
        }
    } else if g.rotation == 3 {
        if !(i16_fits(h - x) && i16_fits(h - x - 1)) {
            None
        } else if vert {
            Some((false, y, h - x - 1))
        } else {
            if i16_fits(len - 1) && i16_fits(h - x - 1 - (len - 1)) {
                Some((true, y, h - x - 1 - (len - 1)))
            } else {
                None
            }
        }
    } else {
        Some((vert, x, y))
    }
}

/// The display run is computed without overflow and lands in a frame of
/// `flen` bytes.
pub open spec fn ssd_run_ok(g: Adafruit_GFX, flen: int, x: int, y: int, len: int, vert: bool) -> bool {
    match ssd_run(g, x, y, len, vert) {
        Some((v, rx, ry)) => if v {
            vrun_ok(g, flen, rx, ry, len)
        } else {
            hrun_ok(g, flen, rx, ry, len)
        },
        None => false,
    }
}

/// The frame after the display run in `color`.
pub open spec fn ssd_run_frame(g: Adafruit_GFX, f: Seq<u8>, x: int, y: int, len: int, vert: bool, color: u16) -> Seq<u8> {
    match ssd_run(g, x, y, len, vert) {
        Some((v, rx, ry)) => if v {
            vrun_frame(g, f, rx, ry, len, color)
        } else {
            hrun_frame(g, f, rx, ry, len, color)
        },
        None => f,
    }
}

/// The COM pins configuration for a panel size.
pub open spec fn init_com_pins(w: i16, h: i16) -> u8 {
    if w == 128 && h == 64 {
        0x12
    } else {
        0x02
    }
}

/// The contrast chosen for a panel size and voltage source.
pub open spec fn init_contrast(w: i16, h: i16, vcs: u8) -> u8 {
    if w == 128 && h == 32 {
        0x8F
    } else if w == 128 && h == 64 {
        if vcs == SSD1306_EXTERNALVCC {
            0x9F
        } else {
            0xCF
        }
    } else if w == 96 && h == 16 {
        if vcs == SSD1306_EXTERNALVCC {
            0x10
        } else {
            0xAF
        }
    } else {
        0x8F
    }
}

/// The initialisation commands for a `w` x `h` panel with voltage source `vcs`.
pub open spec fn init_segments(w: i16, h: i16, vcs: u8) -> Seq<Segment> {
    let ext = vcs == SSD1306_EXTERNALVCC;
    seq![
        cmds(seq![SSD1306_DISPLAYOFF, SSD1306_SETDISPLAYCLOCKDIV, 0x80, SSD1306_SETMULTIPLEX]),
        cmds(seq![(h - 1) as u8]),
        cmds(seq![SSD1306_SETDISPLAYOFFSET, 0x00, SSD1306_SETSTARTLINE, SSD1306_CHARGEPUMP]),
        cmds(seq![if ext { 0x10u8 } else { 0x14u8 }]),
        cmds(seq![SSD1306_MEMORYMODE, 0x00, SSD1306_SEGREMAP | 0x1, SSD1306_COMSCANDEC]),
        cmds(seq![SSD1306_SETCOMPINS]),
        cmds(seq![init_com_pins(w, h)]),
        cmds(seq![SSD1306_SETCONTRAST]),
        cmds(seq![init_contrast(w, h, vcs)]),
        cmds(seq![SSD1306_SETPRECHARGE]),
        cmds(seq![if ext { 0x22u8 } else { 0xF1u8 }]),
        cmds(seq![
            SSD1306_SETVCOMDETECT,
            0x40,
            SSD1306_DISPLAYALLON_RESUME,
            SSD1306_NORMALDISPLAY,
            SSD1306_DEACTIVATE_SCROLL,
            SSD1306_DISPLAYON,
        ]),
    ]
}

/// The pin set-up of `begin`: data/command and chip select (and, for a
/// bit-banged bus, data and clock) made outputs, the chip deselected.
pub open spec fn setup_gpio(cfg: BusConfig) -> Seq<GpioOp> {
    match cfg {
        BusConfig::HardwareSPI { dc_pin, cs_pin } => seq![
            GpioOp::PinModeOutput(dc_pin),
            GpioOp::PinModeOutput(cs_pin),
            GpioOp::DigitalWrite(cs_pin, true),
        ],
        BusConfig::SoftSPI { mosi_pin, clk_pin, dc_pin, cs_pin } => seq![
            GpioOp::PinModeOutput(dc_pin),
            GpioOp::PinModeOutput(cs_pin),
            GpioOp::DigitalWrite(cs_pin, true),
            GpioOp::PinModeOutput(mosi_pin),
            GpioOp::PinModeOutput(clk_pin),
            GpioOp::DigitalWrite(clk_pin, false),
        ],
        _ => seq![],
    }
}

/// The hard reset of `begin`: asked for and a reset pin given.
pub open spec fn does_reset(reset: bool, rst: i8) -> bool {
    reset && rst >= 0
}

/// The reset pin's pulse: high, low for 10 ms, high again.
pub open spec fn reset_gpio(reset: bool, rst: i8) -> Seq<GpioOp> {
    if does_reset(reset, rst) {
        seq![
            GpioOp::PinModeOutput(rst),
            GpioOp::DigitalWrite(rst, true),
            GpioOp::DigitalWrite(rst, false),
            GpioOp::DigitalWrite(rst, true),
        ]
    } else {
        seq![]
    }
}

/// The waits of the reset pulse, in ms.
pub open spec fn reset_waits(reset: bool, rst: i8) -> Seq<u32> {
    if does_reset(reset, rst) {
        seq![1u32, 10u32]
    } else {
        seq![]
    }
}

/// The I2C address after `begin`: the one given, or by default 0x3C for
/// 32-row panels and 0x3D for the others; unchanged over SPI.
pub open spec fn begin_addr(cfg: BusConfig, old_addr: u8, addr: u8, h: i16) -> u8 {
    match cfg {
        BusConfig::I2C { .. } => if addr != 0 {
            addr
        } else if h == 32 {
            0x3C
        } else {
            0x3D
        },
        _ => old_addr,
    }
}

/// The size of the frame of a `w` x `h` panel: a byte per column and page.
pub open spec fn frame_size(w: i16, h: i16) -> int {
    w * ((h + 7) / 8)
}

/// The state of an SSD1306 driver.
pub struct Adafruit_SSD1306<I: I2cBus, S: SpiBus, G: GpioPin, D: DelayProvider> {
    pub gfx: Adafruit_GFX,
    bus: SSD1306Bus<I, S>,
    gpio: G,
    delay: D,
    buffer: Vec<u8>,
    i2caddr: u8,
    vccstate: u8,
    page_end: i8,
    rst_pin: i8,
    contrast: u8,
    log: Ghost<Seq<Pixel>>,
}

impl<I: I2cBus, S: SpiBus, G: GpioPin, D: DelayProvider> Adafruit_SSD1306<I, S, G, D> {
    /// The graphics context.
    pub closed spec fn ctx(&self) -> Adafruit_GFX {
        self.gfx
    }

    /// The frame buffer.
    pub closed spec fn frame(&self) -> Seq<u8> {
        self.buffer@
    }

    /// The connection's settings.
    pub closed spec fn cfg(&self) -> BusConfig {
        match self.bus {
            SSD1306Bus::I2C { wire_clk, restore_clk, .. } => BusConfig::I2C { wire_clk, restore_clk },
            SSD1306Bus::HardwareSPI { dc_pin, cs_pin, .. } => BusConfig::HardwareSPI { dc_pin, cs_pin },
            SSD1306Bus::SoftSPI { mosi_pin, clk_pin, dc_pin, cs_pin } => BusConfig::SoftSPI {
                mosi_pin,
                clk_pin,
                dc_pin,
                cs_pin,
            },
        }
    }

    /// What was done on the I2C bus (nothing when there is none).
    pub closed spec fn wire_ops(&self) -> Seq<WireOp> {
        match self.bus {
            SSD1306Bus::I2C { wire, .. } => wire.ops(),
            _ => seq![],
        }
    }

    /// What was done on the hardware SPI bus (nothing when there is none).
    pub closed spec fn spi_ops(&self) -> Seq<SpiOp> {
        match self.bus {
            SSD1306Bus::HardwareSPI { spi, .. } => spi.ops(),
            _ => seq![],
        }
    }

    /// What was done on the pins.
    pub closed spec fn gpio_ops(&self) -> Seq<GpioOp> {
        self.gpio.ops()
    }

    /// The delays asked for.
    pub closed spec fn waits(&self) -> Seq<u32> {
        self.delay.waits()
    }

    pub closed spec fn i2c_addr(&self) -> u8 {
        self.i2caddr
    }

    pub closed spec fn vcc_state(&self) -> u8 {
        self.vccstate
    }

    pub closed spec fn reset_pin(&self) -> i8 {
        self.rst_pin
    }

    /// The contrast that `dim(false)` restores.
    pub closed spec fn contrast_level(&self) -> u8 {
        self.contrast
    }

    /// Everything but the devices' logs and the buffer is as in `o`.
    pub open spec fn same_settings(&self, o: &Self) -> bool {
        &&& self.ctx() == o.ctx()
        &&& self.cfg() == o.cfg()
        &&& self.i2c_addr() == o.i2c_addr()
        &&& self.vcc_state() == o.vcc_state()
        &&& self.reset_pin() == o.reset_pin()
        &&& self.contrast_level() == o.contrast_level()
        &&& self.drawn() == o.drawn()
    }

    /// A transaction carrying `segs` was sent: each device's log grew by
    /// its part of it; the settings, buffer and delays are unchanged.
    pub open spec fn sent(&self, o: &Self, segs: Seq<Segment>) -> bool {
        &&& self.same_settings(o)
        &&& self.frame() == o.frame()
        &&& self.waits() == o.waits()
        &&& self.wire_ops() == o.wire_ops() + wire_tx(o.cfg(), o.i2c_addr(), segs)
        &&& self.spi_ops() == o.spi_ops() + spi_tx(o.cfg(), segs)
        &&& self.gpio_ops() == o.gpio_ops() + gpio_tx(o.cfg(), segs)
    }

    fn config(&self) -> (c: BusConfig)
        ensures
            c == self.cfg(),
    {
        match &self.bus {
            SSD1306Bus::I2C { wire_clk, restore_clk, .. } => BusConfig::I2C {
                wire_clk: *wire_clk,
                restore_clk: *restore_clk,
            },
            SSD1306Bus::HardwareSPI { dc_pin, cs_pin, .. } => BusConfig::HardwareSPI {
                dc_pin: *dc_pin,
                cs_pin: *cs_pin,
            },
            SSD1306Bus::SoftSPI { mosi_pin, clk_pin, dc_pin, cs_pin } => BusConfig::SoftSPI {
                mosi_pin: *mosi_pin,
                clk_pin: *clk_pin,
                dc_pin: *dc_pin,
                cs_pin: *cs_pin,
            },
        }
    }

    /// Inside a transaction begun from `o` that has carried `segs` so far.
    pub open spec fn in_tx(&self, o: &Self, segs: Seq<Segment>) -> bool {
        &&& self.same_settings(o)
        &&& self.frame() == o.frame()
        &&& self.waits() == o.waits()
        &&& self.wire_ops() == o.wire_ops() + match o.cfg() {
            BusConfig::I2C { wire_clk, .. } => seq![WireOp::SetClock(wire_clk)] + wire_pieces(o.cfg(), o.i2c_addr(), segs),
            _ => seq![],
        }
        &&& self.spi_ops() == o.spi_ops() + match o.cfg() {
            BusConfig::HardwareSPI { .. } => seq![SpiOp::BeginTransaction] + spi_pieces(o.cfg(), segs),
            _ => seq![],
        }
        &&& self.gpio_ops() == o.gpio_ops() + match o.cfg() {
            BusConfig::HardwareSPI { cs_pin, .. } => seq![GpioOp::DigitalWrite(cs_pin, false)] + gpio_pieces(o.cfg(), segs),
            BusConfig::SoftSPI { cs_pin, .. } => seq![GpioOp::DigitalWrite(cs_pin, false)] + gpio_pieces(o.cfg(), segs),
            _ => seq![],
        }
    }

    /// Deselect the panel: the I2C clock restored, or chip select high.
    fn transaction_end(&mut self, Ghost(o): Ghost<Self>, Ghost(segs): Ghost<Seq<Segment>>)
        requires
            old(self).in_tx(&o, segs),
        ensures
            final(self).sent(&o, segs),
    {
        match &mut self.bus {
            SSD1306Bus::I2C { wire, restore_clk, .. } => {
                wire.set_clock(*restore_clk);
            },
            SSD1306Bus::HardwareSPI { spi, cs_pin, .. } => {
                let pin = *cs_pin;
                self.gpio.digital_write(pin, true);
                spi.end_transaction();
            },
            SSD1306Bus::SoftSPI { cs_pin, .. } => {
                let pin = *cs_pin;
                self.gpio.digital_write(pin, true);
            },
        }
        proof {
            let segs_w = wire_pieces(o.cfg(), o.i2c_addr(), segs);
            let segs_s = spi_pieces(o.cfg(), segs);
            let segs_g = gpio_pieces(o.cfg(), segs);
            match o.cfg() {
                BusConfig::I2C { wire_clk, restore_clk } => {
                    assert(self.wire_ops() =~= o.wire_ops() + wire_tx(o.cfg(), o.i2c_addr(), segs));
                },
                BusConfig::HardwareSPI { cs_pin, .. } => {
                    assert(self.spi_ops() =~= o.spi_ops() + spi_tx(o.cfg(), segs));
                    assert(self.gpio_ops() =~= o.gpio_ops() + gpio_tx(o.cfg(), segs));
                },
                BusConfig::SoftSPI { cs_pin, .. } => {
                    assert(self.gpio_ops() =~= o.gpio_ops() + gpio_tx(o.cfg(), segs));
                },
            }
        }
    }

    /// Shift one byte out on an SPI bus (nothing on I2C).
    fn spi_write(&mut self, d: u8)
        ensures
            final(self).same_settings(old(self)),
            final(self).frame() == old(self).frame(),
            final(self).waits() == old(self).waits(),
            final(self).wire_ops() == old(self).wire_ops(),
            final(self).spi_ops() == old(self).spi_ops() + spi_piece(old(self).cfg(), (true, seq![d])),
            final(self).gpio_ops() == old(self).gpio_ops() + match old(self).cfg() {
                BusConfig::SoftSPI { mosi_pin, clk_pin, .. } => soft_spi_byte(mosi_pin, clk_pin, d),
                _ => seq![],
            },
    {
        let ghost g0 = self.gpio.ops();
        match &mut self.bus {
            SSD1306Bus::HardwareSPI { spi, .. } => {
                let _ = spi.transfer(d);
                assert(seq![d].map_values(|b: u8| SpiOp::Transfer(b)) =~= seq![SpiOp::Transfer(d)]);
            },
            SSD1306Bus::SoftSPI { mosi_pin, clk_pin, .. } => {
                let mosi = *mosi_pin;
                let clk = *clk_pin;
                let mut k: u8 = 0;
                while k < 8
                    invariant
                        k <= 8,
                        self.gfx == old(self).gfx,
                        self.buffer == old(self).buffer,
                        self.i2caddr == old(self).i2caddr,
                        self.vccstate == old(self).vccstate,
                        self.rst_pin == old(self).rst_pin,
                        self.contrast == old(self).contrast,
                        self.log == old(self).log,
                        self.delay == old(self).delay,
                        self.log == old(self).log,
                        self.bus == old(self).bus,
                        old(self).cfg() matches BusConfig::SoftSPI { mosi_pin: m, clk_pin: c, .. } && m == mosi && c == clk,
                        self.gpio.ops() == g0 + soft_spi_byte(mosi, clk, d).take(3 * k as int),
                    decreases 8 - k,
                {
                    let shift: u8 = 7 - k;
                    let ghost before = self.gpio.ops();
                    self.gpio.digital_write(mosi, (d & (1u8 << shift)) != 0);
                    self.gpio.digital_write(clk, true);
                    self.gpio.digital_write(clk, false);
                    assert(soft_spi_byte(mosi, clk, d).take(3 * (k + 1) as int) =~= soft_spi_byte(mosi, clk, d).take(3 * k as int)
                        + seq![
                        GpioOp::DigitalWrite(mosi, (d & (1u8 << shift)) != 0),
                        GpioOp::DigitalWrite(clk, true),
                        GpioOp::DigitalWrite(clk, false),
                    ]);
                    k += 1;
                }
                assert(soft_spi_byte(mosi, clk, d).take(24) =~= soft_spi_byte(mosi, clk, d));
            },
            _ => {},
        }
    }

    /// Send one segment inside a transaction: over I2C in transmissions led
    /// by the control byte (0x40 for data, 0 for commands); over SPI with
    /// the data/command line set first.
    #[verifier::spinoff_prover]
    #[verifier::rlimit(40)]
    fn send(&mut self, data: bool, bytes: &[u8], Ghost(o): Ghost<Self>, Ghost(segs): Ghost<Seq<Segment>>)
        requires
            old(self).in_tx(&o, segs),
        ensures
            final(self).in_tx(&o, segs.push((data, bytes@))),
    {
        let ctrl: u8 = if data {
            0x40
        } else {
            0x00
        };
        let addr = self.i2caddr;
        let ghost w0 = self.wire_ops();
        let ghost s0 = self.spi_ops();
        let ghost g0 = self.gpio_ops();
        match &mut self.bus {
            SSD1306Bus::I2C { wire, .. } => {
                wire.begin_transmission(addr);
                wire.write_byte(ctrl);
                let mut bytes_out: usize = 1;
                let mut i: usize = 0;
                assert(bytes@.take(0).map_values(|b: u8| WireOp::Write(b)) =~= seq![]);
                while i < bytes.len()
                    invariant
                        i <= bytes@.len(),
                        bytes_out == 1 + (if i == 0 { 0 } else { (i - 1) % 31 + 1 }),
                        wire.ops() == w0 + i2c_open(addr, ctrl, bytes@.take(i as int)),
                    decreases bytes@.len() - i,
                {
                    proof {
                        lemma_i2c_open_step(addr, ctrl, bytes@, i as int);
                    }
                    if bytes_out >= WIRE_MAX {
                        wire.end_transmission();
                        wire.begin_transmission(addr);
                        wire.write_byte(ctrl);
                        bytes_out = 1;
                    }
                    wire.write_byte(bytes[i]);
                    bytes_out += 1;
                    i += 1;
                }
                wire.end_transmission();
                assert(bytes@.take(bytes@.len() as int) =~= bytes@);
            },
            _ => {},
        }
        let cfg = self.config();
        match cfg {
            BusConfig::I2C { .. } => {},
            BusConfig::HardwareSPI { dc_pin, .. } | BusConfig::SoftSPI { dc_pin, .. } => {
                self.gpio.digital_write(dc_pin, data);
                let ghost g1 = self.gpio_ops();
                let mut i: usize = 0;
                assert(bytes@.take(0).map_values(|b: u8| SpiOp::Transfer(b)) =~= seq![]);
                assert(soft_spi_bytes(0, 0, seq![]) == Seq::<GpioOp>::empty());
                while i < bytes.len()
                    invariant
                        cfg == self.cfg(),
                        cfg == old(self).cfg(),
                        !(cfg is I2C),
                        g1 == g0.push(GpioOp::DigitalWrite(dc_pin, data)),
                        i <= bytes@.len(),
                        self.same_settings(old(self)),
                        self.frame() == old(self).frame(),
                        self.waits() == old(self).waits(),
                        self.wire_ops() == w0,
                        self.spi_ops() == s0 + spi_piece(cfg, (data, bytes@.take(i as int))),
                        self.gpio_ops() == g0 + gpio_piece(cfg, (data, bytes@.take(i as int))),
                        match cfg {
                            BusConfig::HardwareSPI { dc_pin: d, .. } => d == dc_pin,
                            BusConfig::SoftSPI { dc_pin: d, .. } => d == dc_pin,
                            _ => true,
                        },
                    decreases bytes@.len() - i,
                {
                    self.spi_write(bytes[i]);
                    proof {
                        let t1 = bytes@.take(i + 1);
                        assert(t1.drop_last() =~= bytes@.take(i as int));
                        assert(t1.map_values(|b: u8| SpiOp::Transfer(b)) =~= bytes@.take(i as int).map_values(
                            |b: u8| SpiOp::Transfer(b),
                        ).push(SpiOp::Transfer(bytes@[i as int])));
                        assert(seq![bytes@[i as int]].map_values(|b: u8| SpiOp::Transfer(b)) =~= seq![SpiOp::Transfer(bytes@[i as int])]);
                    }
                    i += 1;
                }
                assert(bytes@.take(bytes@.len() as int) =~= bytes@);
            },
        }
        proof {
            let segs2 = segs.push((data, bytes@));
            assert(segs2.drop_last() =~= segs);
            assert(segs2.last() == (data, bytes@));
            match o.cfg() {
                BusConfig::I2C { wire_clk, restore_clk } => {
                    assert(self.wire_ops() =~= o.wire_ops() + (seq![WireOp::SetClock(wire_clk)] + wire_pieces(o.cfg(), o.i2c_addr(), segs2)));
                },
                BusConfig::HardwareSPI { cs_pin, .. } => {
                    assert(self.spi_ops() =~= o.spi_ops() + (seq![SpiOp::BeginTransaction] + spi_pieces(o.cfg(), segs2)));
                    assert(self.gpio_ops() =~= o.gpio_ops() + (seq![GpioOp::DigitalWrite(cs_pin, false)] + gpio_pieces(o.cfg(), segs2)));
                },
                BusConfig::SoftSPI { cs_pin, .. } => {
                    assert(self.gpio_ops() =~= o.gpio_ops() + (seq![GpioOp::DigitalWrite(cs_pin, false)] + gpio_pieces(o.cfg(), segs2)));
                },
            }
        }
    }

    /// Select the panel: the fast I2C clock, or chip select low.
    fn transaction_start(&mut self)
        ensures
            final(self).in_tx(old(self), seq![]),
    {
        match &mut self.bus {
            SSD1306Bus::I2C { wire, wire_clk, .. } => {
                wire.set_clock(*wire_clk);
            },
            SSD1306Bus::HardwareSPI { spi, cs_pin, .. } => {
                spi.begin_transaction();
                let pin = *cs_pin;
                self.gpio.digital_write(pin, false);
            },
            SSD1306Bus::SoftSPI { cs_pin, .. } => {
                let pin = *cs_pin;
                self.gpio.digital_write(pin, false);
            },
        }
        proof {
            match old(self).cfg() {
                BusConfig::I2C { wire_clk, .. } => {
                    assert(self.wire_ops() =~= old(self).wire_ops() + (seq![WireOp::SetClock(wire_clk)] + wire_pieces(old(self).cfg(), old(self).i2c_addr(), seq![])));
                },
                BusConfig::HardwareSPI { cs_pin, .. } => {
                    assert(self.spi_ops() =~= old(self).spi_ops() + (seq![SpiOp::BeginTransaction] + spi_pieces(old(self).cfg(), seq![])));
                    assert(self.gpio_ops() =~= old(self).gpio_ops() + (seq![GpioOp::DigitalWrite(cs_pin, false)] + gpio_pieces(old(self).cfg(), seq![])));
                },
                BusConfig::SoftSPI { cs_pin, .. } => {
                    assert(self.gpio_ops() =~= old(self).gpio_ops() + (seq![GpioOp::DigitalWrite(cs_pin, false)] + gpio_pieces(old(self).cfg(), seq![])));
                },
            }
        }
    }

    /// Send one command inside a transaction.
    fn ssd1306_command1(&mut self, c: u8, Ghost(o): Ghost<Self>, Ghost(segs): Ghost<Seq<Segment>>)
        requires
            old(self).in_tx(&o, segs),
        ensures
            final(self).in_tx(&o, segs.push(cmds(seq![c]))),
    {
        let a: [u8; 1] = [c];
        assert(a@ =~= seq![c]);
        self.send(false, &a, Ghost(o), Ghost(segs));
    }

    /// Send a list of commands inside a transaction.
    fn ssd1306_command_list(&mut self, commands: &[u8], Ghost(o): Ghost<Self>, Ghost(segs): Ghost<Seq<Segment>>)
        requires
            old(self).in_tx(&o, segs),
        ensures
            final(self).in_tx(&o, segs.push(cmds(commands@))),
    {
        self.send(false, commands, Ghost(o), Ghost(segs));
    }

    /// Issue a single command to the panel in a transaction of its own.
    pub fn ssd1306_command(&mut self, c: u8)
        ensures
            final(self).sent(old(self), seq![cmds(seq![c])]),
    {
        let ghost o = *self;
        self.transaction_start();
        self.ssd1306_command1(c, Ghost(o), Ghost(Seq::<Segment>::empty()));
        let ghost s1 = seq![cmds(seq![c])];
        assert(Seq::<Segment>::empty().push(cmds(seq![c])) =~= s1);
        self.transaction_end(Ghost(o), Ghost(s1));
    }

    /// The commands that start a horizontal scroll of pages `start` to
    /// `stop` (`dir` is the right or left scroll command).
    pub open spec fn scroll_segments(dir: u8, start: u8, stop: u8) -> Seq<Segment> {
        seq![
            cmds(seq![dir, 0x00]),
            cmds(seq![start]),
            cmds(seq![0x00]),
            cmds(seq![stop]),
            cmds(seq![0x00, 0xFF, SSD1306_ACTIVATE_SCROLL]),
        ]
    }

    /// The commands that start a diagonal scroll of pages `start` to `stop`
    /// over a panel `h` rows high (`dir` is the right or left command).
    pub open spec fn diag_segments(dir: u8, h: i16, start: u8, stop: u8) -> Seq<Segment> {
        seq![
            cmds(seq![SSD1306_SET_VERTICAL_SCROLL_AREA, 0x00]),
            cmds(seq![h as u8]),
            cmds(seq![dir, 0x00]),
            cmds(seq![start]),
            cmds(seq![0x00]),
            cmds(seq![stop]),
            cmds(seq![0x01, SSD1306_ACTIVATE_SCROLL]),
        ]
    }

    fn scroll(&mut self, dir: u8, start: u8, stop: u8)
        ensures
            final(self).sent(old(self), Self::scroll_segments(dir, start, stop)),
    {
        let ghost o = *self;
        self.transaction_start();
        let list_a: [u8; 2] = [dir, 0x00];
        self.ssd1306_command_list(&list_a, Ghost(o), Ghost(Seq::<Segment>::empty()));
        let ghost s1 = seq![cmds(list_a@)];
        assert(Seq::<Segment>::empty().push(cmds(list_a@)) =~= s1);
        self.ssd1306_command1(start, Ghost(o), Ghost(s1));
        let ghost s2 = s1.push(cmds(seq![start]));
        self.ssd1306_command1(0x00, Ghost(o), Ghost(s2));
        let ghost s3 = s2.push(cmds(seq![0x00]));
        self.ssd1306_command1(stop, Ghost(o), Ghost(s3));
        let ghost s4 = s3.push(cmds(seq![stop]));
        let list_b: [u8; 3] = [0x00, 0xFF, SSD1306_ACTIVATE_SCROLL];
        self.ssd1306_command_list(&list_b, Ghost(o), Ghost(s4));
        let ghost s5 = s4.push(cmds(list_b@));
        assert(list_a@ =~= seq![dir, 0x00]);
        assert(list_b@ =~= seq![0x00, 0xFF, SSD1306_ACTIVATE_SCROLL]);
        assert(s5 =~= Self::scroll_segments(dir, start, stop));
        self.transaction_end(Ghost(o), Ghost(s5));
    }

    fn diag_scroll(&mut self, dir: u8, start: u8, stop: u8)
        ensures
            final(self).sent(old(self), Self::diag_segments(dir, old(self).ctx().HEIGHT, start, stop)),
    {
        let h = self.gfx.HEIGHT;
        let ghost o = *self;
        self.transaction_start();
        let list_a: [u8; 2] = [SSD1306_SET_VERTICAL_SCROLL_AREA, 0x00];
        self.ssd1306_command_list(&list_a, Ghost(o), Ghost(Seq::<Segment>::empty()));
        let ghost s1 = seq![cmds(list_a@)];
        assert(Seq::<Segment>::empty().push(cmds(list_a@)) =~= s1);
        let hb: u8 = #[verifier::truncate] (h as u8);
        self.ssd1306_command1(hb, Ghost(o), Ghost(s1));
        let ghost s2 = s1.push(cmds(seq![hb]));
        let list_b: [u8; 2] = [dir, 0x00];
        self.ssd1306_command_list(&list_b, Ghost(o), Ghost(s2));
        let ghost s3 = s2.push(cmds(list_b@));
        self.ssd1306_command1(start, Ghost(o), Ghost(s3));
        let ghost s4 = s3.push(cmds(seq![start]));
        self.ssd1306_command1(0x00, Ghost(o), Ghost(s4));
        let ghost s5 = s4.push(cmds(seq![0x00]));
        self.ssd1306_command1(stop, Ghost(o), Ghost(s5));
        let ghost s6 = s5.push(cmds(seq![stop]));
        let list_c: [u8; 2] = [0x01, SSD1306_ACTIVATE_SCROLL];
        self.ssd1306_command_list(&list_c, Ghost(o), Ghost(s6));
        let ghost s7 = s6.push(cmds(list_c@));
        assert(list_a@ =~= seq![SSD1306_SET_VERTICAL_SCROLL_AREA, 0x00]);
        assert(list_b@ =~= seq![dir, 0x00]);
        assert(list_c@ =~= seq![0x01, SSD1306_ACTIVATE_SCROLL]);
        assert(s7 =~= Self::diag_segments(dir, h, start, stop));
        self.transaction_end(Ghost(o), Ghost(s7));
    }

    /// Scroll pages `start` to `stop` to the right.
    pub fn start_scroll_right(&mut self, start: u8, stop: u8)
        ensures
            final(self).sent(old(self), Self::scroll_segments(SSD1306_RIGHT_HORIZONTAL_SCROLL, start, stop)),
    {
        self.scroll(SSD1306_RIGHT_HORIZONTAL_SCROLL, start, stop);
    }

    /// Scroll pages `start` to `stop` to the left.
    pub fn start_scroll_left(&mut self, start: u8, stop: u8)
        ensures
            final(self).sent(old(self), Self::scroll_segments(SSD1306_LEFT_HORIZONTAL_SCROLL, start, stop)),
    {
        self.scroll(SSD1306_LEFT_HORIZONTAL_SCROLL, start, stop);
    }

    /// Scroll pages `start` to `stop` diagonally, to the right.
    pub fn start_scroll_diag_right(&mut self, start: u8, stop: u8)
        ensures
            final(self).sent(
                old(self),
                Self::diag_segments(SSD1306_VERTICAL_AND_RIGHT_HORIZONTAL_SCROLL, old(self).ctx().HEIGHT, start, stop),
            ),
    {
        self.diag_scroll(SSD1306_VERTICAL_AND_RIGHT_HORIZONTAL_SCROLL, start, stop);
    }

    /// Scroll pages `start` to `stop` diagonally, to the left.
    pub fn start_scroll_diag_left(&mut self, start: u8, stop: u8)
        ensures
            final(self).sent(
                old(self),
                Self::diag_segments(SSD1306_VERTICAL_AND_LEFT_HORIZONTAL_SCROLL, old(self).ctx().HEIGHT, start, stop),
            ),
    {
        self.diag_scroll(SSD1306_VERTICAL_AND_LEFT_HORIZONTAL_SCROLL, start, stop);
    }

    /// Stop scrolling.
    pub fn stop_scroll(&mut self)
        ensures
            final(self).sent(old(self), seq![cmds(seq![SSD1306_DEACTIVATE_SCROLL])]),
    {
        self.ssd1306_command(SSD1306_DEACTIVATE_SCROLL);
    }

    /// Inverted (black on white) or normal display mode; the buffer is untouched.
    pub fn invert_display(&mut self, i: bool)
        ensures
            final(self).sent(old(self), seq![cmds(seq![if i { SSD1306_INVERTDISPLAY } else { SSD1306_NORMALDISPLAY }])]),
    {
        self.ssd1306_command(if i {
            SSD1306_INVERTDISPLAY
        } else {
            SSD1306_NORMALDISPLAY
        });
    }

    /// Lowest contrast when `dim`, else the contrast chosen at `begin`.
    pub fn dim(&mut self, dim: bool)
        ensures
            final(self).sent(
                old(self),
                seq![cmds(seq![SSD1306_SETCONTRAST]), cmds(seq![if dim { 0u8 } else { old(self).contrast_level() }])],
            ),
    {
        let ghost o = *self;
        self.transaction_start();
        self.ssd1306_command1(SSD1306_SETCONTRAST, Ghost(o), Ghost(Seq::<Segment>::empty()));
        let ghost s1 = seq![cmds(seq![SSD1306_SETCONTRAST])];
        assert(Seq::<Segment>::empty().push(cmds(seq![SSD1306_SETCONTRAST])) =~= s1);
        let v = if dim {
            0
        } else {
            self.contrast
        };
        self.ssd1306_command1(v, Ghost(o), Ghost(s1));
        let ghost s2 = s1.push(cmds(seq![v]));
        assert(s2 =~= seq![cmds(seq![SSD1306_SETCONTRAST]), cmds(seq![if dim { 0u8 } else { old(self).contrast_level() }])]);
        self.transaction_end(Ghost(o), Ghost(s2));
    }
}

impl<I: I2cBus, S: SpiBus, G: GpioPin, D: DelayProvider> Adafruit_SSD1306<I, S, G, D> {
    /// Only the frame changed: nothing was sent, nothing else changed.
    pub open spec fn quiet(&self, o: &Self) -> bool {
        &&& self.same_settings(o)
        &&& self.waits() == o.waits()
        &&& self.wire_ops() == o.wire_ops()
        &&& self.spi_ops() == o.spi_ops()
        &&& self.gpio_ops() == o.gpio_ops()
    }

    /// Set, clear or flip one pixel (white, black, inverse; other colors do
    /// nothing); off-screen points are skipped. Only the buffer changes.
    pub fn draw_pixel(&mut self, x: i16, y: i16, color: u16)
        requires
            ssd_point_ok(old(self).ctx(), old(self).frame().len() as int, x as int, y as int),
        ensures
            final(self).quiet(old(self)),
            final(self).frame() == pixel_drawn(old(self).ctx(), old(self).frame(), x as int, y as int, color),
    {
        let w = self.gfx.WIDTH;
        let h = self.gfx.HEIGHT;
        if x >= 0 && x < self.gfx.width() && y >= 0 && y < self.gfx.height() {
            let mut rx = x;
            let mut ry = y;
            match self.gfx.get_rotation() {
                1 => {
                    let t = rx;
                    rx = ry;
                    ry = t;
                    rx = w - rx - 1;
                },
                2 => {
                    rx = w - rx - 1;
                    ry = h - ry - 1;
                },
                3 => {
                    let t = rx;
                    rx = ry;
                    ry = t;
                    ry = h - ry - 1;
                },
                _ => {},
            }
            let idx = (rx + (ry / 8) * w) as usize;
            let bit = row_bit(ry);
            let b = self.buffer[idx];
            if color == SSD1306_WHITE {
                self.buffer.set(idx, b | bit);
            } else if color == SSD1306_BLACK {
                self.buffer.set(idx, b & !bit);
            } else if color == SSD1306_INVERSE {
                self.buffer.set(idx, b ^ bit);
            }
        }
    }

    /// Whether display pixel (x, y) is set in the buffer; false off screen.
    pub fn get_pixel(&self, x: i16, y: i16) -> (r: bool)
        requires
            ssd_point_ok(self.ctx(), self.frame().len() as int, x as int, y as int),
        ensures
            r == pixel_read(self.ctx(), self.frame(), x as int, y as int),
    {
        let w = self.gfx.WIDTH;
        let h = self.gfx.HEIGHT;
        if x >= 0 && x < self.gfx.width() && y >= 0 && y < self.gfx.height() {
            let mut rx = x;
            let mut ry = y;
            match self.gfx.get_rotation() {
                1 => {
                    let t = rx;
                    rx = ry;
                    ry = t;
                    rx = w - rx - 1;
                },
                2 => {
                    rx = w - rx - 1;
                    ry = h - ry - 1;
                },
                3 => {
                    let t = rx;
                    rx = ry;
                    ry = t;
                    ry = h - ry - 1;
                },
                _ => {},
            }
            return (self.buffer[(rx + (ry / 8) * w) as usize] & row_bit(ry)) != 0;
        }
        false
    }

    /// Clear every pixel of the buffer.
    pub fn clear_display(&mut self)
        requires
            old(self).ctx().WIDTH >= 0,
            old(self).ctx().HEIGHT >= 0,
            old(self).ctx().WIDTH * ((old(self).ctx().HEIGHT + 7) / 8) <= old(self).frame().len(),
        ensures
            final(self).quiet(old(self)),
            final(self).frame() == fill_cells(
                old(self).frame(),
                0,
                old(self).ctx().WIDTH * ((old(self).ctx().HEIGHT + 7) / 8),
                0u8,
            ),
    {
        let w = self.gfx.WIDTH as usize;
        let h = self.gfx.HEIGHT as usize;
        assert(w * ((h + 7) / 8) <= 32767 * 32767) by (nonlinear_arith)
            requires w <= 32767, h <= 32767;
        let size = w * ((h + 7) / 8);
        fill_run(&mut self.buffer, 0, size, 0u8);
    }

    /// The frame bytes: column-major pages of eight rows.
    pub fn get_buffer(&self) -> (r: &[u8])
        ensures
            r@ == self.frame(),
    {
        self.buffer.as_slice()
    }

    /// A horizontal run in raw frame coordinates, clipped to the panel.
    fn draw_fast_h_line_internal(&mut self, x0: i16, y: i16, w0: i16, color: u16)
        requires
            hrun_ok(old(self).ctx(), old(self).frame().len() as int, x0 as int, y as int, w0 as int),
        ensures
            final(self).quiet(old(self)),
            final(self).frame() == hrun_frame(old(self).ctx(), old(self).frame(), x0 as int, y as int, w0 as int, color),
    {
        let width = self.gfx.WIDTH;
        let height = self.gfx.HEIGHT;
        let mut x = x0;
        let mut w = w0;
        if y >= 0 && y < height {
            if x < 0 {
                w += x;
                x = 0;
            }
            if (x + w) > width {
                w = width - x;
            }
            if w > 0 {
                let mask = row_bit(y);
                let start = ((y / 8) * width + x) as usize;
                let mut idx = start;
                let mut remaining = w;
                let ghost f0 = self.buffer@;
                while remaining > 0
                    invariant
                        0 <= remaining <= w,
                        idx == start + (w - remaining),
                        start + w <= f0.len(),
                        f0.len() == self.buffer.len(),
                        self.buffer@ == paint_run(f0, start as int, (w - remaining) as int, mask, color),
                        self.gfx == old(self).gfx,
                        self.bus == old(self).bus,
                        self.gpio == old(self).gpio,
                        self.delay == old(self).delay,
                        self.i2caddr == old(self).i2caddr,
                        self.vccstate == old(self).vccstate,
                        self.rst_pin == old(self).rst_pin,
                        self.contrast == old(self).contrast,
                        self.log == old(self).log,
                    decreases remaining,
                {
                    let b = self.buffer[idx];
                    if color == SSD1306_WHITE {
                        self.buffer.set(idx, b | mask);
                    } else if color == SSD1306_BLACK {
                        self.buffer.set(idx, b & !mask);
                    } else if color == SSD1306_INVERSE {
                        self.buffer.set(idx, b ^ mask);
                    }
                    assert(self.buffer@ =~= paint_run(f0, start as int, (w - remaining + 1) as int, mask, color));
                    idx += 1;
                    remaining -= 1;
                }
                assert(self.buffer@ =~= hrun_frame(old(self).ctx(), old(self).frame(), x0 as int, y as int, w0 as int, color));
            }
        }
    }

    /// Decides `ssd_point_ok` for this display.
    fn point_check(&self, x: i16, y: i16) -> (r: bool)
        ensures
            r == ssd_point_ok(self.ctx(), self.frame().len() as int, x as int, y as int),
    {
        if !(x >= 0 && x < self.gfx._width && y >= 0 && y < self.gfx._height) {
            return true;
        }
        let w: i32 = self.gfx.WIDTH as i32;
        let h: i32 = self.gfx.HEIGHT as i32;
        let xi: i32 = x as i32;
        let yi: i32 = y as i32;
        let rx: i32;
        let ry: i32;
        if self.gfx.rotation == 1 {
            if !(fits16(w - yi) && fits16(w - yi - 1)) {
                return false;
            }
            rx = w - yi - 1;
            ry = xi;
        } else if self.gfx.rotation == 2 {
            if !(fits16(w - xi) && fits16(w - xi - 1) && fits16(h - yi) && fits16(h - yi - 1)) {
                return false;
            }
            rx = w - xi - 1;
            ry = h - yi - 1;
        } else if self.gfx.rotation == 3 {
            if !(fits16(h - xi) && fits16(h - xi - 1)) {
                return false;
            }
            rx = yi;
            ry = h - xi - 1;
        } else {
            rx = xi;
            ry = yi;
        }
        if !fits16(ry) {
            return false;
        }
        let page: i32 = ry / 8;
        assert(page == tdiv(ry as int, 8));
        assert(-4096 <= page <= 4096);
        assert(-4096 * 32768 <= page * w <= 4096 * 32768) by (nonlinear_arith)
            requires -4096 <= page <= 4096, -32768 <= w <= 32767;
        let prod: i32 = page * w;
        if !fits16(prod) || !fits16(rx + prod) {
            return false;
        }
        let idx: i32 = rx + prod;
        idx >= 0 && (idx as usize) < self.buffer.len()
    }

    /// A horizontal line of `w` pixels from display point (x, y), clipped to
    /// the panel; under a quarter turn it becomes a raw vertical run.
    pub fn draw_fast_h_line(&mut self, x: i16, y: i16, w: i16, color: u16)
        requires
            ssd_run_ok(old(self).ctx(), old(self).frame().len() as int, x as int, y as int, w as int, false),
        ensures
            final(self).quiet(old(self)),
            final(self).frame() == ssd_run_frame(old(self).ctx(), old(self).frame(), x as int, y as int, w as int, false, color),
    {
        let mut x = x;
        let mut y = y;
        let mut b_swap = false;
        let width = self.gfx.WIDTH;
        let height = self.gfx.HEIGHT;
        match self.gfx.rotation {
            1 => {
                b_swap = true;
                let t = x;
                x = y;
                y = t;
                x = width - x - 1;
            },
            2 => {
                x = width - x - 1;
                y = height - y - 1;
                x -= w - 1;
            },
            3 => {
                b_swap = true;
                let t = x;
                x = y;
                y = t;
                y = height - y - 1;
                y -= w - 1;
            },
            _ => {},
        }
        if b_swap {
            self.draw_fast_v_line_internal(x, y, w, color);
        } else {
            self.draw_fast_h_line_internal(x, y, w, color);
        }
    }

    /// A vertical line of `h` pixels from display point (x, y), clipped to
    /// the panel; under a quarter turn it becomes a raw horizontal run.
    pub fn draw_fast_v_line(&mut self, x: i16, y: i16, h: i16, color: u16)
        requires
            ssd_run_ok(old(self).ctx(), old(self).frame().len() as int, x as int, y as int, h as int, true),
        ensures
            final(self).quiet(old(self)),
            final(self).frame() == ssd_run_frame(old(self).ctx(), old(self).frame(), x as int, y as int, h as int, true, color),
    {
        let mut x = x;
        let mut y = y;
        let mut b_swap = false;
        let width = self.gfx.WIDTH;
        let height = self.gfx.HEIGHT;
        match self.gfx.rotation {
            1 => {
                b_swap = true;
                let t = x;
                x = y;
                y = t;
                x = width - x - 1;
                x -= h - 1;
            },
            2 => {
                x = width - x - 1;
                y = height - y - 1;
                y -= h - 1;
            },
            3 => {
                b_swap = true;
                let t = x;
                x = y;
                y = t;
                y = height - y - 1;
            },
            _ => {},
        }
        if b_swap {
            self.draw_fast_h_line_internal(x, y, h, color);
        } else {
            self.draw_fast_v_line_internal(x, y, h, color);
        }
    }

    /// The pins and peripherals of `begin`, and the I2C address.
    fn setup_bus(&mut self, addr: u8, periph_begin: bool)
        ensures
            final(self).ctx() == old(self).ctx(),
            final(self).cfg() == old(self).cfg(),
            final(self).vcc_state() == old(self).vcc_state(),
            final(self).reset_pin() == old(self).reset_pin(),
            final(self).contrast_level() == old(self).contrast_level(),
            final(self).drawn() == old(self).drawn(),
            final(self).frame() == old(self).frame(),
            final(self).waits() == old(self).waits(),
            final(self).i2c_addr() == begin_addr(old(self).cfg(), old(self).i2c_addr(), addr, old(self).ctx().HEIGHT),
            final(self).wire_ops() == old(self).wire_ops() + (if periph_begin && old(self).cfg() is I2C {
                seq![WireOp::Begin]
            } else {
                seq![]
            }),
            final(self).spi_ops() == old(self).spi_ops() + (if periph_begin && old(self).cfg() is HardwareSPI {
                seq![SpiOp::Begin]
            } else {
                seq![]
            }),
            final(self).gpio_ops() == old(self).gpio_ops() + setup_gpio(old(self).cfg()),
    {
        let h = self.gfx.HEIGHT;
        match &mut self.bus {
            SSD1306Bus::I2C { wire, .. } => {
                self.i2caddr = if addr != 0 {
                    addr
                } else if h == 32 {
                    0x3C
                } else {
                    0x3D
                };
                if periph_begin {
                    wire.begin();
                }
            },
            SSD1306Bus::HardwareSPI { spi, dc_pin, cs_pin } => {
                let dc = *dc_pin;
                let cs = *cs_pin;
                self.gpio.pin_mode_output(dc);
                self.gpio.pin_mode_output(cs);
                self.gpio.digital_write(cs, true);
                if periph_begin {
                    spi.begin();
                }
            },
            SSD1306Bus::SoftSPI { mosi_pin, clk_pin, dc_pin, cs_pin } => {
                let dc = *dc_pin;
                let cs = *cs_pin;
                let mosi = *mosi_pin;
                let clk = *clk_pin;
                self.gpio.pin_mode_output(dc);
                self.gpio.pin_mode_output(cs);
                self.gpio.digital_write(cs, true);
                self.gpio.pin_mode_output(mosi);
                self.gpio.pin_mode_output(clk);
                self.gpio.digital_write(clk, false);
            },
        }
        proof {
            assert(self.gpio_ops() =~= old(self).gpio_ops() + setup_gpio(old(self).cfg()));
            assert(self.wire_ops() =~= old(self).wire_ops() + (if periph_begin && old(self).cfg() is I2C {
                seq![WireOp::Begin]
            } else {
                seq![]
            }));
            assert(self.spi_ops() =~= old(self).spi_ops() + (if periph_begin && old(self).cfg() is HardwareSPI {
                seq![SpiOp::Begin]
            } else {
                seq![]
            }));
        }
    }

    /// Pulse the reset pin: high, 1 ms, low, 10 ms, high.
    fn hard_reset(&mut self)
        requires
            old(self).reset_pin() >= 0,
        ensures
            final(self).same_settings(old(self)),
            final(self).frame() == old(self).frame(),
            final(self).wire_ops() == old(self).wire_ops(),
            final(self).spi_ops() == old(self).spi_ops(),
            final(self).gpio_ops() == old(self).gpio_ops() + reset_gpio(true, old(self).reset_pin()),
            final(self).waits() == old(self).waits() + reset_waits(true, old(self).reset_pin()),
    {
        self.gpio.pin_mode_output(self.rst_pin);
        self.gpio.digital_write(self.rst_pin, true);
        self.delay.delay_ms(1);
        self.gpio.digital_write(self.rst_pin, false);
        self.delay.delay_ms(10);
        self.gpio.digital_write(self.rst_pin, true);
        assert(self.gpio_ops() =~= old(self).gpio_ops() + reset_gpio(true, old(self).reset_pin()));
        assert(self.waits() =~= old(self).waits() + reset_waits(true, old(self).reset_pin()));
    }

    /// Choose the contrast for the panel and send the initialisation commands.
    #[verifier::rlimit(40)]
    fn init_display(&mut self)
        requires
            i16_fits(old(self).ctx().HEIGHT - 1),
        ensures
            final(self).ctx() == old(self).ctx(),
            final(self).cfg() == old(self).cfg(),
            final(self).i2c_addr() == old(self).i2c_addr(),
            final(self).vcc_state() == old(self).vcc_state(),
            final(self).reset_pin() == old(self).reset_pin(),
            final(self).drawn() == old(self).drawn(),
            final(self).frame() == old(self).frame(),
            final(self).waits() == old(self).waits(),
            final(self).contrast_level() == init_contrast(old(self).ctx().WIDTH, old(self).ctx().HEIGHT, old(self).vcc_state()),
            final(self).wire_ops() == old(self).wire_ops() + wire_tx(
                old(self).cfg(),
                old(self).i2c_addr(),
                init_segments(old(self).ctx().WIDTH, old(self).ctx().HEIGHT, old(self).vcc_state()),
            ),
            final(self).spi_ops() == old(self).spi_ops() + spi_tx(
                old(self).cfg(),
                init_segments(old(self).ctx().WIDTH, old(self).ctx().HEIGHT, old(self).vcc_state()),
            ),
            final(self).gpio_ops() == old(self).gpio_ops() + gpio_tx(
                old(self).cfg(),
                init_segments(old(self).ctx().WIDTH, old(self).ctx().HEIGHT, old(self).vcc_state()),
            ),
    {
        let w = self.gfx.WIDTH;
        let h = self.gfx.HEIGHT;
        let ext = self.vccstate == SSD1306_EXTERNALVCC;
        let mut com_pins: u8 = 0x02;
        self.contrast = 0x8F;
        if w == 128 && h == 32 {
            com_pins = 0x02;
            self.contrast = 0x8F;
        } else if w == 128 && h == 64 {
            com_pins = 0x12;
            self.contrast = if ext {
                0x9F
            } else {
                0xCF
            };
        } else if w == 96 && h == 16 {
            com_pins = 0x2;
            self.contrast = if ext {
                0x10
            } else {
                0xAF
            };
        }
        let ghost o = *self;
        self.transaction_start();
        let init1: [u8; 4] = [SSD1306_DISPLAYOFF, SSD1306_SETDISPLAYCLOCKDIV, 0x80, SSD1306_SETMULTIPLEX];
        self.ssd1306_command_list(&init1, Ghost(o), Ghost(Seq::<Segment>::empty()));
        let ghost s1 = Seq::<Segment>::empty().push(cmds(init1@));
        let hm: u8 = #[verifier::truncate] ((h - 1) as u8);
        self.ssd1306_command1(hm, Ghost(o), Ghost(s1));
        let ghost s2 = s1.push(cmds(seq![hm]));
        let init2: [u8; 4] = [SSD1306_SETDISPLAYOFFSET, 0x0, SSD1306_SETSTARTLINE | 0x0, SSD1306_CHARGEPUMP];
        self.ssd1306_command_list(&init2, Ghost(o), Ghost(s2));
        let ghost s3 = s2.push(cmds(init2@));
        let pump: u8 = if ext {
            0x10
        } else {
            0x14
        };
        self.ssd1306_command1(pump, Ghost(o), Ghost(s3));
        let ghost s4 = s3.push(cmds(seq![pump]));
        let init3: [u8; 4] = [SSD1306_MEMORYMODE, 0x00, SSD1306_SEGREMAP | 0x1, SSD1306_COMSCANDEC];
        self.ssd1306_command_list(&init3, Ghost(o), Ghost(s4));
        let ghost s5 = s4.push(cmds(init3@));
        self.ssd1306_command1(SSD1306_SETCOMPINS, Ghost(o), Ghost(s5));
        let ghost s6 = s5.push(cmds(seq![SSD1306_SETCOMPINS]));
        self.ssd1306_command1(com_pins, Ghost(o), Ghost(s6));
        let ghost s7 = s6.push(cmds(seq![com_pins]));
        self.ssd1306_command1(SSD1306_SETCONTRAST, Ghost(o), Ghost(s7));
        let ghost s8 = s7.push(cmds(seq![SSD1306_SETCONTRAST]));
        let c = self.contrast;
        self.ssd1306_command1(c, Ghost(o), Ghost(s8));
        let ghost s9 = s8.push(cmds(seq![c]));
        self.ssd1306_command1(SSD1306_SETPRECHARGE, Ghost(o), Ghost(s9));
        let ghost s10 = s9.push(cmds(seq![SSD1306_SETPRECHARGE]));
        let pre: u8 = if ext {
            0x22
        } else {
            0xF1
        };
        self.ssd1306_command1(pre, Ghost(o), Ghost(s10));
        let ghost s11 = s10.push(cmds(seq![pre]));
        let init5: [u8; 6] = [
            SSD1306_SETVCOMDETECT,
            0x40,
            SSD1306_DISPLAYALLON_RESUME,
            SSD1306_NORMALDISPLAY,
            SSD1306_DEACTIVATE_SCROLL,
            SSD1306_DISPLAYON,
        ];
        self.ssd1306_command_list(&init5, Ghost(o), Ghost(s11));
        let ghost s12 = s11.push(cmds(init5@));
        assert(init1@ =~= seq![SSD1306_DISPLAYOFF, SSD1306_SETDISPLAYCLOCKDIV, 0x80, SSD1306_SETMULTIPLEX]);
        proof {
            crate::bits::lemma_u8_low_bits();
        }
        assert(0x40u8 | 0x0u8 == 0x40u8);
        assert(init2@ =~= seq![SSD1306_SETDISPLAYOFFSET, 0x00, SSD1306_SETSTARTLINE, SSD1306_CHARGEPUMP]);
        assert(init3@ =~= seq![SSD1306_MEMORYMODE, 0x00, SSD1306_SEGREMAP | 0x1, SSD1306_COMSCANDEC]);
        assert(init5@ =~= seq![
            SSD1306_SETVCOMDETECT,
            0x40,
            SSD1306_DISPLAYALLON_RESUME,
            SSD1306_NORMALDISPLAY,
            SSD1306_DEACTIVATE_SCROLL,
            SSD1306_DISPLAYON,
        ]);
        assert(s12 =~= init_segments(w, h, o.vcc_state()));
        self.transaction_end(Ghost(o), Ghost(s12));
    }

    /// Allocate the frame (if not yet done) and clear it, set up the pins
    /// and the bus, pulse the reset pin if asked and one was given, and
    /// send the initialisation commands. Always succeeds.
    pub fn begin(&mut self, vcs: u8, addr: u8, reset: bool, periph_begin: bool) -> (r: bool)
        requires
            old(self).ctx().WIDTH >= 0,
            old(self).ctx().HEIGHT >= 0,
            i16_fits(old(self).ctx().HEIGHT - 1),
            old(self).frame().len() > 0 ==> frame_size(old(self).ctx().WIDTH, old(self).ctx().HEIGHT)
                <= old(self).frame().len(),
        ensures
            r,
            final(self).ctx() == old(self).ctx(),
            final(self).cfg() == old(self).cfg(),
            final(self).reset_pin() == old(self).reset_pin(),
            final(self).drawn() == old(self).drawn(),
            final(self).vcc_state() == vcs,
            final(self).contrast_level() == init_contrast(old(self).ctx().WIDTH, old(self).ctx().HEIGHT, vcs),
            final(self).i2c_addr() == begin_addr(old(self).cfg(), old(self).i2c_addr(), addr, old(self).ctx().HEIGHT),
            final(self).frame() == (if old(self).frame().len() == 0 {
                Seq::new(frame_size(old(self).ctx().WIDTH, old(self).ctx().HEIGHT) as nat, |i: int| 0u8)
            } else {
                fill_cells(old(self).frame(), 0, frame_size(old(self).ctx().WIDTH, old(self).ctx().HEIGHT), 0u8)
            }),
            final(self).wire_ops() == old(self).wire_ops() + (if periph_begin && old(self).cfg() is I2C {
                seq![WireOp::Begin]
            } else {
                seq![]
            }) + wire_tx(
                old(self).cfg(),
                begin_addr(old(self).cfg(), old(self).i2c_addr(), addr, old(self).ctx().HEIGHT),
                init_segments(old(self).ctx().WIDTH, old(self).ctx().HEIGHT, vcs),
            ),
            final(self).spi_ops() == old(self).spi_ops() + (if periph_begin && old(self).cfg() is HardwareSPI {
                seq![SpiOp::Begin]
            } else {
                seq![]
            }) + spi_tx(old(self).cfg(), init_segments(old(self).ctx().WIDTH, old(self).ctx().HEIGHT, vcs)),
            final(self).gpio_ops() == old(self).gpio_ops() + setup_gpio(old(self).cfg()) + reset_gpio(
                reset,
                old(self).reset_pin(),
            ) + gpio_tx(old(self).cfg(), init_segments(old(self).ctx().WIDTH, old(self).ctx().HEIGHT, vcs)),
            final(self).waits() == old(self).waits() + reset_waits(reset, old(self).reset_pin()),
    {
        let w = self.gfx.WIDTH;
        let h = self.gfx.HEIGHT;
        assert((w as usize) * (((h as usize) + 7) / 8) <= 32767 * 4096) by (nonlinear_arith)
            requires 0 <= w <= 32767, 0 <= h <= 32767;
        if self.buffer.len() == 0 {
            let buf_size = (w as usize) * (((h as usize) + 7) / 8);
            self.buffer = vec_of(0u8, buf_size);
        }
        let ghost f1 = self.buffer@;
        self.clear_display();
        assert(old(self).frame().len() == 0 ==> self.buffer@ =~= Seq::new(
            frame_size(w, h) as nat,
            |i: int| 0u8,
        ));
        self.vccstate = vcs;
        let ghost st1 = *self;
        self.setup_bus(addr, periph_begin);
        let ghost st2 = *self;
        if reset && (self.rst_pin >= 0) {
            self.hard_reset();
        }
        let ghost st3 = *self;
        assert(st3.gpio_ops() =~= old(self).gpio_ops() + setup_gpio(old(self).cfg()) + reset_gpio(
            reset,
            old(self).reset_pin(),
        ));
        assert(st3.waits() =~= old(self).waits() + reset_waits(reset, old(self).reset_pin()));
        self.init_display();
        assert(self.gpio_ops() =~= old(self).gpio_ops() + setup_gpio(old(self).cfg()) + reset_gpio(
            reset,
            old(self).reset_pin(),
        ) + gpio_tx(old(self).cfg(), init_segments(w, h, vcs)));
        assert(self.wire_ops() =~= old(self).wire_ops() + (if periph_begin && old(self).cfg() is I2C {
            seq![WireOp::Begin]
        } else {
            seq![]
        }) + wire_tx(old(self).cfg(), begin_addr(old(self).cfg(), old(self).i2c_addr(), addr, h), init_segments(w, h, vcs)));
        assert(self.spi_ops() =~= old(self).spi_ops() + (if periph_begin && old(self).cfg() is HardwareSPI {
            seq![SpiOp::Begin]
        } else {
            seq![]
        }) + spi_tx(old(self).cfg(), init_segments(w, h, vcs)));
        true
    }

    /// The commands and data of a refresh: the page and column window,
    /// then the frame bytes.
    pub open spec fn display_segments(w: i16, data: Seq<u8>) -> Seq<Segment> {
        seq![
            cmds(seq![SSD1306_PAGEADDR, 0, 0xFF, SSD1306_COLUMNADDR, 0]),
            cmds(seq![(w - 1) as u8]),
            (true, data),
        ]
    }

    /// Send the frame to the panel.
    pub fn display(&mut self)
        requires
            old(self).ctx().WIDTH >= 0,
            old(self).ctx().HEIGHT >= 0,
            i16_fits(old(self).ctx().WIDTH - 1),
            frame_size(old(self).ctx().WIDTH, old(self).ctx().HEIGHT) <= old(self).frame().len(),
        ensures
            final(self).sent(
                old(self),
                Self::display_segments(
                    old(self).ctx().WIDTH,
                    old(self).frame().take(frame_size(old(self).ctx().WIDTH, old(self).ctx().HEIGHT)),
                ),
            ),
    {
        let w = self.gfx.WIDTH;
        let h = self.gfx.HEIGHT;
        assert((w as usize) * (((h as usize) + 7) / 8) <= 32767 * 4096) by (nonlinear_arith)
            requires 0 <= w <= 32767, 0 <= h <= 32767;
        let count = (w as usize) * (((h as usize) + 7) / 8);
        let mut data: Vec<u8> = Vec::new();
        let mut i: usize = 0;
        while i < count
            invariant
                i <= count,
                count <= self.buffer@.len(),
                data@ == self.buffer@.take(i as int),
            decreases count - i,
        {
            data.push(self.buffer[i]);
            assert(self.buffer@.take(i + 1) =~= self.buffer@.take(i as int).push(self.buffer@[i as int]));
            i += 1;
        }
        let ghost o = *self;
        self.transaction_start();
        let dlist1: [u8; 5] = [SSD1306_PAGEADDR, 0, 0xFF, SSD1306_COLUMNADDR, 0];
        self.ssd1306_command_list(&dlist1, Ghost(o), Ghost(Seq::<Segment>::empty()));
        let ghost s1 = Seq::<Segment>::empty().push(cmds(dlist1@));
        let wm: u8 = #[verifier::truncate] ((w - 1) as u8);
        self.ssd1306_command1(wm, Ghost(o), Ghost(s1));
        let ghost s2 = s1.push(cmds(seq![wm]));
        self.send(true, data.as_slice(), Ghost(o), Ghost(s2));
        let ghost s3 = s2.push((true, data@));
        assert(dlist1@ =~= seq![SSD1306_PAGEADDR, 0, 0xFF, SSD1306_COLUMNADDR, 0]);
        assert(s3 =~= Self::display_segments(w, o.frame().take(frame_size(w, h))));
        self.transaction_end(Ghost(o), Ghost(s3));
    }

    /// Just made for a `w` x `h` panel with reset pin `rst`: no frame yet,
    /// no address, voltage source or contrast chosen, nothing drawn.
    pub open spec fn fresh(&self, w: u8, h: u8, rst: i8) -> bool {
        &&& fresh_gfx(self.ctx(), w as i16, h as i16)
        &&& self.frame() == Seq::<u8>::empty()
        &&& self.i2c_addr() == 0
        &&& self.vcc_state() == 0
        &&& self.reset_pin() == rst
        &&& self.contrast_level() == 0
        &&& self.drawn() == Seq::<Pixel>::empty()
    }

    /// A display on an I2C bus; `clk_during` is the bus clock while the
    /// driver talks, `clk_after` the one it restores.
    pub fn new_i2c(w: u8, h: u8, wire: I, gpio: G, delay: D, rst_pin: i8, clk_during: u32, clk_after: u32) -> (r: Self)
        where
            S: Default,
        ensures
            r.fresh(w, h, rst_pin),
            r.cfg() == (BusConfig::I2C { wire_clk: clk_during, restore_clk: clk_after }),
            r.wire_ops() == wire.ops(),
            r.spi_ops() == Seq::<SpiOp>::empty(),
            r.gpio_ops() == gpio.ops(),
            r.waits() == delay.waits(),
    {
        Adafruit_SSD1306 {
            gfx: Adafruit_GFX::new(w as i16, h as i16),
            bus: SSD1306Bus::I2C { wire, wire_clk: clk_during, restore_clk: clk_after },
            gpio,
            delay,
            buffer: Vec::new(),
            i2caddr: 0,
            vccstate: 0,
            page_end: 0,
            rst_pin,
            contrast: 0,
            log: Ghost(Seq::empty()),
        }
    }

    /// A display on a bit-banged SPI bus.
    pub fn new_soft_spi(
        w: u8,
        h: u8,
        mosi_pin: i8,
        sclk_pin: i8,
        dc_pin: i8,
        rst_pin: i8,
        cs_pin: i8,
        gpio: G,
        delay: D,
    ) -> (r: Self)
        where
            I: Default,
            S: Default,
        ensures
            r.fresh(w, h, rst_pin),
            r.cfg() == (BusConfig::SoftSPI { mosi_pin, clk_pin: sclk_pin, dc_pin, cs_pin }),
            r.wire_ops() == Seq::<WireOp>::empty(),
            r.spi_ops() == Seq::<SpiOp>::empty(),
            r.gpio_ops() == gpio.ops(),
            r.waits() == delay.waits(),
    {
        Adafruit_SSD1306 {
            gfx: Adafruit_GFX::new(w as i16, h as i16),
            bus: SSD1306Bus::SoftSPI { mosi_pin, clk_pin: sclk_pin, dc_pin, cs_pin },
            gpio,
            delay,
            buffer: Vec::new(),
            i2caddr: 0,
            vccstate: 0,
            page_end: 0,
            rst_pin,
            contrast: 0,
            log: Ghost(Seq::empty()),
        }
    }

    /// A display on a hardware SPI bus.
    pub fn new_hw_spi(w: u8, h: u8, spi: S, dc_pin: i8, rst_pin: i8, cs_pin: i8, gpio: G, delay: D) -> (r: Self)
        where
            I: Default,
        ensures
            r.fresh(w, h, rst_pin),
            r.cfg() == (BusConfig::HardwareSPI { dc_pin, cs_pin }),
            r.wire_ops() == Seq::<WireOp>::empty(),
            r.spi_ops() == spi.ops(),
            r.gpio_ops() == gpio.ops(),
            r.waits() == delay.waits(),
    {
        Adafruit_SSD1306 {
            gfx: Adafruit_GFX::new(w as i16, h as i16),
            bus: SSD1306Bus::HardwareSPI { spi, dc_pin, cs_pin },
            gpio,
            delay,
            buffer: Vec::new(),
            i2caddr: 0,
            vccstate: 0,
            page_end: 0,
            rst_pin,
            contrast: 0,
            log: Ghost(Seq::empty()),
        }
    }

    /// Paint one byte of the frame: the pixels of `mask` in `color`.
    fn paint_byte(&mut self, idx: usize, mask: u8, color: u16)
        requires
            idx < old(self).frame().len(),
        ensures
            final(self).quiet(old(self)),
            final(self).frame() == old(self).frame().update(idx as int, paint(old(self).frame()[idx as int], mask, color)),
    {
        let b = self.buffer[idx];
        if color == SSD1306_WHITE {
            self.buffer.set(idx, b | mask);
        } else if color == SSD1306_BLACK {
            self.buffer.set(idx, b & !mask);
        } else if color == SSD1306_INVERSE {
            self.buffer.set(idx, b ^ mask);
        } else {
            self.buffer.set(idx, b);
        }
    }

    /// Paint all eight pixels of one byte of the frame in `color`.
    fn paint_whole_byte(&mut self, idx: usize, color: u16)
        requires
            idx < old(self).frame().len(),
        ensures
            final(self).quiet(old(self)),
            final(self).frame() == old(self).frame().update(idx as int, paint_full(old(self).frame()[idx as int], color)),
    {
        if color == SSD1306_INVERSE {
            let b = self.buffer[idx];
            self.buffer.set(idx, b ^ 0xFF);
        } else {
            let val: u8 = if color != SSD1306_BLACK {
                255
            } else {
                0
            };
            self.buffer.set(idx, val);
        }
    }

    /// A vertical run in raw frame coordinates, clipped to the panel: the
    /// first page pixel by pixel, whole bytes while eight rows remain, then
    /// the last page pixel by pixel.
    #[verifier::rlimit(40)]
    fn draw_fast_v_line_internal(&mut self, x: i16, y0: i16, h0: i16, color: u16)
        requires
            vrun_ok(old(self).ctx(), old(self).frame().len() as int, x as int, y0 as int, h0 as int),
        ensures
            final(self).quiet(old(self)),
            final(self).frame() == vrun_frame(old(self).ctx(), old(self).frame(), x as int, y0 as int, h0 as int, color),
    {
        let width = self.gfx.WIDTH;
        let height = self.gfx.HEIGHT;
        let mut y = y0;
        let mut h = h0;
        if x >= 0 && x < width {
            if y < 0 {
                h += y;
                y = 0;
            }
            if (y + h) > height {
                h = height - y;
            }
            if h > 0 {
                let uy: u8 = #[verifier::truncate] (y as u8);
                let mut uh: u8 = #[verifier::truncate] (h as u8);
                assert(uy == y % 256 && uh == h % 256) by (bit_vector)
                    requires
                        y >= 0,
                        h > 0,
                        uy == #[verifier::truncate] (y as u8),
                        uh == #[verifier::truncate] (h as u8),
                ;
                let ghost a = uy as int;
                let ghost n = uh as int;
                let ghost f0 = self.buffer@;
                let ghost w = width as int;
                let ghost pend = (a + n + 7) / 8;
                assert(vrun(old(self).ctx(), x as int, y0 as int, h0 as int) == Some((a, n)));
                let mut p_buf = ((uy as i16 / 8) * width + x) as usize;
                let ghost mut pc: int = a / 8;
                proof {
                    lemma_paint_col_before(f0, x as int, w, a, n, color, pc as nat);
                }
                let mut modval: u8 = uy & 7;
                proof {
                    crate::bits::lemma_u8_low_bits();
                }
                assert(modval == uy % 8);
                if modval != 0 {
                    let m0: u8 = modval;
                    proof {
                        lemma_first_mask(m0, uh);
                        assert(x + pc * w <= x + (pend - 1) * w) by (nonlinear_arith)
                            requires pc <= pend - 1, w >= 0;
                    }
                    modval = 8 - modval;
                    let mut mask: u8 = 0xFFu8 << m0;
                    if uh < modval {
                        mask = mask & (0xFFu8 >> (modval - uh));
                    }
                    assert(mask == page_bits(pc, a, n));
                    assert(p_buf == x + pc * w);
                    assert(mask != 0xFFu8) by (bit_vector)
                        requires
                            1 <= m0 <= 7,
                            mask == 0xFFu8 << m0 || mask == (0xFFu8 << m0) & (0xFFu8 >> ((8 - m0 - uh) as u8)),
                    ;
                    let ghost g = self.buffer@;
                    self.paint_byte(p_buf, mask, color);
                    assert(paint_page(g[p_buf as int], pc, a, n, color) == paint(g[p_buf as int], mask, color));
                    assert(((pc + 1) as nat - 1) * w == pc * w);
                    assert(self.buffer@ == paint_col(f0, x as int, w, a, n, color, (pc + 1) as nat));
                    assert(x + pc * w + w == x + (pc + 1) * w) by (nonlinear_arith);
                    p_buf += width as usize;
                    proof {
                        pc = pc + 1;
                    }
                }
                if uh >= modval {
                    uh -= modval;
                    proof {
                        lemma_full_mask();
                    }
                    while uh >= 8
                        invariant
                            self.quiet(old(self)),
                            self.buffer@.len() == f0.len(),
                            f0.len() == old(self).frame().len(),
                            w == width,
                            w >= 1,
                            0 <= x < w,
                            a / 8 <= pc,
                            8 * pc == a + n - uh,
                            uh <= n,
                            0 <= a,
                            0 <= n,
                            pend == (a + n + 7) / 8,
                            p_buf == x + pc * w,
                            x + (pend - 1) * w < f0.len(),
                            x + pend * w <= usize::MAX,
                            self.buffer@ == paint_col(f0, x as int, w, a, n, color, pc as nat),
                            bit_range(0, 8) == 0xFF,
                        decreases uh,
                    {
                        assert(x + pc * w <= x + (pend - 1) * w) by (nonlinear_arith)
                            requires pc <= pend - 1, w >= 0;
                        assert(x + (pc + 1) * w <= x + pend * w) by (nonlinear_arith)
                            requires pc + 1 <= pend, w >= 0;
                        assert(page_bits(pc, a, n) == 0xFF);
                        self.paint_whole_byte(p_buf, color);
                        assert(self.buffer@ == paint_col(f0, x as int, w, a, n, color, (pc + 1) as nat));
                        assert(x + pc * w + w == x + (pc + 1) * w) by (nonlinear_arith);
                        p_buf += width as usize;
                        uh -= 8;
                        proof {
                            pc = pc + 1;
                        }
                    }
                    if uh > 0 {
                        proof {
                            lemma_last_mask(uh);
                            assert(x + pc * w <= x + (pend - 1) * w) by (nonlinear_arith)
                                requires pc <= pend - 1, w >= 0;
                        }
                        let mask: u8 = 0xFFu8 >> (8 - uh);
                        assert(mask == page_bits(pc, a, n));
                        self.paint_byte(p_buf, mask, color);
                        assert(self.buffer@ == paint_col(f0, x as int, w, a, n, color, (pc + 1) as nat));
                        proof {
                            pc = pc + 1;
                        }
                    }
                }
                assert(pc == pend);
            }
        }
    }
}

impl<I: I2cBus, S: SpiBus, G: GpioPin, D: DelayProvider> DrawPixel for Adafruit_SSD1306<I, S, G, D> {
    closed spec fn drawn(&self) -> Seq<Pixel> {
        self.log@
    }

    /// Draws the pixel as `Adafruit_SSD1306::draw_pixel` does; a point whose
    /// byte falls outside the frame (before `begin`, or after the public
    /// geometry was changed by hand) is dropped.
    fn draw_pixel(&mut self, x: i16, y: i16, color: u16) {
        if self.point_check(x, y) {
            Adafruit_SSD1306::draw_pixel(self, x, y, color);
        }
        self.log = Ghost(self.log@.push((x as int, y as int, color)));
    }
}

} // verus!
