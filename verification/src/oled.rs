//! The MYOSA OLED board: a 128x64 SSD1306 panel behind a small wrapper
//! that keeps its own frame buffer and text state, the edge list of the
//! rotating cube it can draw, and the welcome screen shown by `begin`.
//! The drawing calls go to platform routines, which on this target do
//! nothing; the cube's floating-point geometry lives with the caller.
use vstd::prelude::*;
use crate::gfx::vec_of;
use crate::bits::lemma_u8_masks;

verus! {

/// I2C address of the OLED board.
pub const OLED_I2C_ADDRESS: u8 = 0x3C;
/// Panel width in pixels.
pub const SCREEN_WIDTH: u8 = 128;
/// Panel height in pixels.
pub const SCREEN_HEIGHT: u8 = 64;
/// Display voltage generated from 3.3V.
pub const SSD1306_SWITCHCAPVCC: u8 = 0x02;
/// The 'on' colour.
pub const WHITE: u16 = 1;

/// The OLED wrapper's state.
pub struct oLed {
    pub width: u8,
    pub height: u8,
    pub rst_pin: i8,
    pub i2c_addr: u8,
    /// One bit per pixel, `width * height / 8` bytes.
    pub buffer: Vec<u8>,
    pub cursor_x: i16,
    pub cursor_y: i16,
    pub text_color: u16,
    pub text_bg: u16,
    pub text_size_x: u8,
    pub text_size_y: u8,
    pub rotation: u8,
    /// The cube's twelve edges as pairs of vertex numbers.
    pub edges: Vec<(u8, u8)>,
}

/// The cube's edges once `begin` has run: the back face, the front face,
/// then the four edges from back to front.
pub open spec fn cube_edges() -> Seq<(u8, u8)> {
    seq![
        (0u8, 1u8), (1u8, 2u8), (2u8, 3u8), (3u8, 0u8),
        (5u8, 4u8), (4u8, 7u8), (7u8, 6u8), (6u8, 5u8),
        (0u8, 4u8), (1u8, 5u8), (2u8, 6u8), (3u8, 7u8),
    ]
}

/// A blank frame of `n` bytes.
pub open spec fn blank(n: int) -> Seq<u8> {
    Seq::new(n as nat, |i: int| 0u8)
}

/// A fresh wrapper of the given size, reset pin and address: blank frame,
/// cursor at the origin, white text on black at size 1, no rotation, and
/// an edge list of zeros.
pub open spec fn fresh_oled(d: oLed, w: u8, h: u8, rst_pin: i8, addr: u8) -> bool {
    &&& d.width == w
    &&& d.height == h
    &&& d.rst_pin == rst_pin
    &&& d.i2c_addr == addr
    &&& d.buffer@ == blank(w * h / 8)
    &&& d.cursor_x == 0
    &&& d.cursor_y == 0
    &&& d.text_color == WHITE
    &&& d.text_bg == 0
    &&& d.text_size_x == 1
    &&& d.text_size_y == 1
    &&& d.rotation == 0
    &&& d.edges@ == Seq::new(12, |i: int| (0u8, 0u8))
}

/// `b` differs from `a` at most in the text state and the frame.
pub open spec fn same_setup(a: oLed, b: oLed) -> bool {
    &&& b.width == a.width
    &&& b.height == a.height
    &&& b.rst_pin == a.rst_pin
    &&& b.i2c_addr == a.i2c_addr
    &&& b.edges == a.edges
}

/// Starts the panel; on this target the platform routine always succeeds.
fn ssd1306_begin(switchcap_vcc: u8, addr: u8) -> (r: bool)
    ensures
        r,
{
    true
}

impl oLed {
    fn with_address(w: u8, h: u8, rst_pin: i8, addr: u8) -> (r: Self)
        ensures
            fresh_oled(r, w, h, rst_pin, addr),
    {
        assert((w as int) * (h as int) <= 255 * 255) by (nonlinear_arith)
            requires
                w <= 255,
                h <= 255,
        ;
        let n: usize = (w as usize) * (h as usize) / 8;
        oLed {
            width: w,
            height: h,
            rst_pin: rst_pin,
            i2c_addr: addr,
            buffer: vec_of(0u8, n),
            cursor_x: 0,
            cursor_y: 0,
            text_color: WHITE,
            text_bg: 0,
            text_size_x: 1,
            text_size_y: 1,
            rotation: 0,
            edges: vec_of((0u8, 0u8), 12),
        }
    }

    /// A panel on the I2C bus at the board's address.
    pub fn new_i2c(w: u8, h: u8, rst_pin: i8) -> (r: Self)
        ensures
            fresh_oled(r, w, h, rst_pin, OLED_I2C_ADDRESS),
    {
        Self::with_address(w, h, rst_pin, OLED_I2C_ADDRESS)
    }

    /// A panel on bit-banged SPI (no I2C address).
    pub fn new_soft_spi(w: u8, h: u8, mosi_pin: i8, sclk_pin: i8, dc_pin: i8, rst_pin: i8, cs_pin: i8) -> (r: Self)
        ensures
            fresh_oled(r, w, h, rst_pin, 0),
    {
        Self::with_address(w, h, rst_pin, 0)
    }

    /// A panel on hardware SPI (no I2C address).
    pub fn new_hw_spi(w: u8, h: u8, dc_pin: i8, rst_pin: i8, cs_pin: i8) -> (r: Self)
        ensures
            fresh_oled(r, w, h, rst_pin, 0),
    {
        Self::with_address(w, h, rst_pin, 0)
    }

    /// Sets up the cube's edge list, starts the panel and shows the
    /// welcome screen, which ends blank with the text state of its last
    /// line (size 1 at (98, 48), white on white, no rotation).
    pub fn begin(&mut self) -> (r: bool)
        ensures
            r,
            final(self).edges@ == cube_edges(),
            final(self).width == old(self).width,
            final(self).height == old(self).height,
            final(self).rst_pin == old(self).rst_pin,
            final(self).i2c_addr == old(self).i2c_addr,
            final(self).buffer@ == blank(old(self).buffer@.len() as int),
            final(self).rotation == 0,
            final(self).text_color == WHITE,
            final(self).text_bg == WHITE,
            final(self).text_size_x == 1,
            final(self).text_size_y == 1,
            final(self).cursor_x == 98,
            final(self).cursor_y == 48,
    {
        self.edges = vec![
            (0u8, 1u8), (1u8, 2u8), (2u8, 3u8), (3u8, 0u8),
            (5u8, 4u8), (4u8, 7u8), (7u8, 6u8), (6u8, 5u8),
            (0u8, 4u8), (1u8, 5u8), (2u8, 6u8), (3u8, 7u8),
        ];
        if !ssd1306_begin(SSD1306_SWITCHCAPVCC, OLED_I2C_ADDRESS) {
            return false;
        }
        self.clearDisplay();
        self.displayLogo();
        true
    }

    /// The welcome screen: "Welcome!!!", "MYOSA" and "v3.0" in turn, then
    /// a blank frame.
    fn displayLogo(&mut self)
        ensures
            same_setup(*old(self), *final(self)),
            final(self).buffer@ == blank(old(self).buffer@.len() as int),
            final(self).rotation == 0,
            final(self).text_color == WHITE,
            final(self).text_bg == WHITE,
            final(self).text_size_x == 1,
            final(self).text_size_y == 1,
            final(self).cursor_x == 98,
            final(self).cursor_y == 48,
    {
        proof {
            lemma_u8_masks();
            assert(0u8 & 3u8 == 0u8);
        }
        self.setRotation(0);
        self.clearDisplay();
        self.setTextColor(WHITE);
        self.setTextSize(2);
        self.setCursor(6, 6);
        self.print("Welcome!!!");
        self.display();
        delay(2000);
        self.setTextSize(3);
        self.setCursor(5, 33);
        self.print("MYOSA");
        self.display();
        delay(1000);
        self.setTextSize(1);
        self.setCursor(98, 48);
        self.print("v3.0");
        self.display();
        delay(2500);
        self.clearDisplay();
    }

    /// Hands a pixel to the panel driver (no effect on this target).
    pub fn drawPixel(&mut self, x: i16, y: i16, color: u16)
        ensures
            *final(self) == *old(self),
    {
    }

    /// Hands a line to the graphics routines (no effect on this target).
    pub fn drawLine(&mut self, x0: i16, y0: i16, x1: i16, y1: i16, color: u16)
        ensures
            *final(self) == *old(self),
    {
    }

    /// Hands a rectangle outline to the graphics routines (no effect on this target).
    pub fn drawRect(&mut self, x: i16, y: i16, w: i16, h: i16, color: u16)
        ensures
            *final(self) == *old(self),
    {
    }

    /// Hands a filled rectangle to the graphics routines (no effect on this target).
    pub fn fillRect(&mut self, x: i16, y: i16, w: i16, h: i16, color: u16)
        ensures
            *final(self) == *old(self),
    {
    }

    /// Hands a circle outline to the graphics routines (no effect on this target).
    pub fn drawCircle(&mut self, x0: i16, y0: i16, r: i16, color: u16)
        ensures
            *final(self) == *old(self),
    {
    }

    /// Hands quarter circles to the graphics routines (no effect on this target).
    pub fn drawCircleHelper(&mut self, x0: i16, y0: i16, r: i16, cornername: u8, color: u16)
        ensures
            *final(self) == *old(self),
    {
    }

    /// Hands a filled circle to the graphics routines (no effect on this target).
    pub fn fillCircle(&mut self, x0: i16, y0: i16, r: i16, color: u16)
        ensures
            *final(self) == *old(self),
    {
    }

    /// Hands filled half circles to the graphics routines (no effect on this target).
    pub fn fillCircleHelper(&mut self, x0: i16, y0: i16, r: i16, cornername: u8, delta: i16, color: u16)
        ensures
            *final(self) == *old(self),
    {
    }

    /// Hands a triangle outline to the graphics routines (no effect on this target).
    pub fn drawTriangle(&mut self, x0: i16, y0: i16, x1: i16, y1: i16, x2: i16, y2: i16, color: u16)
        ensures
            *final(self) == *old(self),
    {
    }

    /// Hands a filled triangle to the graphics routines (no effect on this target).
    pub fn fillTriangle(&mut self, x0: i16, y0: i16, x1: i16, y1: i16, x2: i16, y2: i16, color: u16)
        ensures
            *final(self) == *old(self),
    {
    }

    /// Hands a rounded rectangle outline to the graphics routines (no effect on this target).
    pub fn drawRoundRect(&mut self, x0: i16, y0: i16, w: i16, h: i16, radius: i16, color: u16)
        ensures
            *final(self) == *old(self),
    {
    }

    /// Hands a filled rounded rectangle to the graphics routines (no effect on this target).
    pub fn fillRoundRect(&mut self, x0: i16, y0: i16, w: i16, h: i16, radius: i16, color: u16)
        ensures
            *final(self) == *old(self),
    {
    }

    /// Hands a bitmap to the graphics routines (no effect on this target).
    pub fn drawBitmap_const(&mut self, x: i16, y: i16, bitmap: &[u8], w: i16, h: i16, color: u16)
        ensures
            *final(self) == *old(self),
    {
    }

    /// Hands a bitmap with background to the graphics routines (no effect on this target).
    pub fn drawBitmap_const_bg(&mut self, x: i16, y: i16, bitmap: &[u8], w: i16, h: i16, color: u16, bg: u16)
        ensures
            *final(self) == *old(self),
    {
    }

    /// Hands a bitmap to the graphics routines (no effect on this target);
    /// the bitmap is left as it was.
    pub fn drawBitmap_mut(&mut self, x: i16, y: i16, bitmap: &mut [u8], w: i16, h: i16, color: u16)
        ensures
            *final(self) == *old(self),
            final(bitmap)@ == old(bitmap)@,
    {
    }

    /// Hands a bitmap with background to the graphics routines (no effect
    /// on this target); the bitmap is left as it was.
    pub fn drawBitmap_mut_bg(&mut self, x: i16, y: i16, bitmap: &mut [u8], w: i16, h: i16, color: u16, bg: u16)
        ensures
            *final(self) == *old(self),
            final(bitmap)@ == old(bitmap)@,
    {
    }

    /// Hands an XBM bitmap to the graphics routines (no effect on this target).
    pub fn drawXBitmap(&mut self, x: i16, y: i16, bitmap: &[u8], w: i16, h: i16, color: u16)
        ensures
            *final(self) == *old(self),
    {
    }

    /// Hands a character to the graphics routines (no effect on this target).
    pub fn drawChar(&mut self, x: i16, y: i16, c: u8, color: u16, bg: u16, size: u8)
        ensures
            *final(self) == *old(self),
    {
    }

    /// Hands a character with separate scales to the graphics routines (no
    /// effect on this target).
    pub fn drawChar_xy(&mut self, x: i16, y: i16, c: u8, color: u16, bg: u16, size_x: u8, size_y: u8)
        ensures
            *final(self) == *old(self),
    {
    }

    /// Moves the text cursor.
    pub fn setCursor(&mut self, x: i16, y: i16)
        ensures
            *final(self) == (oLed { cursor_x: x, cursor_y: y, ..*old(self) }),
    {
        self.cursor_x = x;
        self.cursor_y = y;
    }

    /// Text colour `c`; the background takes the same colour, so text is
    /// drawn without a background.
    pub fn setTextColor(&mut self, c: u16)
        ensures
            *final(self) == (oLed { text_color: c, text_bg: c, ..*old(self) }),
    {
        self.text_color = c;
        self.text_bg = c;
    }

    /// Text colour `c` on background `bg`.
    pub fn setTextColor_bg(&mut self, c: u16, bg: u16)
        ensures
            *final(self) == (oLed { text_color: c, text_bg: bg, ..*old(self) }),
    {
        self.text_color = c;
        self.text_bg = bg;
    }

    /// Text scale `s` in both directions; 0 counts as 1.
    pub fn setTextSize(&mut self, s: u8)
        ensures
            *final(self) == (oLed {
                text_size_x: if s > 0 { s } else { 1 },
                text_size_y: if s > 0 { s } else { 1 },
                ..*old(self)
            }),
    {
        self.text_size_x = if s > 0 { s } else { 1 };
        self.text_size_y = if s > 0 { s } else { 1 };
    }

    /// Rotation in quarter turns, kept modulo 4.
    pub fn setRotation(&mut self, r: u8)
        ensures
            *final(self) == (oLed { rotation: r & 3, ..*old(self) }),
    {
        self.rotation = r & 3;
    }

    /// Blanks the frame buffer.
    pub fn clearDisplay(&mut self)
        ensures
            final(self).buffer@ == blank(old(self).buffer@.len() as int),
            *final(self) == (oLed { buffer: final(self).buffer, ..*old(self) }),
    {
        let mut i: usize = 0;
        let n = self.buffer.len();
        while i < n
            invariant
                n == self.buffer@.len(),
                n == old(self).buffer@.len(),
                i <= n,
                forall|k: int| 0 <= k < i ==> self.buffer@[k] == 0u8,
                *self == (oLed { buffer: self.buffer, ..*old(self) }),
            decreases n - i,
        {
            self.buffer.set(i, 0);
            i += 1;
        }
        assert(self.buffer@ =~= blank(n as int));
    }

    /// Sends the frame to the panel (no effect on this target).
    pub fn display(&mut self)
        ensures
            *final(self) == *old(self),
    {
    }

    /// Hands the text to the graphics routines one byte at a time (no
    /// effect on this target).
    pub fn print(&mut self, s: &str)
        ensures
            *final(self) == *old(self),
    {
    }
}

/// Waits `ms` milliseconds (no effect on this target).
fn delay(ms: u32) {
}

} // verus!
