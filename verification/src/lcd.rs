//! A 128x128 RGB565 framebuffer for the AK820 Pro's TFT screen. Pixels are
//! held as the raw 16-bit RGB565 values that embedded-graphics gives for its
//! `Rgb565` colours; the screen wants them little-endian, row by row.

use vstd::prelude::*;
use embedded_graphics::pixelcolor::raw::{RawData, RawU16};
use embedded_graphics::pixelcolor::{Rgb565, RgbColor};
use crate::protocol::{LCD_DATA_SIZE, LCD_HEIGHT, LCD_PIXELS, LCD_WIDTH};

verus! {

/// `RawU16::from(Rgb565::BLACK).into_inner()`: embedded-graphics defines
/// BLACK as `Rgb565::new(0, 0, 0)`, whose raw value has every channel bit
/// clear.
#[verifier::external_body]
fn black_raw() -> (v: u16)
    ensures
        v == 0,
{
    RawU16::from(Rgb565::BLACK).into_inner()
}

/// A screen where every pixel is `raw`.
pub open spec fn filled(raw: u16) -> Seq<u16> {
    Seq::new(LCD_PIXELS as nat, |i: int| raw)
}

/// The index of the pixel at (`x`, `y`), for a point on the screen.
pub open spec fn pixel_index(x: i32, y: i32) -> int {
    y * (LCD_WIDTH as int) + x
}

pub open spec fn on_screen(x: i32, y: i32) -> bool {
    0 <= x < LCD_WIDTH && 0 <= y < LCD_HEIGHT
}

/// The screen after drawing one pixel: points off the screen are ignored.
pub open spec fn draw_one(screen: Seq<u16>, x: i32, y: i32, raw: u16) -> Seq<u16> {
    if on_screen(x, y) {
        screen.update(pixel_index(x, y), raw)
    } else {
        screen
    }
}

/// The screen after drawing `pixels` in order.
pub open spec fn draw_all(screen: Seq<u16>, pixels: Seq<(i32, i32, u16)>) -> Seq<u16>
    decreases pixels.len(),
{
    if pixels.len() == 0 {
        screen
    } else {
        let p = pixels.last();
        draw_one(draw_all(screen, pixels.drop_last()), p.0, p.1, p.2)
    }
}

/// The screen's bytes: each pixel little-endian, row by row.
pub open spec fn screen_bytes(screen: Seq<u16>) -> Seq<u8> {
    Seq::new(
        (2 * screen.len()) as nat,
        |k: int|
            if k % 2 == 0 {
                (screen[k / 2] % 256) as u8
            } else {
                (screen[k / 2] / 256) as u8
            },
    )
}

/// A 128x128 RGB565 framebuffer.
pub struct LcdFramebuffer {
    pixels: Vec<u16>,
}

impl View for LcdFramebuffer {
    type V = Seq<u16>;

    closed spec fn view(&self) -> Seq<u16> {
        self.pixels@
    }
}

impl LcdFramebuffer {
    /// The framebuffer holds a whole screen: LCD_PIXELS pixels.
    #[verifier::type_invariant]
    spec fn holds_whole_screen(&self) -> bool {
        self.pixels.len() == LCD_PIXELS
    }

    /// A black screen.
    pub fn new() -> (fb: Self)
        ensures
            fb@ == filled(0),
    {
        let black = black_raw();
        let mut pixels: Vec<u16> = Vec::new();
        let mut i: usize = 0;
        while i < LCD_PIXELS
            invariant
                i <= LCD_PIXELS,
                black == 0,
                pixels@ == Seq::new(i as nat, |j: int| 0u16),
            decreases LCD_PIXELS - i,
        {
            pixels.push(black);
            i = i + 1;
            assert(pixels@ =~= Seq::new(i as nat, |j: int| 0u16));
        }
        assert(pixels@ =~= filled(0));
        LcdFramebuffer { pixels }
    }

    /// Clear the framebuffer to black.
    pub fn clear_black(&mut self)
        ensures
            final(self)@ == filled(0),
    {
        let black = black_raw();
        let mut pixels: Vec<u16> = Vec::new();
        let mut i: usize = 0;
        while i < LCD_PIXELS
            invariant
                i <= LCD_PIXELS,
                black == 0,
                pixels@ == Seq::new(i as nat, |j: int| 0u16),
            decreases LCD_PIXELS - i,
        {
            pixels.push(black);
            i = i + 1;
            assert(pixels@ =~= Seq::new(i as nat, |j: int| 0u16));
        }
        assert(pixels@ =~= filled(0));
        self.pixels = pixels;
    }

    /// Export the framebuffer as raw RGB565 bytes (little-endian, 32768 bytes).
    pub fn as_rgb565_bytes(&self) -> (data: Vec<u8>)
        ensures
            data.len() == LCD_DATA_SIZE,
            data@ == screen_bytes(self@),
    {
        proof {
            use_type_invariant(self);
        }
        let mut data: Vec<u8> = Vec::new();
        let mut i: usize = 0;
        while i < self.pixels.len()
            invariant
                self.pixels.len() == LCD_PIXELS,
                i <= self.pixels.len(),
                data.len() == 2 * i,
                forall|k: int|
                    0 <= k < 2 * i ==> #[trigger] data@[k] == screen_bytes(self.pixels@)[k],
            decreases self.pixels.len() - i,
        {
            let p = self.pixels[i];
            let lo = (p % 256) as u8;
            let hi = (p / 256) as u8;
            data.push(lo);
            data.push(hi);
            assert(data@[2 * i as int] == screen_bytes(self.pixels@)[2 * i as int]);
            assert(data@[2 * i + 1] == screen_bytes(self.pixels@)[2 * i + 1]);
            i = i + 1;
        }
        assert(data@ =~= screen_bytes(self@));
        data
    }

    /// Draw one pixel; points off the screen are ignored.
    pub fn set_pixel(&mut self, x: i32, y: i32, raw: u16)
        ensures
            old(self)@.len() == LCD_PIXELS,
            final(self)@ == draw_one(old(self)@, x, y, raw),
    {
        proof {
            use_type_invariant(&*self);
        }
        if x >= 0 && x < LCD_WIDTH as i32 && y >= 0 && y < LCD_HEIGHT as i32 {
            let row = y as usize;
            let col = x as usize;
            assert(row * 128 + col < 16384) by (nonlinear_arith)
                requires
                    row < 128,
                    col < 128,
            ;
            let idx = row * LCD_WIDTH as usize + col;
            self.pixels[idx] = raw;
        }
    }

    /// Draw pixels in order (the drawing target of embedded-graphics).
    pub fn draw_pixels(&mut self, pixels: &Vec<(i32, i32, u16)>)
        ensures
            old(self)@.len() == LCD_PIXELS,
            final(self)@ == draw_all(old(self)@, pixels@),
    {
        proof {
            use_type_invariant(&*self);
        }
        let mut i: usize = 0;
        while i < pixels.len()
            invariant
                i <= pixels.len(),
                old(self)@.len() == LCD_PIXELS,
                self@ == draw_all(old(self)@, pixels@.take(i as int)),
            decreases pixels.len() - i,
        {
            let (x, y, raw) = pixels[i];
            assert(pixels@.take(i + 1).drop_last() =~= pixels@.take(i as int));
            self.set_pixel(x, y, raw);
            i = i + 1;
        }
        assert(pixels@.take(pixels.len() as int) =~= pixels@);
    }
}

/// A pixel drawn on the screen shows up in the exported bytes at twice its
/// index, little-endian; drawing off the screen changes no byte.
pub proof fn lemma_drawn_pixel_bytes(screen: Seq<u16>, x: i32, y: i32, raw: u16)
    requires
        screen.len() == LCD_PIXELS,
    ensures
        on_screen(x, y) ==> screen_bytes(draw_one(screen, x, y, raw))[2 * pixel_index(x, y)] == (
        raw % 256) as u8,
        on_screen(x, y) ==> screen_bytes(draw_one(screen, x, y, raw))[2 * pixel_index(x, y) + 1]
            == (raw / 256) as u8,
        !on_screen(x, y) ==> screen_bytes(draw_one(screen, x, y, raw)) == screen_bytes(screen),
{
    if on_screen(x, y) {
        let i = pixel_index(x, y);
        assert(0 <= i < LCD_PIXELS) by (nonlinear_arith)
            requires
                i == y * 128 + x,
                0 <= x < 128,
                0 <= y < 128,
        ;
        assert((2 * i) / 2 == i);
        assert((2 * i + 1) / 2 == i);
    }
}

} // verus!
