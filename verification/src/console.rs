//! Scrolling text console over any framebuffer.
//!
//! Characters are drawn in fixed cells of a 16x32 scaled glyph plus
//! margins; when the bottom row is passed the whole surface scrolls up by
//! one row.  Output is diagnostic only: contracts keep the console well
//! formed, not what the pixels spell.

use vstd::prelude::*;
use crate::graphics::{Color, FrameBuffer, Renderer};

verus! {

pub const GLYPH_W: usize = 8;
pub const GLYPH_H: usize = 16;
pub const CHAR_W: usize = 16;
pub const CHAR_H: usize = 32;
pub const MARGIN_X: usize = 2;
pub const MARGIN_Y: usize = 4;

/// Character-cell console output sink.
pub trait ConsoleOut: Sized {
    /// The console's internal invariant.
    spec fn wf(&self) -> bool;

    /// Write a string, character by character.
    fn write_string(&mut self, s: &str)
        requires
            old(self).wf(),
        ensures
            final(self).wf(),
    ;

    /// Write one line of text.
    fn write_line(&mut self, s: &str)
        requires
            old(self).wf(),
        ensures
            final(self).wf(),
    ;

    /// Clear the surface and home the cursor.
    fn clear(&mut self)
        requires
            old(self).wf(),
        ensures
            final(self).wf(),
    ;

    /// Write one character, advancing and wrapping the cursor.
    fn write_charactor(&mut self, ch: char)
        requires
            old(self).wf(),
        ensures
            final(self).wf(),
    ;

    /// Draw one character at the cursor without moving it.
    fn write_charactor_at(&mut self, ch: char)
        requires
            old(self).wf(),
        ensures
            final(self).wf(),
    ;

    /// Move the cursor back one cell and erase it.
    fn backspace(&mut self)
        requires
            old(self).wf(),
        ensures
            final(self).wf(),
    ;

    /// Move to the start of the next row, scrolling at the bottom.
    fn newline(&mut self)
        requires
            old(self).wf(),
        ensures
            final(self).wf(),
    ;

    /// Scroll the surface up by one character row.
    fn scroll_up(&mut self)
        requires
            old(self).wf(),
        ensures
            final(self).wf(),
    ;

    /// Erase the cell under the cursor.
    fn erase_cell(&mut self)
        requires
            old(self).wf(),
        ensures
            final(self).wf(),
    ;
}

/// Console construction over a framebuffer the console then owns.
pub trait Console<FB: FrameBuffer>: ConsoleOut {
    /// Build a console on `fb`, cleared, with the given colors.
    fn new(fb: FB, fg: Color, bg: Color) -> (r: Self)
        requires
            fb.wf(),
            CHAR_W + MARGIN_X <= fb.spec_width() <= 0x0400_0000,
            CHAR_H + MARGIN_Y <= fb.spec_height() <= 0x0400_0000,
        ensures
            r.wf(),
    ;
}

/// Scrolling text console drawn on a generic framebuffer.
pub struct TextConsole<FB: FrameBuffer> {
    fb: FB,
    cursor_col: usize,
    cursor_row: usize,
    cols: usize,
    rows: usize,
    fg: Color,
    bg: Color,
}

impl<FB: FrameBuffer> TextConsole<FB> {
    /// Everything of the invariant except the column bound, which a
    /// character write may transiently exceed before wrapping.
    spec fn wf_loose(&self) -> bool {
        &&& self.fb.wf()
        &&& 1 <= self.cols
        &&& 1 <= self.rows
        &&& self.cursor_row < self.rows
        &&& self.cols <= self.fb.spec_width()
        &&& self.rows <= self.fb.spec_height()
        &&& CHAR_H + MARGIN_Y <= self.fb.spec_height()
        &&& self.fb.spec_width() <= 0x0400_0000
        &&& self.fb.spec_height() <= 0x0400_0000
    }

    fn do_clear(&mut self)
        requires
            old(self).wf_loose(),
        ensures
            final(self).wf(),
    {
        let w = self.fb.width();
        let h = self.fb.height();
        let mut y: usize = 0;
        while y < h
            invariant
                y <= h,
                self.fb.wf(),
                w == self.fb.spec_width(),
                h == self.fb.spec_height(),
                self.cols == old(self).cols,
                self.rows == old(self).rows,
                self.fb.spec_width() == old(self).fb.spec_width(),
                self.fb.spec_height() == old(self).fb.spec_height(),
            decreases h - y,
        {
            let mut x: usize = 0;
            while x < w
                invariant
                    x <= w,
                    y < h,
                    self.fb.wf(),
                    w == self.fb.spec_width(),
                    h == self.fb.spec_height(),
                    self.cols == old(self).cols,
                    self.rows == old(self).rows,
                    self.fb.spec_width() == old(self).fb.spec_width(),
                    self.fb.spec_height() == old(self).fb.spec_height(),
                decreases w - x,
            {
                let bg = self.bg;
                self.fb.put_pixel(x, y, bg);
                x = x + 1;
            }
            y = y + 1;
        }
        self.cursor_col = 0;
        self.cursor_row = 0;
    }

    fn do_newline(&mut self)
        requires
            old(self).wf_loose(),
        ensures
            final(self).wf(),
    {
        self.cursor_col = 0;
        self.cursor_row = self.cursor_row + 1;
        if self.cursor_row >= self.rows {
            self.do_scroll_up();
            self.cursor_row = self.rows - 1;
        }
    }

    fn do_scroll_up(&mut self)
        requires
            old(self).fb.wf(),
            CHAR_H + MARGIN_Y <= old(self).fb.spec_height(),
            old(self).fb.spec_width() <= 0x0400_0000,
            old(self).fb.spec_height() <= 0x0400_0000,
        ensures
            final(self).fb.wf(),
            final(self).fb.spec_width() == old(self).fb.spec_width(),
            final(self).fb.spec_height() == old(self).fb.spec_height(),
            final(self).cols == old(self).cols,
            final(self).rows == old(self).rows,
            final(self).cursor_col == old(self).cursor_col,
            final(self).cursor_row == old(self).cursor_row,
    {
        let row_h = CHAR_H + MARGIN_Y;
        let h = self.fb.height();
        let w = self.fb.width();
        let mut y: usize = 0;
        while y < h - row_h
            invariant
                row_h == CHAR_H + MARGIN_Y,
                row_h <= h,
                y <= h,
                self.fb.wf(),
                w == self.fb.spec_width(),
                h == self.fb.spec_height(),
                *self == (TextConsole { fb: self.fb, ..*old(self) }),
            decreases h - row_h - y,
        {
            let mut x: usize = 0;
            while x < w
                invariant
                    row_h == CHAR_H + MARGIN_Y,
                    row_h <= h,
                    y < h,
                    y + row_h <= h,
                    x <= w,
                    self.fb.wf(),
                    w == self.fb.spec_width(),
                    h == self.fb.spec_height(),
                    *self == (TextConsole { fb: self.fb, ..*old(self) }),
                decreases w - x,
            {
                let color = self.fb.get_pixel(x, y + row_h);
                self.fb.put_pixel(x, y, color);
                x = x + 1;
            }
            y = y + 1;
        }
        let mut y2: usize = if h >= row_h {
            h - row_h
        } else {
            0
        };
        while y2 < h
            invariant
                y2 <= h,
                self.fb.wf(),
                w == self.fb.spec_width(),
                h == self.fb.spec_height(),
                *self == (TextConsole { fb: self.fb, ..*old(self) }),
            decreases h - y2,
        {
            let mut x: usize = 0;
            while x < w
                invariant
                    y2 < h,
                    x <= w,
                    self.fb.wf(),
                    w == self.fb.spec_width(),
                    h == self.fb.spec_height(),
                    *self == (TextConsole { fb: self.fb, ..*old(self) }),
                decreases w - x,
            {
                let bg = self.bg;
                self.fb.put_pixel(x, y2, bg);
                x = x + 1;
            }
            y2 = y2 + 1;
        }
    }
}

impl<FB: FrameBuffer> Console<FB> for TextConsole<FB> {
    fn new(fb: FB, fg: Color, bg: Color) -> (r: Self) {
        let cols: usize = fb.width() / (CHAR_W + MARGIN_X);
        let rows: usize = fb.height() / (CHAR_H + MARGIN_Y);
        proof {
            vstd::arithmetic::div_mod::lemma_fundamental_div_mod(
                fb.spec_width(),
                (CHAR_W + MARGIN_X) as int,
            );
            vstd::arithmetic::div_mod::lemma_fundamental_div_mod(
                fb.spec_height(),
                (CHAR_H + MARGIN_Y) as int,
            );
            vstd::arithmetic::div_mod::lemma_mod_bound(
                fb.spec_width(),
                (CHAR_W + MARGIN_X) as int,
            );
            vstd::arithmetic::div_mod::lemma_mod_bound(
                fb.spec_height(),
                (CHAR_H + MARGIN_Y) as int,
            );
            assert(1 <= cols && cols <= fb.spec_width()) by (nonlinear_arith)
                requires
                    cols == fb.spec_width() / ((CHAR_W + MARGIN_X) as int),
                    (CHAR_W + MARGIN_X) as int == 18,
                    18 <= fb.spec_width(),
            ;
            assert(1 <= rows && rows <= fb.spec_height()) by (nonlinear_arith)
                requires
                    rows == fb.spec_height() / ((CHAR_H + MARGIN_Y) as int),
                    (CHAR_H + MARGIN_Y) as int == 36,
                    36 <= fb.spec_height(),
            ;
        }
        let mut console = TextConsole { fb, cursor_col: 0, cursor_row: 0, cols, rows, fg, bg };
        console.do_clear();
        console
    }
}

impl<FB: FrameBuffer> ConsoleOut for TextConsole<FB> {
    closed spec fn wf(&self) -> bool {
        self.wf_loose() && self.cursor_col < self.cols
    }

    fn write_string(&mut self, s: &str) {
        let n = s.unicode_len();
        let mut i: usize = 0;
        while i < n
            invariant
                i <= n,
                n == s@.len(),
                self.wf(),
            decreases n - i,
        {
            let ch = s.get_char(i);
            self.write_charactor(ch);
            i = i + 1;
        }
    }

    fn write_line(&mut self, s: &str) {
        self.write_string(s);
    }

    fn clear(&mut self) {
        self.do_clear();
    }

    fn write_charactor(&mut self, ch: char) {
        if ch == '\n' {
            self.do_newline();
            return;
        }
        self.write_charactor_at(ch);
        self.cursor_col = self.cursor_col + 1;
        if self.cursor_col >= self.cols {
            self.do_newline();
        }
    }

    fn write_charactor_at(&mut self, ch: char) {
        if ch == '\n' {
            self.do_newline();
            return;
        }
        proof {
            assert(self.cursor_col < 0x0400_0000 && self.cursor_row < 0x0400_0000);
            assert((self.cursor_col as int) * ((CHAR_W + MARGIN_X) as int) < 0x4800_0000int)
                by (nonlinear_arith)
                requires
                    self.cursor_col < 0x0400_0000,
                    (CHAR_W + MARGIN_X) as int == 18,
            ;
            assert((self.cursor_row as int) * ((CHAR_H + MARGIN_Y) as int) < 0x9000_0000int)
                by (nonlinear_arith)
                requires
                    self.cursor_row < 0x0400_0000,
                    (CHAR_H + MARGIN_Y) as int == 36,
            ;
        }
        match Renderer::glyph_for(ch) {
            Some(glyph) => {
                let x = self.cursor_col * (CHAR_W + MARGIN_X);
                let y = self.cursor_row * (CHAR_H + MARGIN_Y) + MARGIN_Y;
                Renderer::draw_char(&mut self.fb, x, y, &glyph, self.fg);
            },
            None => {},
        }
    }

    fn backspace(&mut self) {
        if self.cursor_col > 0 {
            self.cursor_col = self.cursor_col - 1;
        } else if self.cursor_row > 0 {
            self.cursor_row = self.cursor_row - 1;
            self.cursor_col = self.cols - 1;
        }
        self.erase_cell();
    }

    fn newline(&mut self) {
        self.do_newline();
    }

    fn scroll_up(&mut self) {
        self.do_scroll_up();
    }

    fn erase_cell(&mut self) {
        proof {
            assert(self.cursor_col < 0x0400_0000 && self.cursor_row < 0x0400_0000);
            assert((self.cursor_col as int) * ((CHAR_W + MARGIN_X) as int) < 0x4800_0000int)
                by (nonlinear_arith)
                requires
                    self.cursor_col < 0x0400_0000,
                    (CHAR_W + MARGIN_X) as int == 18,
            ;
            assert((self.cursor_row as int) * ((CHAR_H + MARGIN_Y) as int) < 0x9000_0000int)
                by (nonlinear_arith)
                requires
                    self.cursor_row < 0x0400_0000,
                    (CHAR_H + MARGIN_Y) as int == 36,
            ;
        }
        let x0 = self.cursor_col * (CHAR_W + MARGIN_X);
        let y0 = self.cursor_row * (CHAR_H + MARGIN_Y) + MARGIN_Y;
        let mut y: usize = 0;
        while y < CHAR_H
            invariant
                y <= CHAR_H,
                x0 <= 0x4800_0000,
                y0 <= 0x9000_0010,
                self.fb.wf(),
                self.fb.spec_width() == old(self).fb.spec_width(),
                self.fb.spec_height() == old(self).fb.spec_height(),
                *self == (TextConsole { fb: self.fb, ..*old(self) }),
            decreases CHAR_H - y,
        {
            let mut x: usize = 0;
            while x < CHAR_W
                invariant
                    y < CHAR_H,
                    x <= CHAR_W,
                    x0 <= 0x4800_0000,
                    y0 <= 0x9000_0010,
                    self.fb.wf(),
                    self.fb.spec_width() == old(self).fb.spec_width(),
                    self.fb.spec_height() == old(self).fb.spec_height(),
                    *self == (TextConsole { fb: self.fb, ..*old(self) }),
                decreases CHAR_W - x,
            {
                let bg = self.bg;
                self.fb.put_pixel(x0 + x, y0 + y, bg);
                x = x + 1;
            }
            y = y + 1;
        }
    }
}

} // verus!
