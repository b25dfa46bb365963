//! Pixel graphics: colors, the framebuffer interface, an in-memory
//! framebuffer, and the glyph renderer.
//!
//! Rendering is presentation, not policy: contracts pin the framebuffer's
//! byte layout and which pixels an operation may touch, not glyph shapes.

use vstd::prelude::*;

verus! {

/// 8-bit RGB color.
#[derive(Debug, Clone, Copy, PartialEq, Eq, Structural)]
pub struct Color {
    pub r: u8,
    pub g: u8,
    pub b: u8,
}

impl Color {
    /// White (0xFF, 0xFF, 0xFF).
    pub fn white() -> (c: Color)
        ensures
            c == (Color { r: 0xff, g: 0xff, b: 0xff }),
    {
        Color { r: 0xff, g: 0xff, b: 0xff }
    }

    /// Black (0, 0, 0).
    pub fn black() -> (c: Color)
        ensures
            c == (Color { r: 0, g: 0, b: 0 }),
    {
        Color { r: 0x00, g: 0x00, b: 0x00 }
    }

    /// Deep blue background color.
    pub fn deep_blue() -> (c: Color)
        ensures
            c == (Color { r: 0x10, g: 0x40, b: 0x60 }),
    {
        Color { r: 0x10, g: 0x40, b: 0x60 }
    }
}

/// A rectangular pixel surface.
///
/// Out-of-bounds coordinates are ignored on write and read black, so the
/// interface is total; dimensions never change.
pub trait FrameBuffer: Sized {
    /// The surface's internal invariant; constructors establish it and
    /// every operation preserves it.
    spec fn wf(&self) -> bool;

    /// Width in pixels.
    spec fn spec_width(&self) -> int;

    /// Height in pixels.
    spec fn spec_height(&self) -> int;

    /// Pixels per row of backing memory.
    spec fn spec_stride(&self) -> int;

    /// Bytes per pixel.
    spec fn spec_bpp(&self) -> int;

    /// Color of the pixel at `(x, y)`.
    spec fn spec_pixel(&self, x: int, y: int) -> Color;

    /// Set one pixel; coordinates outside the surface are ignored.
    fn put_pixel(&mut self, x: usize, y: usize, c: Color)
        requires
            old(self).wf(),
        ensures
            final(self).wf(),
            final(self).spec_width() == old(self).spec_width(),
            final(self).spec_height() == old(self).spec_height(),
            final(self).spec_stride() == old(self).spec_stride(),
            final(self).spec_bpp() == old(self).spec_bpp(),
            x < old(self).spec_width() && y < old(self).spec_height() ==> final(self).spec_pixel(
                x as int,
                y as int,
            ) == c,
            forall|i: int, j: int|
                0 <= i < old(self).spec_width() && 0 <= j < old(self).spec_height() && !(i
                    == x as int && j == y as int) ==> final(self).spec_pixel(i, j) == old(self).spec_pixel(i, j),
    ;

    /// Color of one pixel; out-of-bounds coordinates read black.
    fn get_pixel(&self, x: usize, y: usize) -> (c: Color)
        requires
            self.wf(),
        ensures
            c == if x < self.spec_width() && y < self.spec_height() {
                self.spec_pixel(x as int, y as int)
            } else {
                Color { r: 0, g: 0, b: 0 }
            },
    ;

    /// Width in pixels.
    fn width(&self) -> (r: usize)
        ensures
            r == self.spec_width(),
    ;

    /// Height in pixels.
    fn height(&self) -> (r: usize)
        ensures
            r == self.spec_height(),
    ;

    /// Pixels per backing row.
    fn stride(&self) -> (r: usize)
        ensures
            r == self.spec_stride(),
    ;

    /// Bytes per pixel.
    fn bpp(&self) -> (r: usize)
        ensures
            r == self.spec_bpp(),
    ;
}

/// In-memory framebuffer with the kernel's byte layout: little-endian BGR
/// (plus one padding byte at four bytes per pixel), row-major with a
/// stride.
pub struct BeyondFramebuffer {
    buf: Vec<u8>,
    width: usize,
    height: usize,
    stride: usize,
    bytes_per_pixel: usize,
}

impl BeyondFramebuffer {
    /// Create a zeroed framebuffer; refuses inconsistent geometry (width
    /// beyond stride, a pixel format other than 3 or 4 bytes, or a buffer
    /// size beyond the address space).
    pub fn with_size(width: usize, height: usize, stride: usize, bytes_per_pixel: usize) -> (r:
        Option<BeyondFramebuffer>)
        ensures
            match r {
                Some(fb) => {
                    &&& fb.wf()
                    &&& fb.spec_width() == width
                    &&& fb.spec_height() == height
                    &&& fb.spec_stride() == stride
                    &&& fb.spec_bpp() == bytes_per_pixel
                },
                None => width > stride || (bytes_per_pixel != 3 && bytes_per_pixel != 4) || stride
                    * height * bytes_per_pixel > usize::MAX,
            },
    {
        if width > stride {
            return None;
        }
        if bytes_per_pixel != 3 && bytes_per_pixel != 4 {
            return None;
        }
        let rows = match stride.checked_mul(height) {
            Some(v) => v,
            None => {
                proof {
                    mul_mono_overflow(stride as int, height as int, bytes_per_pixel as int);
                }
                return None;
            },
        };
        let bytes = match rows.checked_mul(bytes_per_pixel) {
            Some(v) => v,
            None => {
                return None;
            },
        };
        Some(
            BeyondFramebuffer {
                buf: vec![0u8; bytes],
                width,
                height,
                stride,
                bytes_per_pixel,
            },
        )
    }
}

/// If `a * b` already exceeds the address space, so does `a * b * c` for
/// a positive `c`.
proof fn mul_mono_overflow(a: int, b: int, c: int)
    requires
        a * b > usize::MAX,
        c >= 1,
    ensures
        a * b * c > usize::MAX,
{
    assert(a * b * c >= a * b) by (nonlinear_arith)
        requires
            a * b > 0,
            c >= 1,
    ;
}

/// Byte offset of the pixel at `(x, y)`.
spec fn pixel_base(stride: int, bpp: int, x: int, y: int) -> int {
    (y * stride + x) * bpp
}

/// Distinct in-row-range pixels occupy disjoint byte ranges.
proof fn lemma_pixel_bytes_disjoint(stride: int, bpp: int, x1: int, y1: int, x2: int, y2: int)
    requires
        bpp >= 1,
        0 <= x1 < stride,
        0 <= x2 < stride,
        0 <= y1,
        0 <= y2,
        !(x1 == x2 && y1 == y2),
    ensures
        pixel_base(stride, bpp, x1, y1) + bpp <= pixel_base(stride, bpp, x2, y2) || pixel_base(
            stride,
            bpp,
            x2,
            y2,
        ) + bpp <= pixel_base(stride, bpp, x1, y1),
{
    let p1 = y1 * stride + x1;
    let p2 = y2 * stride + x2;
    assert(p1 != p2) by (nonlinear_arith)
        requires
            0 <= x1 < stride,
            0 <= x2 < stride,
            0 <= y1,
            0 <= y2,
            !(x1 == x2 && y1 == y2),
            p1 == y1 * stride + x1,
            p2 == y2 * stride + x2,
    ;
    assert(p1 < p2 ==> p1 * bpp + bpp <= p2 * bpp) by (nonlinear_arith)
        requires
            bpp >= 1,
    ;
    assert(p2 < p1 ==> p2 * bpp + bpp <= p1 * bpp) by (nonlinear_arith)
        requires
            bpp >= 1,
    ;
}

/// An in-bounds pixel's bytes lie inside the buffer.
proof fn lemma_pixel_in_buf(stride: int, height: int, bpp: int, x: int, y: int)
    requires
        bpp >= 1,
        0 <= x < stride,
        0 <= y < height,
    ensures
        0 <= pixel_base(stride, bpp, x, y),
        pixel_base(stride, bpp, x, y) + bpp <= stride * height * bpp,
{
    assert((y * stride + x) * bpp + bpp <= stride * height * bpp) by (nonlinear_arith)
        requires
            bpp >= 1,
            0 <= x < stride,
            0 <= y < height,
    ;
    assert((y * stride + x) * bpp >= 0) by (nonlinear_arith)
        requires
            bpp >= 1,
            0 <= x,
            0 <= y,
            stride >= 0,
    ;
}

impl FrameBuffer for BeyondFramebuffer {
    closed spec fn wf(&self) -> bool {
        &&& self.bytes_per_pixel == 3 || self.bytes_per_pixel == 4
        &&& self.width <= self.stride
        &&& self.buf@.len() == self.stride * self.height * self.bytes_per_pixel
    }

    closed spec fn spec_width(&self) -> int {
        self.width as int
    }

    closed spec fn spec_height(&self) -> int {
        self.height as int
    }

    closed spec fn spec_stride(&self) -> int {
        self.stride as int
    }

    closed spec fn spec_bpp(&self) -> int {
        self.bytes_per_pixel as int
    }

    closed spec fn spec_pixel(&self, x: int, y: int) -> Color {
        let idx = pixel_base(self.stride as int, self.bytes_per_pixel as int, x, y);
        Color { r: self.buf@[idx + 2], g: self.buf@[idx + 1], b: self.buf@[idx] }
    }

    fn put_pixel(&mut self, x: usize, y: usize, c: Color) {
        if x >= self.width || y >= self.height {
            return;
        }
        proof {
            lemma_pixel_in_buf(
                self.stride as int,
                self.height as int,
                self.bytes_per_pixel as int,
                x as int,
                y as int,
            );
        }
        let n = self.buf.len();
        proof {
            assert(y * self.stride + x <= (y * self.stride + x) * self.bytes_per_pixel)
                by (nonlinear_arith)
                requires
                    self.bytes_per_pixel >= 1,
                    y * self.stride + x >= 0,
            ;
        }
        let idx = (y * self.stride + x) * self.bytes_per_pixel;
        self.buf.set(idx, c.b);
        self.buf.set(idx + 1, c.g);
        self.buf.set(idx + 2, c.r);
        if self.bytes_per_pixel == 4 {
            self.buf.set(idx + 3, 0x00);
        }
        proof {
            assert forall|i: int, j: int|
                0 <= i < old(self).spec_width() && 0 <= j < old(self).spec_height() && !(i
                    == x as int && j == y as int) implies self.spec_pixel(i, j) == old(self).spec_pixel(i, j) by {
                lemma_pixel_bytes_disjoint(
                    self.stride as int,
                    self.bytes_per_pixel as int,
                    i,
                    j,
                    x as int,
                    y as int,
                );
                lemma_pixel_in_buf(
                    self.stride as int,
                    self.height as int,
                    self.bytes_per_pixel as int,
                    i,
                    j,
                );
            }
        }
    }

    fn get_pixel(&self, x: usize, y: usize) -> (c: Color) {
        if x >= self.width || y >= self.height {
            return Color::black();
        }
        proof {
            lemma_pixel_in_buf(
                self.stride as int,
                self.height as int,
                self.bytes_per_pixel as int,
                x as int,
                y as int,
            );
        }
        let n = self.buf.len();
        proof {
            assert(y * self.stride + x <= (y * self.stride + x) * self.bytes_per_pixel)
                by (nonlinear_arith)
                requires
                    self.bytes_per_pixel >= 1,
                    y * self.stride + x >= 0,
            ;
        }
        let idx = (y * self.stride + x) * self.bytes_per_pixel;
        let b = self.buf[idx];
        let g = self.buf[idx + 1];
        let r = self.buf[idx + 2];
        Color { r, g, b }
    }

    fn width(&self) -> (r: usize) {
        self.width
    }

    fn height(&self) -> (r: usize) {
        self.height
    }

    fn stride(&self) -> (r: usize) {
        self.stride
    }

    fn bpp(&self) -> (r: usize) {
        self.bytes_per_pixel
    }
}

/// Pixel scale the renderer draws glyphs at.
pub const SCALE: usize = 2;

/// A glyph exists for latin letters, digits, and the listed punctuation.
pub open spec fn spec_has_glyph(c: char) -> bool {
    ||| ('A' <= c && c <= 'Z')
    ||| ('a' <= c && c <= 'z')
    ||| ('0' <= c && c <= '9')
    ||| c == '!' || c == ' ' || c == '?' || c == '.' || c == ',' || c == ':' || c == ';'
    ||| c == '-' || c == '_' || c == '+' || c == '*' || c == '/' || c == '(' || c == ')'
    ||| c == '[' || c == ']' || c == '{' || c == '}' || c == '=' || c == '<' || c == '>'
}

/// The glyph bitmap for each drawable character: rows top to bottom,
/// bit 7 the leftmost pixel.
pub open spec fn spec_glyph_for(c: char) -> Option<Seq<u8>> {
    if c == 'A' {
        Some(seq![0x18u8, 0x3c, 0x66, 0x66, 0x7e, 0x66, 0x66, 0x00])
        } else if c == 'B' {
        Some(seq![0x7cu8, 0x66, 0x66, 0x7c, 0x66, 0x66, 0x7c, 0x00])
        } else if c == 'C' {
        Some(seq![0x3cu8, 0x66, 0x60, 0x60, 0x60, 0x66, 0x3c, 0x00])
        } else if c == 'D' {
        Some(seq![0x78u8, 0x6c, 0x66, 0x66, 0x66, 0x6c, 0x78, 0x00])
        } else if c == 'E' {
        Some(seq![0x7eu8, 0x60, 0x60, 0x78, 0x60, 0x60, 0x7e, 0x00])
        } else if c == 'F' {
        Some(seq![0x7eu8, 0x60, 0x60, 0x78, 0x60, 0x60, 0x60, 0x00])
        } else if c == 'G' {
        Some(seq![0x3cu8, 0x66, 0x60, 0x6e, 0x66, 0x66, 0x3c, 0x00])
        } else if c == 'H' {
        Some(seq![0x66u8, 0x66, 0x66, 0x7e, 0x66, 0x66, 0x66, 0x00])
        } else if c == 'I' {
        Some(seq![0x3cu8, 0x18, 0x18, 0x18, 0x18, 0x18, 0x3c, 0x00])
        } else if c == 'J' {
        Some(seq![0x1eu8, 0x0c, 0x0c, 0x0c, 0x0c, 0x6c, 0x38, 0x00])
        } else if c == 'K' {
        Some(seq![0x66u8, 0x6c, 0x78, 0x70, 0x78, 0x6c, 0x66, 0x00])
        } else if c == 'L' {
        Some(seq![0x60u8, 0x60, 0x60, 0x60, 0x60, 0x60, 0x7e, 0x00])
        } else if c == 'M' {
        Some(seq![0x63u8, 0x77, 0x7f, 0x6b, 0x63, 0x63, 0x63, 0x00])
        } else if c == 'N' {
        Some(seq![0x66u8, 0x76, 0x7e, 0x7e, 0x6e, 0x66, 0x66, 0x00])
        } else if c == 'O' {
        Some(seq![0x3cu8, 0x66, 0x66, 0x66, 0x66, 0x66, 0x3c, 0x00])
        } else if c == 'P' {
        Some(seq![0x7cu8, 0x66, 0x66, 0x7c, 0x60, 0x60, 0x60, 0x00])
        } else if c == 'Q' {
        Some(seq![0x3cu8, 0x66, 0x66, 0x66, 0x66, 0x3c, 0x0e, 0x00])
        } else if c == 'R' {
        Some(seq![0x7cu8, 0x66, 0x66, 0x7c, 0x78, 0x6c, 0x66, 0x00])
        } else if c == 'S' {
        Some(seq![0x3cu8, 0x66, 0x60, 0x3c, 0x06, 0x66, 0x3c, 0x00])
        } else if c == 'T' {
        Some(seq![0x7eu8, 0x18, 0x18, 0x18, 0x18, 0x18, 0x18, 0x00])
        } else if c == 'U' {
        Some(seq![0x66u8, 0x66, 0x66, 0x66, 0x66, 0x66, 0x3c, 0x00])
        } else if c == 'V' {
        Some(seq![0x66u8, 0x66, 0x66, 0x66, 0x66, 0x3c, 0x18, 0x00])
        } else if c == 'W' {
        Some(seq![0x63u8, 0x63, 0x63, 0x6b, 0x7f, 0x77, 0x63, 0x00])
        } else if c == 'X' {
        Some(seq![0x66u8, 0x66, 0x3c, 0x18, 0x3c, 0x66, 0x66, 0x00])
        } else if c == 'Y' {
        Some(seq![0x66u8, 0x66, 0x66, 0x3c, 0x18, 0x18, 0x18, 0x00])
        } else if c == 'Z' {
        Some(seq![0x7eu8, 0x06, 0x0c, 0x18, 0x30, 0x60, 0x7e, 0x00])
        } else if c == 'a' {
        Some(seq![0x00u8, 0x00, 0x3c, 0x06, 0x3e, 0x66, 0x3e, 0x00])
        } else if c == 'b' {
        Some(seq![0x60u8, 0x60, 0x7c, 0x66, 0x66, 0x66, 0x7c, 0x00])
        } else if c == 'c' {
        Some(seq![0x00u8, 0x00, 0x3c, 0x60, 0x60, 0x60, 0x3c, 0x00])
        } else if c == 'd' {
        Some(seq![0x06u8, 0x06, 0x3e, 0x66, 0x66, 0x66, 0x3e, 0x00])
        } else if c == 'e' {
        Some(seq![0x00u8, 0x00, 0x3c, 0x66, 0x7e, 0x60, 0x3c, 0x00])
        } else if c == 'f' {
        Some(seq![0x0eu8, 0x18, 0x3e, 0x18, 0x18, 0x18, 0x18, 0x00])
        } else if c == 'g' {
        Some(seq![0x00u8, 0x00, 0x3e, 0x66, 0x66, 0x3e, 0x06, 0x7c])
        } else if c == 'h' {
        Some(seq![0x60u8, 0x60, 0x7c, 0x66, 0x66, 0x66, 0x66, 0x00])
        } else if c == 'i' {
        Some(seq![0x18u8, 0x00, 0x38, 0x18, 0x18, 0x18, 0x3c, 0x00])
        } else if c == 'j' {
        Some(seq![0x06u8, 0x00, 0x06, 0x06, 0x06, 0x06, 0x66, 0x3c])
        } else if c == 'k' {
        Some(seq![0x60u8, 0x60, 0x66, 0x6c, 0x78, 0x6c, 0x66, 0x00])
        } else if c == 'l' {
        Some(seq![0x38u8, 0x18, 0x18, 0x18, 0x18, 0x18, 0x3c, 0x00])
        } else if c == 'm' {
        Some(seq![0x00u8, 0x00, 0x66, 0x7f, 0x6b, 0x6b, 0x63, 0x00])
        } else if c == 'n' {
        Some(seq![0x00u8, 0x00, 0x7c, 0x66, 0x66, 0x66, 0x66, 0x00])
        } else if c == 'o' {
        Some(seq![0x00u8, 0x00, 0x3c, 0x66, 0x66, 0x66, 0x3c, 0x00])
        } else if c == 'p' {
        Some(seq![0x00u8, 0x00, 0x7c, 0x66, 0x66, 0x7c, 0x60, 0x60])
        } else if c == 'q' {
        Some(seq![0x00u8, 0x00, 0x3e, 0x66, 0x66, 0x3e, 0x06, 0x06])
        } else if c == 'r' {
        Some(seq![0x00u8, 0x00, 0x7c, 0x66, 0x60, 0x60, 0x60, 0x00])
        } else if c == 's' {
        Some(seq![0x00u8, 0x00, 0x3e, 0x60, 0x3c, 0x06, 0x7c, 0x00])
        } else if c == 't' {
        Some(seq![0x18u8, 0x18, 0x7e, 0x18, 0x18, 0x18, 0x0e, 0x00])
        } else if c == 'u' {
        Some(seq![0x00u8, 0x00, 0x66, 0x66, 0x66, 0x66, 0x3e, 0x00])
        } else if c == 'v' {
        Some(seq![0x00u8, 0x00, 0x66, 0x66, 0x66, 0x3c, 0x18, 0x00])
        } else if c == 'w' {
        Some(seq![0x00u8, 0x00, 0x63, 0x6b, 0x6b, 0x7f, 0x36, 0x00])
        } else if c == 'x' {
        Some(seq![0x00u8, 0x00, 0x66, 0x3c, 0x18, 0x3c, 0x66, 0x00])
        } else if c == 'y' {
        Some(seq![0x00u8, 0x00, 0x66, 0x66, 0x66, 0x3e, 0x06, 0x7c])
        } else if c == 'z' {
        Some(seq![0x00u8, 0x00, 0x7e, 0x0c, 0x18, 0x30, 0x7e, 0x00])
        } else if c == '0' {
        Some(seq![0x3cu8, 0x66, 0x6e, 0x76, 0x66, 0x66, 0x3c, 0x00])
        } else if c == '1' {
        Some(seq![0x18u8, 0x38, 0x18, 0x18, 0x18, 0x18, 0x7e, 0x00])
        } else if c == '2' {
        Some(seq![0x3cu8, 0x66, 0x06, 0x0c, 0x18, 0x30, 0x7e, 0x00])
        } else if c == '3' {
        Some(seq![0x3cu8, 0x66, 0x06, 0x1c, 0x06, 0x66, 0x3c, 0x00])
        } else if c == '4' {
        Some(seq![0x0cu8, 0x1c, 0x3c, 0x6c, 0x7e, 0x0c, 0x0c, 0x00])
        } else if c == '5' {
        Some(seq![0x7eu8, 0x60, 0x7c, 0x06, 0x06, 0x66, 0x3c, 0x00])
        } else if c == '6' {
        Some(seq![0x1cu8, 0x30, 0x60, 0x7c, 0x66, 0x66, 0x3c, 0x00])
        } else if c == '7' {
        Some(seq![0x7eu8, 0x06, 0x0c, 0x18, 0x30, 0x30, 0x30, 0x00])
        } else if c == '8' {
        Some(seq![0x3cu8, 0x66, 0x66, 0x3c, 0x66, 0x66, 0x3c, 0x00])
        } else if c == '9' {
        Some(seq![0x3cu8, 0x66, 0x66, 0x3e, 0x06, 0x0c, 0x38, 0x00])
        } else if c == '!' {
        Some(seq![0x18u8, 0x18, 0x18, 0x18, 0x18, 0x00, 0x18, 0x00])
        } else if c == ' ' {
        Some(seq![0x00u8, 0x00, 0x00, 0x00, 0x00, 0x00, 0x00, 0x00])
        } else if c == '?' {
        Some(seq![0x3cu8, 0x66, 0x06, 0x0c, 0x18, 0x00, 0x18, 0x00])
        } else if c == '.' {
        Some(seq![0x00u8, 0x00, 0x00, 0x00, 0x00, 0x18, 0x18, 0x00])
        } else if c == ',' {
        Some(seq![0x00u8, 0x00, 0x00, 0x00, 0x00, 0x18, 0x18, 0x30])
        } else if c == ':' {
        Some(seq![0x00u8, 0x18, 0x18, 0x00, 0x18, 0x18, 0x00, 0x00])
        } else if c == ';' {
        Some(seq![0x00u8, 0x18, 0x18, 0x00, 0x18, 0x18, 0x30, 0x00])
        } else if c == '-' {
        Some(seq![0x00u8, 0x00, 0x00, 0x7e, 0x00, 0x00, 0x00, 0x00])
        } else if c == '_' {
        Some(seq![0x00u8, 0x00, 0x00, 0x00, 0x00, 0x00, 0x00, 0x7e])
        } else if c == '+' {
        Some(seq![0x00u8, 0x18, 0x18, 0x7e, 0x18, 0x18, 0x00, 0x00])
        } else if c == '*' {
        Some(seq![0x00u8, 0x66, 0x3c, 0xff, 0x3c, 0x66, 0x00, 0x00])
        } else if c == '/' {
        Some(seq![0x02u8, 0x06, 0x0c, 0x18, 0x30, 0x60, 0x40, 0x00])
        } else if c == '(' {
        Some(seq![0x0cu8, 0x18, 0x30, 0x30, 0x30, 0x18, 0x0c, 0x00])
        } else if c == ')' {
        Some(seq![0x30u8, 0x18, 0x0c, 0x0c, 0x0c, 0x18, 0x30, 0x00])
        } else if c == '[' {
        Some(seq![0x3cu8, 0x30, 0x30, 0x30, 0x30, 0x30, 0x3c, 0x00])
        } else if c == ']' {
        Some(seq![0x3cu8, 0x0c, 0x0c, 0x0c, 0x0c, 0x0c, 0x3c, 0x00])
        } else if c == '{' {
        Some(seq![0x0eu8, 0x18, 0x18, 0x70, 0x18, 0x18, 0x0e, 0x00])
        } else if c == '}' {
        Some(seq![0x70u8, 0x18, 0x18, 0x0e, 0x18, 0x18, 0x70, 0x00])
        } else if c == '=' {
        Some(seq![0x00u8, 0x00, 0x7e, 0x00, 0x7e, 0x00, 0x00, 0x00])
        } else if c == '<' {
        Some(seq![0x0cu8, 0x18, 0x30, 0x60, 0x30, 0x18, 0x0c, 0x00])
        } else if c == '>' {
        Some(seq![0x30u8, 0x18, 0x0c, 0x06, 0x0c, 0x18, 0x30, 0x00])
    } else {
        None
    }
}

/// Bit `(r0, c0)` of the glyph is set (bit 7 is the leftmost pixel).
pub open spec fn glyph_bit(g: Seq<u8>, r0: int, c0: int) -> bool {
    (g[r0] >> ((7 - c0) as u8)) & 1 == 1
}

/// The scaled sub-pixel of glyph cell `(r0, c0)` is `color` wherever it
/// lies on the surface.
pub open spec fn cell_painted<T: FrameBuffer>(
    fb: &T,
    x: int,
    y: int,
    r0: int,
    c0: int,
    sy0: int,
    sx0: int,
    color: Color,
) -> bool {
    x + c0 * SCALE + sx0 < fb.spec_width() && y + r0 * SCALE + sy0 < fb.spec_height()
        ==> fb.spec_pixel(x + c0 * SCALE + sx0, y + r0 * SCALE + sy0) == color
}

/// Glyph renderer: 8x8 bitmaps drawn at `SCALE`.
pub struct Renderer;

impl Renderer {
    /// Draw one glyph with its top-left corner at `(x, y)`.
    ///
    /// Every set bit paints its scaled in-bounds pixels `color`; only
    /// pixels inside the scaled glyph box are touched, and each is either
    /// left alone or set to `color`.
    pub fn draw_char<T: FrameBuffer>(fb: &mut T, x: usize, y: usize, glyph: &[u8; 8], color: Color)
        requires
            old(fb).wf(),
            x <= usize::MAX - 16,
            y <= usize::MAX - 16,
        ensures
            final(fb).wf(),
            final(fb).spec_width() == old(fb).spec_width(),
            final(fb).spec_height() == old(fb).spec_height(),
            final(fb).spec_stride() == old(fb).spec_stride(),
            final(fb).spec_bpp() == old(fb).spec_bpp(),
            forall|i: int, j: int|
                0 <= i < old(fb).spec_width() && 0 <= j < old(fb).spec_height() && !(x <= i < x + 8
                    * SCALE && y <= j < y + 8 * SCALE) ==> final(fb).spec_pixel(i, j) == old(fb).spec_pixel(i, j),
            forall|i: int, j: int|
                0 <= i < old(fb).spec_width() && 0 <= j < old(fb).spec_height() ==> final(fb).spec_pixel(i, j) == old(fb).spec_pixel(i, j) || final(fb).spec_pixel(i, j)
                    == color,
            forall|r0: int, c0: int, sy0: int, sx0: int|
                0 <= r0 < 8 && 0 <= c0 < 8 && 0 <= sy0 < SCALE && 0 <= sx0 < SCALE && glyph_bit(
                    glyph@,
                    r0,
                    c0,
                ) ==> #[trigger] cell_painted(final(fb), x as int, y as int, r0, c0, sy0, sx0, color),
    {
        let mut row: usize = 0;
        while row < 8
            invariant
                row <= 8,
                fb.wf(),
                x <= usize::MAX - 16,
                y <= usize::MAX - 16,
                fb.spec_width() == old(fb).spec_width(),
                fb.spec_height() == old(fb).spec_height(),
                fb.spec_stride() == old(fb).spec_stride(),
                fb.spec_bpp() == old(fb).spec_bpp(),
                forall|i: int, j: int|
                    0 <= i < old(fb).spec_width() && 0 <= j < old(fb).spec_height() && !(x <= i < x
                        + 8 * SCALE && y <= j < y + 8 * SCALE) ==> fb.spec_pixel(i, j) == old(fb).spec_pixel(i, j),
                forall|i: int, j: int|
                    0 <= i < old(fb).spec_width() && 0 <= j < old(fb).spec_height()
                        ==> fb.spec_pixel(i, j) == old(fb).spec_pixel(i, j) || fb.spec_pixel(i, j)
                        == color,
                forall|r0: int, c0: int, sy0: int, sx0: int|
                    0 <= r0 < row && 0 <= c0 < 8 && 0 <= sy0 < SCALE && 0 <= sx0 < SCALE
                        && glyph_bit(glyph@, r0, c0) ==> #[trigger] cell_painted(
                        fb,
                        x as int,
                        y as int,
                        r0,
                        c0,
                        sy0,
                        sx0,
                        color,
                    ),
            decreases 8 - row,
        {
            let line = glyph[row];
            let mut col: usize = 0;
            while col < 8
                invariant
                    col <= 8,
                    row < 8,
                    line == glyph@[row as int],
                    fb.wf(),
                    x <= usize::MAX - 16,
                    y <= usize::MAX - 16,
                    fb.spec_width() == old(fb).spec_width(),
                    fb.spec_height() == old(fb).spec_height(),
                    fb.spec_stride() == old(fb).spec_stride(),
                    fb.spec_bpp() == old(fb).spec_bpp(),
                    forall|i: int, j: int|
                        0 <= i < old(fb).spec_width() && 0 <= j < old(fb).spec_height() && !(x <= i
                            < x + 8 * SCALE && y <= j < y + 8 * SCALE) ==> fb.spec_pixel(i, j)
                            == old(fb).spec_pixel(i, j),
                    forall|i: int, j: int|
                        0 <= i < old(fb).spec_width() && 0 <= j < old(fb).spec_height()
                            ==> fb.spec_pixel(i, j) == old(fb).spec_pixel(i, j) || fb.spec_pixel(
                            i,
                            j,
                        ) == color,
                    forall|r0: int, c0: int, sy0: int, sx0: int|
                        0 <= r0 < 8 && 0 <= c0 < 8 && 0 <= sy0 < SCALE && 0 <= sx0 < SCALE
                            && glyph_bit(glyph@, r0, c0) && (r0 < row || (r0 == row && c0 < col))
                            ==> #[trigger] cell_painted(
                            fb,
                            x as int,
                            y as int,
                            r0,
                            c0,
                            sy0,
                            sx0,
                            color,
                        ),
                decreases 8 - col,
            {
                proof {
                    assert(7 - col < 8) by (bit_vector)
                        requires
                            col < 8usize,
                    ;
                }
                let bit = (line >> (7 - col) as u8) & 1 == 1;
                proof {
                    assert(bit == glyph_bit(glyph@, row as int, col as int));
                }
                if bit {
                    let mut sy: usize = 0;
                    while sy < SCALE
                        invariant
                            sy <= SCALE,
                            fb.wf(),
                            col < 8,
                            row < 8,
                            x <= usize::MAX - 16,
                            y <= usize::MAX - 16,
                            fb.spec_width() == old(fb).spec_width(),
                            fb.spec_height() == old(fb).spec_height(),
                            fb.spec_stride() == old(fb).spec_stride(),
                            fb.spec_bpp() == old(fb).spec_bpp(),
                            forall|i: int, j: int|
                                0 <= i < old(fb).spec_width() && 0 <= j < old(fb).spec_height()
                                    && !(x <= i < x + 8 * SCALE && y <= j < y + 8 * SCALE)
                                    ==> fb.spec_pixel(i, j) == old(fb).spec_pixel(i, j),
                            forall|i: int, j: int|
                                0 <= i < old(fb).spec_width() && 0 <= j < old(fb).spec_height()
                                    ==> fb.spec_pixel(i, j) == old(fb).spec_pixel(i, j)
                                    || fb.spec_pixel(i, j) == color,
                            forall|r0: int, c0: int, sy0: int, sx0: int|
                                0 <= r0 < 8 && 0 <= c0 < 8 && 0 <= sy0 < SCALE && 0 <= sx0 < SCALE
                                    && glyph_bit(glyph@, r0, c0) && (r0 < row || (r0 == row && c0
                                    < col) || (r0 == row && c0 == col && sy0 < sy))
                                    ==> #[trigger] cell_painted(
                                    fb,
                                    x as int,
                                    y as int,
                                    r0,
                                    c0,
                                    sy0,
                                    sx0,
                                    color,
                                ),
                        decreases SCALE - sy,
                    {
                        let mut sx: usize = 0;
                        while sx < SCALE
                            invariant
                                sx <= SCALE,
                                fb.wf(),
                                sy < SCALE,
                                col < 8,
                                row < 8,
                                x <= usize::MAX - 16,
                                y <= usize::MAX - 16,
                                fb.spec_width() == old(fb).spec_width(),
                                fb.spec_height() == old(fb).spec_height(),
                                fb.spec_stride() == old(fb).spec_stride(),
                                fb.spec_bpp() == old(fb).spec_bpp(),
                                forall|i: int, j: int|
                                    0 <= i < old(fb).spec_width() && 0 <= j < old(fb).spec_height()
                                        && !(x <= i < x + 8 * SCALE && y <= j < y + 8 * SCALE)
                                        ==> fb.spec_pixel(i, j) == old(fb).spec_pixel(i, j),
                                forall|i: int, j: int|
                                    0 <= i < old(fb).spec_width() && 0 <= j < old(fb).spec_height()
                                        ==> fb.spec_pixel(i, j) == old(fb).spec_pixel(i, j)
                                        || fb.spec_pixel(i, j) == color,
                                forall|r0: int, c0: int, sy0: int, sx0: int|
                                    0 <= r0 < 8 && 0 <= c0 < 8 && 0 <= sy0 < SCALE && 0 <= sx0
                                        < SCALE && glyph_bit(glyph@, r0, c0) && (r0 < row || (r0
                                        == row && c0 < col) || (r0 == row && c0 == col && (sy0 < sy
                                        || (sy0 == sy && sx0 < sx)))) ==> #[trigger] cell_painted(
                                        fb,
                                        x as int,
                                        y as int,
                                        r0,
                                        c0,
                                        sy0,
                                        sx0,
                                        color,
                                    ),
                            decreases SCALE - sx,
                        {
                            let ghost prev = *fb;
                            fb.put_pixel(x + col * SCALE + sx, y + row * SCALE + sy, color);
                            proof {
                                assert forall|r0: int, c0: int, sy0: int, sx0: int|
                                    0 <= r0 < 8 && 0 <= c0 < 8 && 0 <= sy0 < SCALE && 0 <= sx0
                                        < SCALE && glyph_bit(glyph@, r0, c0) && (r0 < row || (r0
                                        == row && c0 < col) || (r0 == row && c0 == col && (sy0 < sy
                                        || (sy0 == sy && sx0 <= sx)))) implies cell_painted(
                                        fb,
                                        x as int,
                                        y as int,
                                        r0,
                                        c0,
                                        sy0,
                                        sx0,
                                        color,
                                    ) by {
                                    let px = x + c0 * SCALE + sx0;
                                    let py = y + r0 * SCALE + sy0;
                                    if px < fb.spec_width() && py < fb.spec_height() {
                                        if r0 == row && c0 == col && sy0 == sy as int && sx0
                                            == sx as int {
                                            assert(fb.spec_pixel(px, py) == color);
                                        } else {
                                            assert(!(px == x + col * SCALE + sx && py == y + row
                                                * SCALE + sy));
                                            assert(cell_painted(
                                                &prev,
                                                x as int,
                                                y as int,
                                                r0,
                                                c0,
                                                sy0,
                                                sx0,
                                                color,
                                            ));
                                            assert(fb.spec_pixel(px, py) == prev.spec_pixel(
                                                px,
                                                py,
                                            ));
                                        }
                                    }
                                }
                            }
                            sx = sx + 1;
                        }
                        sy = sy + 1;
                    }
                }
                col = col + 1;
            }
            row = row + 1;
        }
    }

    /// Bitmap for a drawable character, exactly `spec_glyph_for`; `None`
    /// exactly for characters without a glyph.
    pub fn glyph_for(c: char) -> (r: Option<[u8; 8]>)
        ensures
            (r is Some) == spec_has_glyph(c),
            match r {
                Some(g) => spec_glyph_for(c) == Some(g@),
                None => spec_glyph_for(c) is None,
            },
    {
        let g: [u8; 8] = match c {
            'A' => [0x18, 0x3c, 0x66, 0x66, 0x7e, 0x66, 0x66, 0x00],
            'B' => [0x7c, 0x66, 0x66, 0x7c, 0x66, 0x66, 0x7c, 0x00],
            'C' => [0x3c, 0x66, 0x60, 0x60, 0x60, 0x66, 0x3c, 0x00],
            'D' => [0x78, 0x6c, 0x66, 0x66, 0x66, 0x6c, 0x78, 0x00],
            'E' => [0x7e, 0x60, 0x60, 0x78, 0x60, 0x60, 0x7e, 0x00],
            'F' => [0x7e, 0x60, 0x60, 0x78, 0x60, 0x60, 0x60, 0x00],
            'G' => [0x3c, 0x66, 0x60, 0x6e, 0x66, 0x66, 0x3c, 0x00],
            'H' => [0x66, 0x66, 0x66, 0x7e, 0x66, 0x66, 0x66, 0x00],
            'I' => [0x3c, 0x18, 0x18, 0x18, 0x18, 0x18, 0x3c, 0x00],
            'J' => [0x1e, 0x0c, 0x0c, 0x0c, 0x0c, 0x6c, 0x38, 0x00],
            'K' => [0x66, 0x6c, 0x78, 0x70, 0x78, 0x6c, 0x66, 0x00],
            'L' => [0x60, 0x60, 0x60, 0x60, 0x60, 0x60, 0x7e, 0x00],
            'M' => [0x63, 0x77, 0x7f, 0x6b, 0x63, 0x63, 0x63, 0x00],
            'N' => [0x66, 0x76, 0x7e, 0x7e, 0x6e, 0x66, 0x66, 0x00],
            'O' => [0x3c, 0x66, 0x66, 0x66, 0x66, 0x66, 0x3c, 0x00],
            'P' => [0x7c, 0x66, 0x66, 0x7c, 0x60, 0x60, 0x60, 0x00],
            'Q' => [0x3c, 0x66, 0x66, 0x66, 0x66, 0x3c, 0x0e, 0x00],
            'R' => [0x7c, 0x66, 0x66, 0x7c, 0x78, 0x6c, 0x66, 0x00],
            'S' => [0x3c, 0x66, 0x60, 0x3c, 0x06, 0x66, 0x3c, 0x00],
            'T' => [0x7e, 0x18, 0x18, 0x18, 0x18, 0x18, 0x18, 0x00],
            'U' => [0x66, 0x66, 0x66, 0x66, 0x66, 0x66, 0x3c, 0x00],
            'V' => [0x66, 0x66, 0x66, 0x66, 0x66, 0x3c, 0x18, 0x00],
            'W' => [0x63, 0x63, 0x63, 0x6b, 0x7f, 0x77, 0x63, 0x00],
            'X' => [0x66, 0x66, 0x3c, 0x18, 0x3c, 0x66, 0x66, 0x00],
            'Y' => [0x66, 0x66, 0x66, 0x3c, 0x18, 0x18, 0x18, 0x00],
            'Z' => [0x7e, 0x06, 0x0c, 0x18, 0x30, 0x60, 0x7e, 0x00],
            'a' => [0x00, 0x00, 0x3c, 0x06, 0x3e, 0x66, 0x3e, 0x00],
            'b' => [0x60, 0x60, 0x7c, 0x66, 0x66, 0x66, 0x7c, 0x00],
            'c' => [0x00, 0x00, 0x3c, 0x60, 0x60, 0x60, 0x3c, 0x00],
            'd' => [0x06, 0x06, 0x3e, 0x66, 0x66, 0x66, 0x3e, 0x00],
            'e' => [0x00, 0x00, 0x3c, 0x66, 0x7e, 0x60, 0x3c, 0x00],
            'f' => [0x0e, 0x18, 0x3e, 0x18, 0x18, 0x18, 0x18, 0x00],
            'g' => [0x00, 0x00, 0x3e, 0x66, 0x66, 0x3e, 0x06, 0x7c],
            'h' => [0x60, 0x60, 0x7c, 0x66, 0x66, 0x66, 0x66, 0x00],
            'i' => [0x18, 0x00, 0x38, 0x18, 0x18, 0x18, 0x3c, 0x00],
            'j' => [0x06, 0x00, 0x06, 0x06, 0x06, 0x06, 0x66, 0x3c],
            'k' => [0x60, 0x60, 0x66, 0x6c, 0x78, 0x6c, 0x66, 0x00],
            'l' => [0x38, 0x18, 0x18, 0x18, 0x18, 0x18, 0x3c, 0x00],
            'm' => [0x00, 0x00, 0x66, 0x7f, 0x6b, 0x6b, 0x63, 0x00],
            'n' => [0x00, 0x00, 0x7c, 0x66, 0x66, 0x66, 0x66, 0x00],
            'o' => [0x00, 0x00, 0x3c, 0x66, 0x66, 0x66, 0x3c, 0x00],
            'p' => [0x00, 0x00, 0x7c, 0x66, 0x66, 0x7c, 0x60, 0x60],
            'q' => [0x00, 0x00, 0x3e, 0x66, 0x66, 0x3e, 0x06, 0x06],
            'r' => [0x00, 0x00, 0x7c, 0x66, 0x60, 0x60, 0x60, 0x00],
            's' => [0x00, 0x00, 0x3e, 0x60, 0x3c, 0x06, 0x7c, 0x00],
            't' => [0x18, 0x18, 0x7e, 0x18, 0x18, 0x18, 0x0e, 0x00],
            'u' => [0x00, 0x00, 0x66, 0x66, 0x66, 0x66, 0x3e, 0x00],
            'v' => [0x00, 0x00, 0x66, 0x66, 0x66, 0x3c, 0x18, 0x00],
            'w' => [0x00, 0x00, 0x63, 0x6b, 0x6b, 0x7f, 0x36, 0x00],
            'x' => [0x00, 0x00, 0x66, 0x3c, 0x18, 0x3c, 0x66, 0x00],
            'y' => [0x00, 0x00, 0x66, 0x66, 0x66, 0x3e, 0x06, 0x7c],
            'z' => [0x00, 0x00, 0x7e, 0x0c, 0x18, 0x30, 0x7e, 0x00],
            '0' => [0x3c, 0x66, 0x6e, 0x76, 0x66, 0x66, 0x3c, 0x00],
            '1' => [0x18, 0x38, 0x18, 0x18, 0x18, 0x18, 0x7e, 0x00],
            '2' => [0x3c, 0x66, 0x06, 0x0c, 0x18, 0x30, 0x7e, 0x00],
            '3' => [0x3c, 0x66, 0x06, 0x1c, 0x06, 0x66, 0x3c, 0x00],
            '4' => [0x0c, 0x1c, 0x3c, 0x6c, 0x7e, 0x0c, 0x0c, 0x00],
            '5' => [0x7e, 0x60, 0x7c, 0x06, 0x06, 0x66, 0x3c, 0x00],
            '6' => [0x1c, 0x30, 0x60, 0x7c, 0x66, 0x66, 0x3c, 0x00],
            '7' => [0x7e, 0x06, 0x0c, 0x18, 0x30, 0x30, 0x30, 0x00],
            '8' => [0x3c, 0x66, 0x66, 0x3c, 0x66, 0x66, 0x3c, 0x00],
            '9' => [0x3c, 0x66, 0x66, 0x3e, 0x06, 0x0c, 0x38, 0x00],
            '!' => [0x18, 0x18, 0x18, 0x18, 0x18, 0x00, 0x18, 0x00],
            ' ' => [0x00, 0x00, 0x00, 0x00, 0x00, 0x00, 0x00, 0x00],
            '?' => [0x3c, 0x66, 0x06, 0x0c, 0x18, 0x00, 0x18, 0x00],
            '.' => [0x00, 0x00, 0x00, 0x00, 0x00, 0x18, 0x18, 0x00],
            ',' => [0x00, 0x00, 0x00, 0x00, 0x00, 0x18, 0x18, 0x30],
            ':' => [0x00, 0x18, 0x18, 0x00, 0x18, 0x18, 0x00, 0x00],
            ';' => [0x00, 0x18, 0x18, 0x00, 0x18, 0x18, 0x30, 0x00],
            '-' => [0x00, 0x00, 0x00, 0x7e, 0x00, 0x00, 0x00, 0x00],
            '_' => [0x00, 0x00, 0x00, 0x00, 0x00, 0x00, 0x00, 0x7e],
            '+' => [0x00, 0x18, 0x18, 0x7e, 0x18, 0x18, 0x00, 0x00],
            '*' => [0x00, 0x66, 0x3c, 0xff, 0x3c, 0x66, 0x00, 0x00],
            '/' => [0x02, 0x06, 0x0c, 0x18, 0x30, 0x60, 0x40, 0x00],
            '(' => [0x0c, 0x18, 0x30, 0x30, 0x30, 0x18, 0x0c, 0x00],
            ')' => [0x30, 0x18, 0x0c, 0x0c, 0x0c, 0x18, 0x30, 0x00],
            '[' => [0x3c, 0x30, 0x30, 0x30, 0x30, 0x30, 0x3c, 0x00],
            ']' => [0x3c, 0x0c, 0x0c, 0x0c, 0x0c, 0x0c, 0x3c, 0x00],
            '{' => [0x0e, 0x18, 0x18, 0x70, 0x18, 0x18, 0x0e, 0x00],
            '}' => [0x70, 0x18, 0x18, 0x0e, 0x18, 0x18, 0x70, 0x00],
            '=' => [0x00, 0x00, 0x7e, 0x00, 0x7e, 0x00, 0x00, 0x00],
            '<' => [0x0c, 0x18, 0x30, 0x60, 0x30, 0x18, 0x0c, 0x00],
            '>' => [0x30, 0x18, 0x0c, 0x06, 0x0c, 0x18, 0x30, 0x00],
            _ => {
                return None;
            },
        };
        proof {
            assert(spec_glyph_for(c) == Some(g@));
        }
        Some(g)
    }
}

/// Simple glyph-cell console drawn directly on a `BeyondFramebuffer`:
/// 8-pixel cells, no scrollback (the screen clears when it runs out).
pub struct Console {
    fb: BeyondFramebuffer,
    cursor_col: usize,
    cursor_row: usize,
    cols: usize,
    rows: usize,
    fg: Color,
    bg: Color,
}

impl Console {
    /// Everything of `spec_wf` except the column bound, which a character
    /// write may transiently exceed before wrapping.
    spec fn wf_loose(&self) -> bool {
        &&& self.fb.wf()
        &&& 1 <= self.cols
        &&& 1 <= self.rows
        &&& self.cursor_row < self.rows
        &&& self.cols <= self.fb.spec_width()
        &&& self.rows <= self.fb.spec_height()
        &&& self.fb.spec_width() <= 0x0400_0000
        &&& self.fb.spec_height() <= 0x0400_0000
    }

    /// The framebuffer is well formed, of a sane size, and the cursor is
    /// inside the cell grid.
    pub closed spec fn spec_wf(&self) -> bool {
        self.wf_loose() && self.cursor_col < self.cols
    }

    /// Take ownership of the framebuffer and start with a cleared screen.
    pub fn new(fb: BeyondFramebuffer, fg: Color, bg: Color) -> (r: Console)
        requires
            fb.wf(),
            8 <= fb.spec_width() <= 0x0400_0000,
            8 <= fb.spec_height() <= 0x0400_0000,
        ensures
            r.spec_wf(),
    {
        let cols: usize = fb.width() / 8;
        let rows: usize = fb.height() / 8;
        let mut console = Console { fb, cursor_col: 0, cursor_row: 0, cols, rows, fg, bg };
        console.clear();
        console
    }

    fn write_char(&mut self, ch: char)
        requires
            old(self).spec_wf(),
        ensures
            final(self).spec_wf(),
    {
        if ch == '\n' {
            self.newline();
            return;
        }
        match Renderer::glyph_for(ch) {
            Some(glyph) => {
                let x = self.cursor_col * (8 + 2);
                let y = self.cursor_row * 8;
                Renderer::draw_char(&mut self.fb, x, y, &glyph, self.fg);
            },
            None => {},
        }
        self.cursor_col = self.cursor_col + 1;
        if self.cursor_col >= self.cols {
            self.newline();
        }
    }

    fn newline(&mut self)
        requires
            old(self).wf_loose(),
        ensures
            final(self).spec_wf(),
    {
        self.cursor_col = 0;
        if self.cursor_row + 1 >= self.rows {
            self.clear();
        } else {
            self.cursor_row = self.cursor_row + 1;
        }
    }

    /// Write a string, character by character.
    pub fn write_str(&mut self, s: &str)
        requires
            old(self).spec_wf(),
        ensures
            final(self).spec_wf(),
    {
        let n = s.unicode_len();
        let mut i: usize = 0;
        while i < n
            invariant
                i <= n,
                n == s@.len(),
                self.spec_wf(),
            decreases n - i,
        {
            let ch = s.get_char(i);
            self.write_char(ch);
            i = i + 1;
        }
    }

    /// Write a string followed by a newline.
    pub fn write_line(&mut self, s: &str)
        requires
            old(self).spec_wf(),
        ensures
            final(self).spec_wf(),
    {
        self.write_str(s);
        self.write_char('\n');
    }

    /// Fill the screen with the background color and home the cursor.
    pub fn clear(&mut self)
        requires
            old(self).spec_wf(),
        ensures
            final(self).spec_wf(),
    {
        let w = self.fb.width();
        let h = self.fb.height();
        let mut y: usize = 0;
        while y < h
            invariant
                y <= h,
                self.fb.wf(),
                w == self.fb.spec_width(),
                h == self.fb.spec_height(),
                self.cols == old(self).cols,
                self.rows == old(self).rows,
                self.fb.spec_width() == old(self).fb.spec_width(),
                self.fb.spec_height() == old(self).fb.spec_height(),
            decreases h - y,
        {
            let mut x: usize = 0;
            while x < w
                invariant
                    x <= w,
                    y < h,
                    self.fb.wf(),
                    w == self.fb.spec_width(),
                    h == self.fb.spec_height(),
                    self.cols == old(self).cols,
                    self.rows == old(self).rows,
                    self.fb.spec_width() == old(self).fb.spec_width(),
                    self.fb.spec_height() == old(self).fb.spec_height(),
                decreases w - x,
            {
                let bg = self.bg;
                self.fb.put_pixel(x, y, bg);
                x = x + 1;
            }
            y = y + 1;
        }
        self.cursor_col = 0;
        self.cursor_row = 0;
    }
}

} // verus!

