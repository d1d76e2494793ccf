use vstd::arithmetic::div_mod::lemma_fundamental_div_mod_converse;
use vstd::prelude::*;

use crate::geometry::{Vec2, RGB8};

verus! {

/// Bytes per pixel at the given color depth.
pub open spec fn stride(bpp: u32) -> int {
    bpp as int / 8
}

/// The index of the first byte of pixel `(x, y)`.
pub open spec fn pixel_offset(resolution: Vec2<u32>, bpp: u32, x: int, y: int) -> int {
    (y * resolution.x + x) * stride(bpp)
}

/// The column of the pixel that byte `i` belongs to.
pub open spec fn byte_x(resolution: Vec2<u32>, bpp: u32, i: int) -> int {
    (i / stride(bpp)) % (resolution.x as int)
}

/// The row of the pixel that byte `i` belongs to.
pub open spec fn byte_y(resolution: Vec2<u32>, bpp: u32, i: int) -> int {
    (i / stride(bpp)) / (resolution.x as int)
}

/// Which byte of its pixel byte `i` is: 0 for blue, 1 for green, 2 for red.
pub open spec fn byte_channel(bpp: u32, i: int) -> int {
    i % stride(bpp)
}

/// The byte of `c` that goes to channel `k` of a pixel (blue, green, red order).
pub open spec fn channel(c: RGB8, k: int) -> u8 {
    if k == 0 {
        c.b
    } else if k == 1 {
        c.g
    } else {
        c.r
    }
}

/// A valid screen: 24 or 32 bits per pixel, and memory of exactly one pixel per
/// screen position.
pub open spec fn valid_screen(resolution: Vec2<u32>, bpp: u32, len: int) -> bool {
    &&& bpp == 24 || bpp == 32
    &&& len == resolution.x * resolution.y * stride(bpp)
}

/// The three color bytes of pixel `(x, y)`, in memory order (blue, green, red).
pub open spec fn pixel_bytes(bytes: Seq<u8>, resolution: Vec2<u32>, bpp: u32, x: int, y: int) -> (
    u8,
    u8,
    u8,
) {
    let o = pixel_offset(resolution, bpp, x, y);
    (bytes[o], bytes[o + 1], bytes[o + 2])
}

/// Byte `i` belongs to pixel `(x, y)` and is one of its color bytes.
pub open spec fn is_color_byte_of(resolution: Vec2<u32>, bpp: u32, i: int, x: int, y: int) -> bool {
    &&& byte_x(resolution, bpp, i) == x
    &&& byte_y(resolution, bpp, i) == y
    &&& byte_channel(bpp, i) < 3
}

/// Video memory of a screen.
#[derive(Debug)]
pub struct Vram {
    resolution: Vec2<u32>,
    bpp: u32,
    mem: Vec<u8>,
}

/// The bytes of pixel `(x, y)` decode back to `(x, y)` and their channel.
pub proof fn lemma_pixel_byte(resolution: Vec2<u32>, bpp: u32, x: int, y: int, k: int)
    requires
        bpp == 24 || bpp == 32,
        0 <= x < resolution.x,
        0 <= y,
        0 <= k < stride(bpp),
    ensures
        byte_x(resolution, bpp, pixel_offset(resolution, bpp, x, y) + k) == x,
        byte_y(resolution, bpp, pixel_offset(resolution, bpp, x, y) + k) == y,
        byte_channel(bpp, pixel_offset(resolution, bpp, x, y) + k) == k,
{
    let s = stride(bpp);
    let p = y * resolution.x + x;
    lemma_fundamental_div_mod_converse(p * s + k, s, p, k);
    lemma_fundamental_div_mod_converse(p, resolution.x as int, y, x);
}

/// A color byte of pixel `(x, y)` lies within that pixel's bytes.
pub proof fn lemma_color_byte_position(resolution: Vec2<u32>, bpp: u32, i: int, x: int, y: int)
    requires
        bpp == 24 || bpp == 32,
        resolution.x > 0,
        0 <= i,
        is_color_byte_of(resolution, bpp, i, x, y),
    ensures
        i == pixel_offset(resolution, bpp, x, y) + byte_channel(bpp, i),
{
    let s = stride(bpp);
    let p = i / s;
    let rx = resolution.x as int;
    assert(i == p * s + i % s) by (nonlinear_arith)
        requires
            s > 0,
            p == i / s,
    ;
    assert(p == y * rx + x) by (nonlinear_arith)
        requires
            rx > 0,
            x == p % rx,
            y == p / rx,
    ;
}

/// The first byte of an on-screen pixel, and its two following bytes, are within memory.
pub proof fn lemma_offset_in_range(resolution: Vec2<u32>, bpp: u32, x: int, y: int)
    requires
        bpp == 24 || bpp == 32,
        0 <= x < resolution.x,
        0 <= y < resolution.y,
    ensures
        0 <= pixel_offset(resolution, bpp, x, y),
        pixel_offset(resolution, bpp, x, y) + stride(bpp) <= resolution.x * resolution.y * stride(
            bpp,
        ),
{
    let rx = resolution.x as int;
    let ry = resolution.y as int;
    let s = stride(bpp);
    assert(y * rx + x + 1 <= rx * ry) by (nonlinear_arith)
        requires
            0 <= x < rx,
            0 <= y < ry,
    ;
    assert(0 <= (y * rx + x) * s && (y * rx + x) * s + s <= rx * ry * s) by (nonlinear_arith)
        requires
            y * rx + x + 1 <= rx * ry,
            0 <= y,
            0 <= x,
            0 <= rx,
            s > 0,
    ;
}

impl Vram {
    pub closed spec fn resolution(&self) -> Vec2<u32> {
        self.resolution
    }

    pub closed spec fn bpp(&self) -> u32 {
        self.bpp
    }

    pub closed spec fn bytes(&self) -> Seq<u8> {
        self.mem@
    }

    pub open spec fn wf(&self) -> bool {
        valid_screen(self.resolution(), self.bpp(), self.bytes().len() as int)
    }

    /// Takes the screen's memory, `bits_per_pixel / 8` bytes per pixel, row by row.
    pub fn new(resolution: Vec2<u32>, bits_per_pixel: u32, mem: Vec<u8>) -> (v: Vram)
        requires
            valid_screen(resolution, bits_per_pixel, mem@.len() as int),
        ensures
            v.resolution() == resolution,
            v.bpp() == bits_per_pixel,
            v.bytes() == mem@,
            v.wf(),
    {
        Vram { resolution, bpp: bits_per_pixel, mem }
    }

    pub fn screen_size(&self) -> (r: Vec2<u32>)
        ensures
            r == self.resolution(),
    {
        self.resolution
    }

    pub fn bits_per_pixel(&self) -> (r: u32)
        ensures
            r == self.bpp(),
    {
        self.bpp
    }

    pub fn memory(&self) -> (r: &Vec<u8>)
        ensures
            r@ == self.bytes(),
    {
        &self.mem
    }

    /// Writes `color` to the pixel at `(x, y)`: blue, green and red at its first three
    /// bytes. Every other byte, a fourth byte of the pixel included, is left as it was.
    pub fn set_color(&mut self, x: u32, y: u32, color: RGB8)
        requires
            old(self).wf(),
            x < old(self).resolution().x,
            y < old(self).resolution().y,
        ensures
            final(self).wf(),
            final(self).resolution() == old(self).resolution(),
            final(self).bpp() == old(self).bpp(),
            final(self).bytes().len() == old(self).bytes().len(),
            forall|i: int|
                0 <= i < old(self).bytes().len() ==> #[trigger] final(self).bytes()[i] == if is_color_byte_of(
                    old(self).resolution(),
                    old(self).bpp(),
                    i,
                    x as int,
                    y as int,
                ) {
                    channel(color, byte_channel(old(self).bpp(), i))
                } else {
                    old(self).bytes()[i]
                },
    {
        let ghost res = self.resolution;
        let ghost bpp = self.bpp;
        let ghost before = self.mem@;
        proof {
            lemma_offset_in_range(res, bpp, x as int, y as int);
        }
        let step: usize = (self.bpp / 8) as usize;
        let rx: usize = self.resolution.x as usize;
        assert((y as int) * (rx as int) + (x as int) < (rx as int) * (self.resolution.y as int))
            by (nonlinear_arith)
            requires
                (x as int) < (rx as int),
                (y as int) < (self.resolution.y as int),
        ;
        assert((rx as int) * (self.resolution.y as int) <= self.mem@.len()) by (nonlinear_arith)
            requires
                self.mem@.len() == (rx as int) * (self.resolution.y as int) * step as int,
                step >= 1,
        ;
        let n: usize = self.mem.len();
        assert(y as int * rx as int <= y as int * rx as int + x as int);
        let pixel: usize = y as usize * rx + x as usize;
        let offset: usize = pixel * step;
        self.mem.set(offset, color.b);
        self.mem.set(offset + 1, color.g);
        self.mem.set(offset + 2, color.r);
        proof {
            assert forall|i: int| 0 <= i < before.len() implies #[trigger] self.mem@[i] == if is_color_byte_of(
                res,
                bpp,
                i,
                x as int,
                y as int,
            ) {
                channel(color, byte_channel(bpp, i))
            } else {
                before[i]
            } by {
                if is_color_byte_of(res, bpp, i, x as int, y as int) {
                    lemma_color_byte_position(res, bpp, i, x as int, y as int);
                } else if offset <= i < offset + 3 {
                    lemma_pixel_byte(res, bpp, x as int, y as int, i - offset);
                }
            }
        }
    }
}

} // verus!
