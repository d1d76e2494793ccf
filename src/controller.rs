use vstd::prelude::*;

use crate::geometry::{Vec2, RGB8};
use crate::id::Id;
use crate::layer::Layer;
use crate::vram::{
    byte_channel, byte_x, byte_y, channel, valid_screen, Vram,
};

verus! {

/// Errors returned by the controller's methods.
#[derive(Copy, Clone, PartialEq, Eq, Structural, PartialOrd, Ord, Hash, Debug)]
pub enum Error {
    /// No layer has the given id.
    NoSuchLayer(Id),
}

/// `v` clamped to `[0, hi]`.
pub open spec fn clamp(v: int, hi: int) -> int {
    if v < 0 {
        0
    } else if v > hi {
        hi
    } else {
        v
    }
}

/// The screen pixel `(x, y)` lies in the area that a redraw of the rectangle at
/// `(left, top)` of size `w` by `h` recomposes: the rectangle's top-left corner is
/// clamped to the screen, and so is that clamped corner moved by the size.
pub open spec fn in_redraw_area(
    resolution: Vec2<u32>,
    left: int,
    top: int,
    w: int,
    h: int,
    x: int,
    y: int,
) -> bool {
    let x0 = clamp(left, resolution.x as int);
    let y0 = clamp(top, resolution.y as int);
    let x1 = clamp(x0 + w, resolution.x as int);
    let y1 = clamp(y0 + h, resolution.y as int);
    x0 <= x < x1 && y0 <= y < y1
}

/// The color that shows at the screen point `(x, y)`: that of the last layer that is
/// opaque there, or `None` where every layer is transparent or absent.
pub open spec fn top_color(layers: Seq<Layer>, x: int, y: int) -> Option<RGB8>
    decreases layers.len(),
{
    if layers.len() == 0 {
        None
    } else if layers.last().color_at(x, y) is Some {
        layers.last().color_at(x, y)
    } else {
        top_color(layers.drop_last(), x, y)
    }
}

/// `bytes` with every color byte of a pixel in the given redraw area set to the
/// color that shows there, where some layer is opaque; all other bytes as they were.
pub open spec fn composed(
    bytes: Seq<u8>,
    resolution: Vec2<u32>,
    bpp: u32,
    layers: Seq<Layer>,
    left: int,
    top: int,
    w: int,
    h: int,
) -> Seq<u8> {
    Seq::new(
        bytes.len(),
        |i: int|
            {
                let x = byte_x(resolution, bpp, i);
                let y = byte_y(resolution, bpp, i);
                if byte_channel(bpp, i) < 3 && in_redraw_area(resolution, left, top, w, h, x, y)
                    && top_color(layers, x, y) is Some {
                    channel(top_color(layers, x, y)->Some_0, byte_channel(bpp, i))
                } else {
                    bytes[i]
                }
            },
    )
}

/// `bytes` with the opaque pixels of `layer` inside the rectangle `[x0, x1) x [y0, y1)`
/// written over them.
pub open spec fn overlay(
    bytes: Seq<u8>,
    resolution: Vec2<u32>,
    bpp: u32,
    layer: Layer,
    x0: int,
    x1: int,
    y0: int,
    y1: int,
) -> Seq<u8> {
    Seq::new(
        bytes.len(),
        |i: int|
            {
                let x = byte_x(resolution, bpp, i);
                let y = byte_y(resolution, bpp, i);
                if byte_channel(bpp, i) < 3 && x0 <= x < x1 && y0 <= y < y1 && layer.color_at(
                    x,
                    y,
                ) is Some {
                    channel(layer.color_at(x, y)->Some_0, byte_channel(bpp, i))
                } else {
                    bytes[i]
                }
            },
    )
}

/// The index of the first layer from `k` on whose id is `id`, or `-1` if there is none.
pub open spec fn position_from(layers: Seq<Layer>, id: Id, k: int) -> int
    decreases layers.len() - k,
{
    if k < 0 || k >= layers.len() {
        -1
    } else if layers[k].id_spec() == id {
        k
    } else {
        position_from(layers, id, k + 1)
    }
}

/// The index of the first layer whose id is `id`, or `-1` if there is none.
pub open spec fn position(layers: Seq<Layer>, id: Id) -> int {
    position_from(layers, id, 0)
}

fn clamp_exec(v: i64, hi: i64) -> (r: i64)
    requires
        hi >= 0,
    ensures
        r == clamp(v as int, hi as int),
{
    if v < 0 {
        0
    } else if v > hi {
        hi
    } else {
        v
    }
}

fn min_i64(a: i64, b: i64) -> (r: i64)
    ensures
        r == if a <= b {
            a
        } else {
            b
        },
{
    if a <= b {
        a
    } else {
        b
    }
}

fn max_i64(a: i64, b: i64) -> (r: i64)
    ensures
        r == if a >= b {
            a
        } else {
            b
        },
{
    if a >= b {
        a
    } else {
        b
    }
}

/// Writes the opaque pixels of `layer` inside `[x0, x1) x [y0, y1)` to `vram`, row by row.
fn draw_layer(vram: &mut Vram, layer: &Layer, x0: i64, x1: i64, y0: i64, y1: i64)
    requires
        old(vram).wf(),
        x0 < x1 && y0 < y1 ==> {
            &&& 0 <= x0 && x1 <= old(vram).resolution().x
            &&& 0 <= y0 && y1 <= old(vram).resolution().y
            &&& layer.covers(x0 as int, y0 as int)
            &&& layer.covers(x1 - 1, y1 - 1)
        },
    ensures
        final(vram).wf(),
        final(vram).resolution() == old(vram).resolution(),
        final(vram).bpp() == old(vram).bpp(),
        final(vram).bytes() == overlay(
            old(vram).bytes(),
            old(vram).resolution(),
            old(vram).bpp(),
            *layer,
            x0 as int,
            x1 as int,
            y0 as int,
            y1 as int,
        ),
{
    let ghost res = vram.resolution();
    let ghost bpp = vram.bpp();
    let ghost start = vram.bytes();
    if x0 >= x1 {
        assert(vram.bytes() =~= overlay(start, res, bpp, *layer, x0 as int, x1 as int, y0 as int, y1 as int));
        return;
    }
    let top_left = layer.top_left();
    let mut y = y0;
    assert(vram.bytes() =~= overlay(start, res, bpp, *layer, x0 as int, x1 as int, y0 as int, y0 as int));
    while y < y1
        invariant
            x0 < x1,
            y0 <= y <= y1 || y1 <= y0 == y,
            vram.wf(),
            vram.resolution() == res,
            vram.bpp() == bpp,
            top_left == layer.top_left_spec(),
            y0 < y1 ==> {
                &&& 0 <= x0 && x1 <= res.x
                &&& 0 <= y0 && y1 <= res.y
                &&& layer.covers(x0 as int, y0 as int)
                &&& layer.covers(x1 - 1, y1 - 1)
            },
            vram.bytes() == overlay(start, res, bpp, *layer, x0 as int, x1 as int, y0 as int, y as int),
        decreases y1 - y,
    {
        let ghost row_start = vram.bytes();
        let mut x = x0;
        assert(vram.bytes() =~= overlay(row_start, res, bpp, *layer, x0 as int, x0 as int, y as int, y + 1));
        while x < x1
            invariant
                x0 <= x <= x1,
                y0 <= y < y1,
                vram.wf(),
                vram.resolution() == res,
                vram.bpp() == bpp,
                top_left == layer.top_left_spec(),
                0 <= x0 && x1 <= res.x,
                0 <= y0 && y1 <= res.y,
                layer.covers(x0 as int, y0 as int),
                layer.covers(x1 - 1, y1 - 1),
                vram.bytes() == overlay(row_start, res, bpp, *layer, x0 as int, x as int, y as int, y + 1),
            decreases x1 - x,
        {
            let ghost before = vram.bytes();
            let row = (y - top_left.y as i64) as usize;
            let col = (x - top_left.x as i64) as usize;
            let pixel = layer.get(row, col);
            assert(layer.color_at(x as int, y as int) == pixel);
            match pixel {
                Some(c) => {
                    vram.set_color(x as u32, y as u32, c);
                },
                None => {},
            }
            assert(vram.bytes() =~= overlay(row_start, res, bpp, *layer, x0 as int, x + 1, y as int, y + 1));
            x = x + 1;
        }
        assert(vram.bytes() =~= overlay(start, res, bpp, *layer, x0 as int, x1 as int, y0 as int, y + 1));
        y = y + 1;
    }
}

/// A controller of layers: the screen's video memory and the layers drawn on it.
///
/// Layers are kept in the order they were added; a layer added later is drawn over the
/// ones before it.
#[derive(Debug)]
pub struct Controller {
    vram: Vram,
    collection: Vec<Layer>,
}

impl Controller {
    /// The layers, back to front.
    pub closed spec fn layers(&self) -> Seq<Layer> {
        self.collection@
    }

    /// The video memory.
    pub closed spec fn bytes(&self) -> Seq<u8> {
        self.vram.bytes()
    }

    /// Screen width (`x`) and height (`y`) in pixels.
    pub closed spec fn resolution(&self) -> Vec2<u32> {
        self.vram.resolution()
    }

    pub closed spec fn bpp(&self) -> u32 {
        self.vram.bpp()
    }

    pub open spec fn wf(&self) -> bool {
        valid_screen(self.resolution(), self.bpp(), self.bytes().len() as int)
    }

    /// The video memory after a redraw of the rectangle at `(left, top)` of size `w` by `h`.
    pub open spec fn redrawn(&self, left: int, top: int, w: int, h: int) -> Seq<u8> {
        composed(self.bytes(), self.resolution(), self.bpp(), self.layers(), left, top, w, h)
    }

    /// Creates a controller with no layers over the video memory `vram`: a screen of
    /// `resolution` pixels, `bits_per_pixel / 8` bytes per pixel, row by row.
    pub fn new(resolution: Vec2<u32>, bits_per_pixel: u32, vram: Vec<u8>) -> (c: Controller)
        requires
            valid_screen(resolution, bits_per_pixel, vram@.len() as int),
        ensures
            c.wf(),
            c.layers() == Seq::<Layer>::empty(),
            c.bytes() == vram@,
            c.resolution() == resolution,
            c.bpp() == bits_per_pixel,
    {
        Controller { vram: Vram::new(resolution, bits_per_pixel, vram), collection: Vec::new() }
    }

    /// The video memory.
    pub fn vram(&self) -> (r: &Vec<u8>)
        ensures
            r@ == self.bytes(),
    {
        self.vram.memory()
    }

    /// The layers, back to front.
    pub fn layer_list(&self) -> (r: &Vec<Layer>)
        ensures
            r@ == self.layers(),
    {
        &self.collection
    }

    /// Recomposes the rectangle at `(left, top)` of size `w` by `h`, clipped to the
    /// screen: each layer from back to front writes its opaque pixels there.
    fn redraw(&mut self, left: i64, top: i64, w: u32, h: u32)
        requires
            old(self).wf(),
        ensures
            final(self).wf(),
            final(self).layers() == old(self).layers(),
            final(self).resolution() == old(self).resolution(),
            final(self).bpp() == old(self).bpp(),
            final(self).bytes() == old(self).redrawn(left as int, top as int, w as int, h as int),
    {
        let ghost start = self.bytes();
        let ghost res = self.resolution();
        let ghost bpp = self.bpp();
        let ghost layers = self.layers();
        let screen = self.vram.screen_size();
        let x0 = clamp_exec(left, screen.x as i64);
        let y0 = clamp_exec(top, screen.y as i64);
        let x1 = clamp_exec(x0 + w as i64, screen.x as i64);
        let y1 = clamp_exec(y0 + h as i64, screen.y as i64);
        let mut k: usize = 0;
        assert(self.bytes() =~= composed(start, res, bpp, layers.take(0), left as int, top as int, w as int, h as int));
        while k < self.collection.len()
            invariant
                self.wf(),
                self.layers() == layers,
                self.resolution() == res,
                self.bpp() == bpp,
                screen == res,
                x0 == clamp(left as int, res.x as int),
                y0 == clamp(top as int, res.y as int),
                x1 == clamp(x0 + w, res.x as int),
                y1 == clamp(y0 + h, res.y as int),
                k <= layers.len(),
                self.bytes() == composed(start, res, bpp, layers.take(k as int), left as int, top as int, w as int, h as int),
            decreases layers.len() - k,
        {
            let ghost mid = self.bytes();
            let layer = &self.collection[k];
            let top_left = layer.top_left();
            let size = layer.len();
            let lx0 = top_left.x as i64;
            let ly0 = top_left.y as i64;
            let lx1 = lx0 + size.x as i64;
            let ly1 = ly0 + size.y as i64;
            let ix0 = min_i64(max_i64(x0, lx0), lx1);
            let iy0 = min_i64(max_i64(y0, ly0), ly1);
            let ix1 = max_i64(ix0, min_i64(x1, lx1));
            let iy1 = max_i64(iy0, min_i64(y1, ly1));
            draw_layer(&mut self.vram, &self.collection[k], ix0, ix1, iy0, iy1);
            proof {
                let next = layers.take(k + 1);
                assert(next.drop_last() =~= layers.take(k as int));
                assert(next.last() == layers[k as int]);
                assert(self.bytes() =~= composed(start, res, bpp, next, left as int, top as int, w as int, h as int));
            }
            k = k + 1;
        }
        assert(layers.take(layers.len() as int) =~= layers);
    }

    /// The index of the first layer whose id is `id`.
    fn id_to_index(&self, id: Id) -> (r: Result<usize, Error>)
        ensures
            match r {
                Ok(i) => i as int == position(self.layers(), id) && i < self.layers().len(),
                Err(e) => position(self.layers(), id) == -1 && e == Error::NoSuchLayer(id),
            },
    {
        let mut k: usize = 0;
        while k < self.collection.len()
            invariant
                k <= self.layers().len(),
                position(self.layers(), id) == position_from(self.layers(), id, k as int),
            decreases self.layers().len() - k,
        {
            if self.collection[k].id() == id {
                return Ok(k);
            }
            k = k + 1;
        }
        Err(Error::NoSuchLayer(id))
    }

    /// Adds `layer` in front of all others and draws it.
    ///
    /// Returns the layer's id, which the other methods take to find it.
    pub fn add_layer(&mut self, layer: Layer) -> (id: Id)
        requires
            old(self).wf(),
        ensures
            final(self).wf(),
            final(self).resolution() == old(self).resolution(),
            final(self).bpp() == old(self).bpp(),
            final(self).layers() == old(self).layers().push(layer),
            id == layer.id_spec(),
            final(self).bytes() == composed(
                old(self).bytes(),
                old(self).resolution(),
                old(self).bpp(),
                final(self).layers(),
                layer.top_left_spec().x as int,
                layer.top_left_spec().y as int,
                layer.len_spec().x as int,
                layer.len_spec().y as int,
            ),
    {
        let id = layer.id();
        let top_left = layer.top_left();
        let len = layer.len();
        self.collection.push(layer);
        self.redraw(top_left.x as i64, top_left.y as i64, len.x, len.y);
        id
    }

    /// Applies `f` to the layer with id `id`, then redraws the whole rectangle the layer
    /// covered before the call.
    ///
    /// Fails with `NoSuchLayer` if no layer has that id, and then changes nothing.
    pub fn edit_layer<F: Fn(&mut Layer)>(&mut self, id: Id, f: F) -> (r: Result<(), Error>)
        requires
            old(self).wf(),
            forall|l: &mut Layer| f.requires((l,)),
        ensures
            final(self).wf(),
            final(self).resolution() == old(self).resolution(),
            final(self).bpp() == old(self).bpp(),
            ({
                let p = position(old(self).layers(), id);
                match r {
                    Ok(()) => {
                        &&& 0 <= p < old(self).layers().len()
                        &&& final(self).layers().len() == old(self).layers().len()
                        &&& forall|j: int|
                            0 <= j < old(self).layers().len() && j != p
                                ==> #[trigger] final(self).layers()[j] == old(self).layers()[j]
                        &&& final(self).bytes() == composed(
                            old(self).bytes(),
                            old(self).resolution(),
                            old(self).bpp(),
                            final(self).layers(),
                            old(self).layers()[p].top_left_spec().x as int,
                            old(self).layers()[p].top_left_spec().y as int,
                            old(self).layers()[p].len_spec().x as int,
                            old(self).layers()[p].len_spec().y as int,
                        )
                    },
                    Err(e) => {
                        &&& p == -1
                        &&& e == Error::NoSuchLayer(id)
                        &&& final(self).layers() == old(self).layers()
                        &&& final(self).bytes() == old(self).bytes()
                    },
                }
            }),
    {
        let i = match self.id_to_index(id) {
            Ok(i) => i,
            Err(e) => return Err(e),
        };
        let top_left = self.collection[i].top_left();
        let len = self.collection[i].len();
        f(&mut self.collection[i]);
        self.redraw(top_left.x as i64, top_left.y as i64, len.x, len.y);
        Ok(())
    }

    /// Sets the pixel at `coord` (column `x`, row `y`, relative to the layer's top-left)
    /// of the layer with id `id` to `color`, then redraws only that screen pixel.
    ///
    /// Fails with `NoSuchLayer` if no layer has that id, and then changes nothing.
    pub fn set_pixel(&mut self, id: Id, coord: Vec2<u32>, color: Option<RGB8>) -> (r: Result<
        (),
        Error,
    >)
        requires
            old(self).wf(),
            position(old(self).layers(), id) >= 0 ==> {
                let l = old(self).layers()[position(old(self).layers(), id)];
                coord.x < l.len_spec().x && coord.y < l.len_spec().y
            },
        ensures
            final(self).wf(),
            final(self).resolution() == old(self).resolution(),
            final(self).bpp() == old(self).bpp(),
            ({
                let p = position(old(self).layers(), id);
                match r {
                    Ok(()) => {
                        let l = old(self).layers()[p];
                        &&& 0 <= p < old(self).layers().len()
                        &&& final(self).layers().len() == old(self).layers().len()
                        &&& forall|j: int|
                            0 <= j < old(self).layers().len() && j != p
                                ==> #[trigger] final(self).layers()[j] == old(self).layers()[j]
                        &&& Layer::pixel_set(l, final(self).layers()[p], coord.y as int, coord.x as int, color)
                        &&& final(self).bytes() == composed(
                            old(self).bytes(),
                            old(self).resolution(),
                            old(self).bpp(),
                            final(self).layers(),
                            l.top_left_spec().x + coord.x,
                            l.top_left_spec().y + coord.y,
                            1,
                            1,
                        )
                    },
                    Err(e) => {
                        &&& p == -1
                        &&& e == Error::NoSuchLayer(id)
                        &&& final(self).layers() == old(self).layers()
                        &&& final(self).bytes() == old(self).bytes()
                    },
                }
            }),
    {
        let i = match self.id_to_index(id) {
            Ok(i) => i,
            Err(e) => return Err(e),
        };
        let top_left = self.collection[i].top_left();
        self.collection[i].set(coord.y as usize, coord.x as usize, color);
        self.redraw(top_left.x as i64 + coord.x as i64, top_left.y as i64 + coord.y as i64, 1, 1);
        Ok(())
    }

    /// Moves the layer with id `id` so that its top-left pixel lies at `new_top_left`, then
    /// redraws the rectangle it left and the one it now covers.
    ///
    /// Fails with `NoSuchLayer` if no layer has that id, and then changes nothing.
    pub fn slide_layer(&mut self, id: Id, new_top_left: Vec2<i32>) -> (r: Result<(), Error>)
        requires
            old(self).wf(),
        ensures
            final(self).wf(),
            final(self).resolution() == old(self).resolution(),
            final(self).bpp() == old(self).bpp(),
            ({
                let p = position(old(self).layers(), id);
                match r {
                    Ok(()) => {
                        let l = old(self).layers()[p];
                        let res = old(self).resolution();
                        let bpp = old(self).bpp();
                        let layers = final(self).layers();
                        &&& 0 <= p < old(self).layers().len()
                        &&& layers == old(self).layers().update(p, layers[p])
                        &&& Layer::slid(l, layers[p], new_top_left)
                        &&& final(self).bytes() == composed(
                            composed(
                                old(self).bytes(),
                                res,
                                bpp,
                                layers,
                                l.top_left_spec().x as int,
                                l.top_left_spec().y as int,
                                l.len_spec().x as int,
                                l.len_spec().y as int,
                            ),
                            res,
                            bpp,
                            layers,
                            new_top_left.x as int,
                            new_top_left.y as int,
                            l.len_spec().x as int,
                            l.len_spec().y as int,
                        )
                    },
                    Err(e) => {
                        &&& p == -1
                        &&& e == Error::NoSuchLayer(id)
                        &&& final(self).layers() == old(self).layers()
                        &&& final(self).bytes() == old(self).bytes()
                    },
                }
            }),
    {
        let i = match self.id_to_index(id) {
            Ok(i) => i,
            Err(e) => return Err(e),
        };
        let old_top_left = self.collection[i].top_left();
        let len = self.collection[i].len();
        self.collection[i].slide(new_top_left);
        assert(self.layers() =~= old(self).layers().update(i as int, self.layers()[i as int]));
        self.redraw(old_top_left.x as i64, old_top_left.y as i64, len.x, len.y);
        self.redraw(new_top_left.x as i64, new_top_left.y as i64, len.x, len.y);
        Ok(())
    }
}

} // verus!
