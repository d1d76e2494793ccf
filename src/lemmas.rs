use vstd::prelude::*;

use crate::controller::{composed, in_redraw_area, position, position_from, top_color};
use crate::geometry::{Vec2, RGB8};
use crate::id::Id;
use crate::layer::Layer;
use crate::vram::{
    byte_channel, byte_x, byte_y, channel, lemma_offset_in_range, lemma_pixel_byte, pixel_bytes,
    pixel_offset, stride, valid_screen,
};

verus! {

/// The first layer found from `k` on has the id looked for, and no layer between `k` and it
/// does; `-1` means no layer from `k` on has it.
proof fn lemma_position_from(layers: Seq<Layer>, id: Id, k: int)
    requires
        0 <= k <= layers.len(),
    ensures
        position_from(layers, id, k) == -1 <==> forall|j: int|
            k <= j < layers.len() ==> #[trigger] layers[j].id_spec() != id,
        position_from(layers, id, k) != -1 ==> {
            let p = position_from(layers, id, k);
            &&& k <= p < layers.len()
            &&& layers[p].id_spec() == id
            &&& forall|j: int| k <= j < p ==> #[trigger] layers[j].id_spec() != id
        },
    decreases layers.len() - k,
{
    if k < layers.len() {
        lemma_position_from(layers, id, k + 1);
    }
}

/// Lookup by id finds the first layer with that id, and fails exactly when no layer has it.
pub proof fn lemma_position(layers: Seq<Layer>, id: Id)
    ensures
        position(layers, id) == -1 <==> forall|j: int|
            0 <= j < layers.len() ==> #[trigger] layers[j].id_spec() != id,
        position(layers, id) != -1 ==> {
            let p = position(layers, id);
            &&& 0 <= p < layers.len()
            &&& layers[p].id_spec() == id
            &&& forall|j: int| 0 <= j < p ==> #[trigger] layers[j].id_spec() != id
        },
{
    lemma_position_from(layers, id, 0);
}

/// A redraw changes no byte outside the screen's memory, and of the memory only color
/// bytes of on-screen pixels in the clipped redraw area.
pub proof fn lemma_redraw_clipped(
    bytes: Seq<u8>,
    resolution: Vec2<u32>,
    bpp: u32,
    layers: Seq<Layer>,
    left: int,
    top: int,
    w: int,
    h: int,
)
    requires
        valid_screen(resolution, bpp, bytes.len() as int),
    ensures
        composed(bytes, resolution, bpp, layers, left, top, w, h).len() == bytes.len(),
        forall|i: int|
            0 <= i < bytes.len() && #[trigger] composed(bytes, resolution, bpp, layers, left, top, w, h)[i]
                != bytes[i] ==> {
                let x = byte_x(resolution, bpp, i);
                let y = byte_y(resolution, bpp, i);
                &&& 0 <= x < resolution.x
                &&& 0 <= y < resolution.y
                &&& in_redraw_area(resolution, left, top, w, h, x, y)
                &&& byte_channel(bpp, i) < 3
            },
{
}

/// What a redraw leaves at the on-screen pixel `(x, y)`: the color that shows there if
/// the pixel is in the redraw area and some layer is opaque at it, else what was there.
pub proof fn lemma_composed_pixel(
    bytes: Seq<u8>,
    resolution: Vec2<u32>,
    bpp: u32,
    layers: Seq<Layer>,
    left: int,
    top: int,
    w: int,
    h: int,
    x: int,
    y: int,
)
    requires
        valid_screen(resolution, bpp, bytes.len() as int),
        0 <= x < resolution.x,
        0 <= y < resolution.y,
    ensures
        pixel_bytes(composed(bytes, resolution, bpp, layers, left, top, w, h), resolution, bpp, x, y)
            == if in_redraw_area(resolution, left, top, w, h, x, y) && top_color(layers, x, y) is Some {
            let c = top_color(layers, x, y)->Some_0;
            (c.b, c.g, c.r)
        } else {
            pixel_bytes(bytes, resolution, bpp, x, y)
        },
{
    lemma_offset_in_range(resolution, bpp, x, y);
    lemma_pixel_byte(resolution, bpp, x, y, 0);
    lemma_pixel_byte(resolution, bpp, x, y, 1);
    lemma_pixel_byte(resolution, bpp, x, y, 2);
}

/// The color that shows at `(x, y)` is that of layer `b` when `b` is opaque there and every
/// layer after it is transparent there.
pub proof fn lemma_top_color_of_front(layers: Seq<Layer>, b: int, x: int, y: int)
    requires
        0 <= b < layers.len(),
        layers[b].color_at(x, y) is Some,
        forall|j: int| b < j < layers.len() ==> (#[trigger] layers[j].color_at(x, y)) is None,
    ensures
        top_color(layers, x, y) == layers[b].color_at(x, y),
    decreases layers.len(),
{
    if b < layers.len() - 1 {
        let rest = layers.drop_last();
        assert(layers.last() == layers[layers.len() - 1]);
        lemma_top_color_of_front(rest, b, x, y);
        assert(rest[b] == layers[b]);
        assert forall|j: int| b < j < rest.len() implies (#[trigger] rest[j].color_at(x, y)) is None by {
            assert(rest[j] == layers[j]);
        }
    }
}

/// Of two layers opaque at an on-screen pixel, the one added later shows there after a
/// redraw that covers the pixel, as long as no layer added after it is opaque there.
pub proof fn lemma_occlusion(
    bytes: Seq<u8>,
    resolution: Vec2<u32>,
    bpp: u32,
    layers: Seq<Layer>,
    a: int,
    b: int,
    left: int,
    top: int,
    w: int,
    h: int,
    x: int,
    y: int,
)
    requires
        valid_screen(resolution, bpp, bytes.len() as int),
        0 <= x < resolution.x,
        0 <= y < resolution.y,
        in_redraw_area(resolution, left, top, w, h, x, y),
        0 <= a < b < layers.len(),
        layers[a].color_at(x, y) is Some,
        layers[b].color_at(x, y) is Some,
        forall|j: int| b < j < layers.len() ==> (#[trigger] layers[j].color_at(x, y)) is None,
    ensures
        ({
            let c = layers[b].color_at(x, y)->Some_0;
            pixel_bytes(composed(bytes, resolution, bpp, layers, left, top, w, h), resolution, bpp, x, y)
                == (c.b, c.g, c.r)
        }),
{
    lemma_top_color_of_front(layers, b, x, y);
    lemma_composed_pixel(bytes, resolution, bpp, layers, left, top, w, h, x, y);
}

/// Where the front layer is transparent, a redraw shows what the layers behind it show
/// there, or leaves the pixel as it was if none of them is opaque there.
pub proof fn lemma_transparency(
    bytes: Seq<u8>,
    resolution: Vec2<u32>,
    bpp: u32,
    layers: Seq<Layer>,
    left: int,
    top: int,
    w: int,
    h: int,
    x: int,
    y: int,
)
    requires
        valid_screen(resolution, bpp, bytes.len() as int),
        0 <= x < resolution.x,
        0 <= y < resolution.y,
        in_redraw_area(resolution, left, top, w, h, x, y),
        layers.len() > 0,
        layers.last().color_at(x, y) is None,
    ensures
        top_color(layers, x, y) == top_color(layers.drop_last(), x, y),
        pixel_bytes(composed(bytes, resolution, bpp, layers, left, top, w, h), resolution, bpp, x, y)
            == match top_color(layers.drop_last(), x, y) {
            Some(c) => (c.b, c.g, c.r),
            None => pixel_bytes(bytes, resolution, bpp, x, y),
        },
{
    lemma_composed_pixel(bytes, resolution, bpp, layers, left, top, w, h, x, y);
}

/// After a pixel of a layer is set to a color and that screen pixel is redrawn, the video
/// memory holds the color's blue, green and red bytes there, as long as the pixel is on
/// the screen and no layer in front is opaque at it.
pub proof fn lemma_set_pixel_round_trip(
    bytes: Seq<u8>,
    resolution: Vec2<u32>,
    bpp: u32,
    layers: Seq<Layer>,
    p: int,
    before: Layer,
    row: int,
    col: int,
    c: RGB8,
)
    requires
        valid_screen(resolution, bpp, bytes.len() as int),
        0 <= p < layers.len(),
        before.wf(),
        0 <= row < before.len_spec().y,
        0 <= col < before.len_spec().x,
        Layer::pixel_set(before, layers[p], row, col, Some(c)),
        0 <= before.top_left_spec().x + col < resolution.x,
        0 <= before.top_left_spec().y + row < resolution.y,
        forall|j: int|
            p < j < layers.len() ==> (#[trigger] layers[j].color_at(
                before.top_left_spec().x + col,
                before.top_left_spec().y + row,
            )) is None,
    ensures
        ({
            let x = before.top_left_spec().x + col;
            let y = before.top_left_spec().y + row;
            pixel_bytes(composed(bytes, resolution, bpp, layers, x, y, 1, 1), resolution, bpp, x, y)
                == (c.b, c.g, c.r)
        }),
{
    let x = before.top_left_spec().x + col;
    let y = before.top_left_spec().y + row;
    let l = layers[p];
    assert(l.pixels()[row][col] == Some(c));
    assert(l.color_at(x, y) == Some(c));
    lemma_top_color_of_front(layers, p, x, y);
    lemma_composed_pixel(bytes, resolution, bpp, layers, x, y, 1, 1, x, y);
}

} // verus!
