use vstd::prelude::*;

use crate::geometry::{Vec2, RGB8};
use crate::id::{Id, IdSource};

verus! {

/// A rectangle of pixels placed on the screen.
///
/// Pixels are addressed by row, then column. `None` is a transparent pixel.
#[derive(Debug)]
pub struct Layer {
    buf: Vec<Vec<Option<RGB8>>>,
    top_left: Vec2<i32>,
    len: Vec2<u32>,
    id: Id,
}

impl Layer {
    /// The pixels, row by row.
    pub closed spec fn pixels(&self) -> Seq<Seq<Option<RGB8>>> {
        self.buf@.map_values(|row: Vec<Option<RGB8>>| row@)
    }

    /// Where the layer's pixel at row 0, column 0 lies on the screen.
    pub closed spec fn top_left_spec(&self) -> Vec2<i32> {
        self.top_left
    }

    /// Width (`x`) and height (`y`).
    pub closed spec fn len_spec(&self) -> Vec2<u32> {
        self.len
    }

    pub closed spec fn id_spec(&self) -> Id {
        self.id
    }

    /// The grid has `len.y` rows of `len.x` pixels each.
    #[verifier::type_invariant]
    pub open spec fn wf(&self) -> bool {
        &&& self.pixels().len() == self.len_spec().y
        &&& forall|r: int|
            0 <= r < self.pixels().len() ==> #[trigger] self.pixels()[r].len() == self.len_spec().x
    }

    /// The screen point `(x, y)` lies in the layer's rectangle.
    pub open spec fn covers(&self, x: int, y: int) -> bool {
        &&& self.top_left_spec().x <= x < self.top_left_spec().x + self.len_spec().x
        &&& self.top_left_spec().y <= y < self.top_left_spec().y + self.len_spec().y
    }

    /// What the layer holds at the screen point `(x, y)`: `None` where it is transparent
    /// or does not reach.
    pub open spec fn color_at(&self, x: int, y: int) -> Option<RGB8> {
        if self.covers(x, y) {
            self.pixels()[y - self.top_left_spec().y][x - self.top_left_spec().x]
        } else {
            None
        }
    }

    /// `after` is `before` with the pixel at `(row, col)` set to `color`.
    pub open spec fn pixel_set(before: Layer, after: Layer, row: int, col: int, color: Option<
        RGB8,
    >) -> bool {
        &&& after.pixels() == before.pixels().update(row, before.pixels()[row].update(col, color))
        &&& after.top_left_spec() == before.top_left_spec()
        &&& after.len_spec() == before.len_spec()
        &&& after.id_spec() == before.id_spec()
    }

    /// `after` is `before` moved so that its top-left pixel lies at `new_top_left`.
    pub open spec fn slid(before: Layer, after: Layer, new_top_left: Vec2<i32>) -> bool {
        &&& after.pixels() == before.pixels()
        &&& after.top_left_spec() == new_top_left
        &&& after.len_spec() == before.len_spec()
        &&& after.id_spec() == before.id_spec()
    }

    /// Creates a transparent layer of size `len` at `top_left`, with the next id of `ids`.
    ///
    /// The layer may lie partly or wholly off the screen; what does not fit is not drawn.
    pub fn new(top_left: Vec2<i32>, len: Vec2<u32>, ids: &mut IdSource) -> (layer: Layer)
        ensures
            layer.top_left_spec() == top_left,
            layer.len_spec() == len,
            layer.id_spec()@ == old(ids)@,
            final(ids)@ == IdSource::successor(old(ids)@),
            forall|r: int, c: int|
                0 <= r < len.y && 0 <= c < len.x ==> #[trigger] layer.pixels()[r][c] is None,
    {
        let mut buf: Vec<Vec<Option<RGB8>>> = Vec::new();
        let mut r: u32 = 0;
        while r < len.y
            invariant
                r <= len.y,
                buf@.len() == r,
                forall|i: int|
                    0 <= i < r ==> (#[trigger] buf@[i])@.len() == len.x && forall|c: int|
                        0 <= c < len.x ==> buf@[i]@[c] is None,
            decreases len.y - r,
        {
            let mut row: Vec<Option<RGB8>> = Vec::new();
            let mut c: u32 = 0;
            while c < len.x
                invariant
                    c <= len.x,
                    row@.len() == c,
                    forall|j: int| 0 <= j < c ==> row@[j] is None,
                decreases len.x - c,
            {
                row.push(None);
                c = c + 1;
            }
            buf.push(row);
            r = r + 1;
        }
        let layer = Layer { buf, top_left, len, id: Id::new(ids) };
        assert forall|i: int| 0 <= i < layer.pixels().len() implies #[trigger] layer.pixels()[i].len()
            == len.x by {
            assert(layer.pixels()[i] == buf@[i]@);
        }
        assert forall|i: int, c: int| 0 <= i < len.y && 0 <= c < len.x implies #[trigger] layer.pixels()[i][c] is None by {
            assert(layer.pixels()[i] == buf@[i]@);
        }
        layer
    }

    pub fn top_left(&self) -> (r: Vec2<i32>)
        ensures
            r == self.top_left_spec(),
    {
        self.top_left
    }

    pub fn len(&self) -> (r: Vec2<u32>)
        ensures
            r == self.len_spec(),
    {
        self.len
    }

    pub fn id(&self) -> (r: Id)
        ensures
            r == self.id_spec(),
    {
        self.id
    }

    /// The pixel at `row`, `col`.
    pub fn get(&self, row: usize, col: usize) -> (r: Option<RGB8>)
        requires
            row < self.len_spec().y,
            col < self.len_spec().x,
        ensures
            r == self.pixels()[row as int][col as int],
    {
        proof {
            use_type_invariant(self);
        }
        assert(self.pixels()[row as int] == self.buf@[row as int]@);
        self.buf[row][col]
    }

    /// Sets the pixel at `row`, `col` to `color`.
    pub fn set(&mut self, row: usize, col: usize, color: Option<RGB8>)
        requires
            row < old(self).len_spec().y,
            col < old(self).len_spec().x,
        ensures
            Layer::pixel_set(*old(self), *final(self), row as int, col as int, color),
    {
        proof {
            use_type_invariant(&*self);
        }
        let ghost before = self.pixels();
        assert(before[row as int] == self.buf@[row as int]@);
        let width: usize = self.len.x as usize;
        let mut line: Vec<Option<RGB8>> = Vec::new();
        let mut c: usize = 0;
        while c < width
            invariant
                *self == *old(self),
                before == self.pixels(),
                (row as int) < self.buf@.len(),
                before[row as int] == self.buf@[row as int]@,
                width == self.len_spec().x,
                col < width,
                before[row as int].len() == width,
                c <= width,
                line@ == before[row as int].update(col as int, color).take(c as int),
            decreases width - c,
        {
            if c == col {
                line.push(color);
            } else {
                line.push(self.buf[row][c]);
            }
            assert(line@ =~= before[row as int].update(col as int, color).take(c + 1));
            c = c + 1;
        }
        assert(line@ =~= before[row as int].update(col as int, color));
        let mut taken = Layer {
            buf: Vec::new(),
            top_left: self.top_left,
            len: Vec2 { x: 0, y: 0 },
            id: self.id,
        };
        std::mem::swap(self, &mut taken);
        let Layer { mut buf, top_left, len, id } = taken;
        buf.set(row, line);
        let ghost after = buf@.map_values(|r: Vec<Option<RGB8>>| r@);
        assert(after =~= before.update(row as int, before[row as int].update(col as int, color))) by {
            assert forall|i: int| 0 <= i < before.len() implies after[i] == before.update(
                row as int,
                before[row as int].update(col as int, color),
            )[i] by {
                if i != row {
                    assert(after[i] == buf@[i]@);
                }
            }
        }
        assert forall|r: int| 0 <= r < after.len() implies #[trigger] after[r].len() == len.x by {
            assert(before[r].len() == len.x);
        }
        *self = Layer { buf, top_left, len, id };
    }

    /// Moves the layer so that its top-left pixel lies at `new_top_left`.
    pub(crate) fn slide(&mut self, new_top_left: Vec2<i32>)
        ensures
            Layer::slid(*old(self), *final(self), new_top_left),
    {
        proof {
            use_type_invariant(&*self);
        }
        self.top_left = new_top_left;
    }
}

} // verus!
