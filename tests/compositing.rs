use screen_layer::{Controller, Error, Id, IdSource, Layer, Vec2, RGB8};

const WIDTH: u32 = 10;
const HEIGHT: u32 = 10;

fn screen(bpp: u32, fill: u8) -> Controller {
    let bytes = vec![fill; (WIDTH * HEIGHT * bpp / 8) as usize];
    Controller::new(Vec2::new(WIDTH, HEIGHT), bpp, bytes)
}

fn pixel(c: &Controller, bpp: u32, x: u32, y: u32) -> (u8, u8, u8) {
    let o = ((y * WIDTH + x) * bpp / 8) as usize;
    let v = c.vram();
    (v[o], v[o + 1], v[o + 2])
}

fn filled(ids: &mut IdSource, x: i32, y: i32, w: u32, h: u32, color: RGB8) -> Layer {
    let mut layer = Layer::new(Vec2::new(x, y), Vec2::new(w, h), ids);
    for r in 0..h as usize {
        for c in 0..w as usize {
            layer.set(r, c, Some(color));
        }
    }
    layer
}

#[test]
fn diagonal_edit_then_set_pixel() {
    let bpp = 32;
    let mut ids = IdSource::new();
    let mut controller = screen(bpp, 0);
    let layer = Layer::new(Vec2::new(0, 0), Vec2::new(5, 5), &mut ids);
    let id = controller.add_layer(layer);
    controller
        .edit_layer(id, |layer: &mut Layer| {
            for i in 0..5usize {
                layer.set(i, i, Some(RGB8::new(0, 255, 0)));
            }
        })
        .unwrap();
    for y in 0..5u32 {
        for x in 0..5u32 {
            let o = (bpp / 8 * (y * WIDTH + x)) as usize;
            if x == y {
                assert_eq!(controller.vram()[o], 0);
                assert_eq!(controller.vram()[o + 1], 255);
                assert_eq!(controller.vram()[o + 2], 0);
            } else {
                assert_eq!(pixel(&controller, bpp, x, y), (0, 0, 0));
            }
        }
    }
    controller.set_pixel(id, Vec2::new(1, 1), Some(RGB8::new(255, 0, 0))).unwrap();
    assert_eq!(pixel(&controller, bpp, 1, 1), (0, 0, 255));
    assert!(controller.vram().iter().skip(5 * 10 * 4).all(|b| *b == 0));
}

#[test]
fn slide_off_the_top_left_corner() {
    let bpp = 32;
    let mut ids = IdSource::new();
    let mut controller = screen(bpp, 0);
    let blue = RGB8::new(0, 0, 255);
    let back = controller.add_layer(filled(&mut ids, 0, 0, WIDTH, HEIGHT, blue));
    let mut front = Layer::new(Vec2::new(0, 0), Vec2::new(5, 5), &mut ids);
    for r in 0..5usize {
        for c in 0..5usize {
            front.set(r, c, Some(RGB8::new(10 * r as u8, 10 * c as u8, 1)));
        }
    }
    let id = controller.add_layer(front);
    assert_ne!(id, back);
    assert_eq!(pixel(&controller, bpp, 4, 4), (1, 40, 40));
    controller.slide_layer(id, Vec2::new(-3, -3)).unwrap();
    for y in 0..HEIGHT {
        for x in 0..WIDTH {
            let expected = if x < 2 && y < 2 {
                let (r, c) = (y as u8 + 3, x as u8 + 3);
                (1, 10 * c, 10 * r)
            } else {
                (blue.b, blue.g, blue.r)
            };
            assert_eq!(pixel(&controller, bpp, x, y), expected, "at ({}, {})", x, y);
        }
    }
}

#[test]
fn later_layer_covers_earlier() {
    let bpp = 24;
    let mut ids = IdSource::new();
    let mut controller = screen(bpp, 0);
    controller.add_layer(filled(&mut ids, 0, 0, 6, 6, RGB8::new(1, 2, 3)));
    controller.add_layer(filled(&mut ids, 3, 3, 6, 6, RGB8::new(7, 8, 9)));
    assert_eq!(pixel(&controller, bpp, 4, 4), (9, 8, 7));
    assert_eq!(pixel(&controller, bpp, 2, 2), (3, 2, 1));
    assert_eq!(pixel(&controller, bpp, 8, 8), (9, 8, 7));
    assert_eq!(pixel(&controller, bpp, 9, 9), (0, 0, 0));
}

#[test]
fn transparent_pixel_shows_what_is_beneath() {
    let bpp = 32;
    let mut ids = IdSource::new();
    let mut controller = screen(bpp, 7);
    controller.add_layer(filled(&mut ids, 0, 0, 2, 1, RGB8::new(1, 2, 3)));
    let mut top = filled(&mut ids, 0, 0, 3, 1, RGB8::new(9, 9, 9));
    top.set(0, 0, None);
    top.set(0, 2, None);
    controller.add_layer(top);
    assert_eq!(pixel(&controller, bpp, 0, 0), (3, 2, 1));
    assert_eq!(pixel(&controller, bpp, 1, 0), (9, 9, 9));
    assert_eq!(pixel(&controller, bpp, 2, 0), (7, 7, 7));
}

#[test]
fn fourth_byte_is_left_alone() {
    let bpp = 32;
    let mut ids = IdSource::new();
    let mut controller = screen(bpp, 0xAA);
    controller.add_layer(filled(&mut ids, 0, 0, WIDTH, HEIGHT, RGB8::new(1, 2, 3)));
    for p in 0..(WIDTH * HEIGHT) as usize {
        assert_eq!(&controller.vram()[4 * p..4 * p + 4], &[3, 2, 1, 0xAA]);
    }
}

#[test]
fn layers_partly_or_wholly_off_screen_are_clipped() {
    let bpp = 24;
    let mut ids = IdSource::new();
    let mut controller = screen(bpp, 0);
    controller.add_layer(filled(&mut ids, 8, 8, 5, 5, RGB8::new(4, 5, 6)));
    controller.add_layer(filled(&mut ids, -20, -20, 5, 5, RGB8::new(1, 1, 1)));
    controller.add_layer(filled(&mut ids, 12, 0, 5, 5, RGB8::new(1, 1, 1)));
    assert_eq!(controller.vram().len(), 300);
    for y in 0..HEIGHT {
        for x in 0..WIDTH {
            let expected = if x >= 8 && y >= 8 { (6, 5, 4) } else { (0, 0, 0) };
            assert_eq!(pixel(&controller, bpp, x, y), expected);
        }
    }
}

#[test]
fn set_pixel_redraws_only_that_pixel() {
    let bpp = 24;
    let mut ids = IdSource::new();
    let mut controller = screen(bpp, 0);
    let id = controller.add_layer(Layer::new(Vec2::new(-1, 2), Vec2::new(4, 4), &mut ids));
    controller.set_pixel(id, Vec2::new(3, 1), Some(RGB8::new(20, 30, 40))).unwrap();
    assert_eq!(pixel(&controller, bpp, 2, 3), (40, 30, 20));
    assert_eq!(controller.vram().iter().filter(|b| **b != 0).count(), 3);
    controller.set_pixel(id, Vec2::new(0, 0), Some(RGB8::new(20, 30, 40))).unwrap();
    assert_eq!(controller.vram().iter().filter(|b| **b != 0).count(), 3);
}

#[test]
fn unknown_id_is_no_such_layer() {
    let bpp = 32;
    let mut ids = IdSource::new();
    let mut controller = screen(bpp, 0);
    controller.add_layer(filled(&mut ids, 0, 0, 2, 2, RGB8::new(1, 2, 3)));
    let stray = Layer::new(Vec2::new(0, 0), Vec2::new(2, 2), &mut ids);
    let missing = stray.id();
    let before = controller.vram().clone();
    assert_eq!(
        controller.set_pixel(missing, Vec2::new(0, 0), Some(RGB8::new(9, 9, 9))),
        Err(Error::NoSuchLayer(missing))
    );
    assert_eq!(
        controller.slide_layer(missing, Vec2::new(1, 1)),
        Err(Error::NoSuchLayer(missing))
    );
    assert_eq!(
        controller.edit_layer(missing, |_: &mut Layer| {}),
        Err(Error::NoSuchLayer(missing))
    );
    assert_eq!(controller.vram(), &before);
    assert_eq!(controller.layer_list().len(), 1);
}

#[test]
fn ids_from_one_source_are_distinct() {
    let mut ids = IdSource::new();
    let mut seen: Vec<Id> = Vec::new();
    for _ in 0..50 {
        let layer = Layer::new(Vec2::new(0, 0), Vec2::new(1, 1), &mut ids);
        assert!(!seen.contains(&layer.id()));
        seen.push(layer.id());
    }
    assert_eq!(seen[0].value(), 0);
    assert_eq!(seen[49].value(), 49);
}

#[test]
fn id_counter_wraps_after_the_largest_value() {
    let mut ids = IdSource::starting_at(u64::MAX);
    assert_eq!(Id::new(&mut ids).value(), u64::MAX);
    assert_eq!(Id::new(&mut ids).value(), 0);
}

#[test]
fn new_layer_is_transparent() {
    let mut ids = IdSource::new();
    let layer = Layer::new(Vec2::new(-2, 3), Vec2::new(3, 2), &mut ids);
    assert_eq!(layer.top_left(), Vec2::new(-2, 3));
    assert_eq!(layer.len(), Vec2::new(3, 2));
    for r in 0..2 {
        for c in 0..3 {
            assert_eq!(layer.get(r, c), None);
        }
    }
}
