//! Layers of a screen, flattened into video memory on demand.
//!
//! A [`Controller`] owns the video memory of a screen and an ordered collection of
//! [`Layer`]s. Each layer is a rectangle of optional colors placed anywhere on (or off)
//! the screen. Whenever a layer is added, edited or moved, the controller recomposes the
//! affected rectangle, clipped to the screen, so that later layers cover earlier ones and
//! transparent pixels show what lies beneath.
//!
//! Colors are written in blue, green, red byte order, with 24 or 32 bits per pixel.

mod controller;
mod geometry;
mod id;
mod layer;
mod lemmas;
mod vram;

pub use controller::{
    clamp, composed, in_redraw_area, overlay, position, position_from, top_color, Controller, Error,
};
pub use geometry::{Vec2, RGB8};
pub use id::{issued_in_sequence, lemma_ids_distinct, Id, IdSource};
pub use layer::Layer;
pub use lemmas::{
    lemma_composed_pixel, lemma_occlusion, lemma_position, lemma_redraw_clipped,
    lemma_set_pixel_round_trip, lemma_top_color_of_front, lemma_transparency,
};
pub use vram::{
    byte_channel, byte_x, byte_y, channel, is_color_byte_of, lemma_color_byte_position,
    lemma_offset_in_range, lemma_pixel_byte, pixel_bytes, pixel_offset, stride, valid_screen, Vram,
};
