//! The drawing collaborator: a thin trusted boundary around `unsvg`'s
//! canvas.
//!
//! The library models an image by two quantities: its dimensions, and the
//! sequence of line segments drawn on it so far (each with start point,
//! direction, length and palette color index).  The end point of a segment
//! is computed by `unsvg` with floating-point trigonometry, so no exact
//! value is stated for it; callers take whatever point comes back.

use vstd::prelude::*;
use unsvg::Image;

verus! {

#[verifier::external_type_specification]
#[verifier::external_body]
pub struct ExImage(Image);

/// The width and height an image was created with.
pub uninterp spec fn image_dims(img: Image) -> (int, int);

/// The line segments drawn on an image so far, oldest first: start x,
/// start y, direction in degrees, length, and palette color index.
pub uninterp spec fn image_lines(img: Image) -> Seq<(int, int, int, int, int)>;

/// Coordinates and lengths handed to the drawing collaborator are kept
/// within this bound, so that its internal float conversions cannot
/// overflow.
pub const COORD_BOUND: i32 = 0x2000_0000;

/// Relies on unsvg::Image::new: creates a blank canvas of the given size,
/// with no line segments drawn.  unsvg rejects a zero dimension, hence the
/// bound.
#[verifier::external_body]
pub fn new_image(width: u32, height: u32) -> (img: Image)
    requires
        1 <= width,
        1 <= height,
    ensures
        image_dims(img) == (width as int, height as int),
        image_lines(img) == Seq::<(int, int, int, int, int)>::empty(),
{
    Image::new(width, height)
}

/// Relies on unsvg::Image::get_dimensions: returns the width and height
/// the image was created with.
#[verifier::external_body]
pub fn dimensions(img: &Image) -> (d: (u32, u32))
    ensures
        (d.0 as int, d.1 as int) == image_dims(*img),
{
    img.get_dimensions()
}

/// Relies on unsvg::Image::draw_simple_line: draws one line segment from
/// the given start point along `direction`, and reports the segment's end
/// point; if the path cannot be built the image is unchanged.  `color`
/// indexes unsvg's fixed palette of 16 colors.  The end point is computed
/// with floating-point trigonometry, so nothing is stated of its value.
#[verifier::external_body]
pub fn draw_line(
    img: &mut Image,
    x: i32,
    y: i32,
    direction: i32,
    length: i32,
    color: usize,
) -> (r: Result<(i32, i32), String>)
    requires
        color < 16,
        -COORD_BOUND <= x <= COORD_BOUND,
        -COORD_BOUND <= y <= COORD_BOUND,
        -COORD_BOUND <= length <= COORD_BOUND,
    ensures
        image_dims(*final(img)) == image_dims(*old(img)),
        match r {
            Ok(_) => image_lines(*final(img)) == image_lines(*old(img)).push(
                (x as int, y as int, direction as int, length as int, color as int),
            ),
            Err(_) => image_lines(*final(img)) == image_lines(*old(img)),
        },
{
    img.draw_simple_line(x, y, direction, length, unsvg::COLORS[color])
}

/// Relies on unsvg::get_end_coordinates: the end point of a line from the
/// given start point along `direction`, used for moves made with the pen
/// up.  The value comes from floating-point trigonometry, so nothing is
/// stated of it.
#[verifier::external_body]
pub fn end_coordinates(x: i32, y: i32, direction: i32, length: i32) -> (e: (i32, i32))
    requires
        -COORD_BOUND <= x <= COORD_BOUND,
        -COORD_BOUND <= y <= COORD_BOUND,
        -COORD_BOUND <= length <= COORD_BOUND,
{
    unsvg::get_end_coordinates(x, y, direction, length)
}

} // verus!
