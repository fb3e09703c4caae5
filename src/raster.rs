//! The RGB image buffer that holds the canvas's cells.
use vstd::prelude::*;
use image::{ImageBuffer, Rgb};

verus! {

/// A color as its red, green and blue channels.
pub type Color = (u8, u8, u8);

/// An RGB image buffer of the image crate, kept whole; what Verus knows of it
/// is given by `buffer_cells`, `buffer_width` and `buffer_height`.
#[verifier::external_body]
pub struct Buffer {
    img: ImageBuffer<Rgb<u8>, Vec<u8>>,
}

/// The cells of a buffer, row after row, each row from left to right.
pub uninterp spec fn buffer_cells(b: Buffer) -> Seq<(u8, u8, u8)>;

/// The width of a buffer, in cells.
pub uninterp spec fn buffer_width(b: Buffer) -> nat;

/// The height of a buffer, in cells.
pub uninterp spec fn buffer_height(b: Buffer) -> nat;

/// The position of cell `(x, y)` among the cells of a buffer `w` cells wide.
pub open spec fn cell_index(w: nat, x: int, y: int) -> int {
    y * w + x
}

/// Relies on ImageBuffer::from_pixel: a `w` by `h` buffer whose every cell
/// holds the given color.
#[verifier::external_body]
pub(crate) fn buffer_filled(w: u32, h: u32, c: Color) -> (r: Buffer)
    requires
        w * h * 3 <= usize::MAX,
    ensures
        buffer_width(r) == w,
        buffer_height(r) == h,
        buffer_cells(r) == Seq::new((w * h) as nat, |i: int| c),
{
    Buffer { img: ImageBuffer::from_pixel(w, h, Rgb([c.0, c.1, c.2])) }
}

/// Relies on ImageBuffer::put_pixel: it overwrites cell `(x, y)` and nothing
/// else, and panics outside the buffer.
#[verifier::external_body]
pub(crate) fn buffer_put(b: &mut Buffer, x: u32, y: u32, c: Color)
    requires
        x < buffer_width(*old(b)),
        y < buffer_height(*old(b)),
        buffer_cells(*old(b)).len() == buffer_width(*old(b)) * buffer_height(*old(b)),
    ensures
        buffer_width(*final(b)) == buffer_width(*old(b)),
        buffer_height(*final(b)) == buffer_height(*old(b)),
        buffer_cells(*final(b)) == buffer_cells(*old(b)).update(
            cell_index(buffer_width(*old(b)), x as int, y as int),
            c,
        ),
{
    b.img.put_pixel(x, y, Rgb([c.0, c.1, c.2]))
}

/// Relies on ImageBuffer::get_pixel: the color of cell `(x, y)`; it panics
/// outside the buffer.
#[verifier::external_body]
pub(crate) fn buffer_get(b: &Buffer, x: u32, y: u32) -> (r: Color)
    requires
        x < buffer_width(*b),
        y < buffer_height(*b),
        buffer_cells(*b).len() == buffer_width(*b) * buffer_height(*b),
    ensures
        r == buffer_cells(*b)[cell_index(buffer_width(*b), x as int, y as int)],
{
    let p = b.img.get_pixel(x, y);
    (p.0[0], p.0[1], p.0[2])
}

/// Relies on ImageBuffer's Clone: a copy with the same size and cells.
#[verifier::external_body]
pub(crate) fn buffer_copy(b: &Buffer) -> (r: Buffer)
    ensures
        buffer_width(r) == buffer_width(*b),
        buffer_height(r) == buffer_height(*b),
        buffer_cells(r) == buffer_cells(*b),
{
    Buffer { img: b.img.clone() }
}

} // verus!
