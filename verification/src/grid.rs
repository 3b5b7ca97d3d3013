//! Arithmetic of the pixel grid: where a pixel lies in the row-major buffers,
//! and by what its coordinate is divided when it is mapped onto the viewport.

use vstd::prelude::*;
use vstd::arithmetic::div_mod::{lemma_fundamental_div_mod, lemma_fundamental_div_mod_converse};

verus! {

/// Position of the pixel in column `x` and row `y` in a row-major buffer of a
/// grid `width` pixels wide.
pub open spec fn pixel_index(x: int, y: int, width: int) -> int {
    y * width + x
}

/// Column of the pixel stored at `index`.
pub open spec fn column_of(index: int, width: int) -> int {
    index % width
}

/// Row of the pixel stored at `index`.
pub open spec fn row_of(index: int, width: int) -> int {
    index / width
}

/// Number of steps from the first pixel of an axis to its last one.
///
/// The viewport mapping places pixel `x` of an axis at the fraction
/// `x / steps(extent)` of the viewport's extent. An axis of a single pixel has
/// no step; it is given one, so that the fraction is defined and its only
/// pixel lies at the viewport's near edge. The same holds of an empty axis.
pub open spec fn steps(extent: u32) -> int {
    if extent >= 2 {
        extent - 1
    } else {
        1
    }
}

/// The denominator of the pixel-to-viewport fraction along an axis of
/// `extent` pixels.
pub fn axis_span(extent: u32) -> (span: u32)
    ensures
        span == steps(extent),
        span >= 1,
{
    if extent >= 2 {
        extent - 1
    } else {
        1
    }
}

/// The fraction at which a pixel lies has the pixel's own coordinate as its
/// numerator, so the first pixel of an axis lies at zero. No pixel lies
/// beyond one, and a pixel lies exactly at one if and only if it is the last
/// pixel of an axis of two or more.
pub proof fn lemma_axis_endpoints(extent: u32, x: u32)
    requires
        x < extent,
    ensures
        0 <= x <= steps(extent),
        x == steps(extent) <==> extent >= 2 && x == extent - 1,
{
}

/// A pixel inside the grid has its place inside the buffer.
pub proof fn lemma_pixel_index_in_bounds(x: int, y: int, width: int, height: int)
    by (nonlinear_arith)
    requires
        0 <= x < width,
        0 <= y < height,
    ensures
        0 <= pixel_index(x, y, width) < width * height,
{
}

/// The place of a pixel gives its column and its row back, so two pixels of
/// the grid never share a place.
pub proof fn lemma_pixel_index_inverts(x: int, y: int, width: int)
    requires
        0 <= x < width,
    ensures
        column_of(pixel_index(x, y, width), width) == x,
        row_of(pixel_index(x, y, width), width) == y,
{
    lemma_fundamental_div_mod_converse(pixel_index(x, y, width), width, y, x);
}

/// Every place of the buffer belongs to a pixel of the grid.
pub proof fn lemma_pixel_index_covers(index: int, width: int, height: int)
    requires
        0 <= index < width * height,
        0 <= width,
        0 <= height,
    ensures
        0 <= column_of(index, width) < width,
        0 <= row_of(index, width) < height,
        pixel_index(column_of(index, width), row_of(index, width), width) == index,
{
    assert(width > 0) by (nonlinear_arith)
        requires
            0 <= index < width * height,
            0 <= width,
    ;
    lemma_fundamental_div_mod(index, width);
    let q = index / width;
    let r = index % width;
    assert(width * q == q * width) by (nonlinear_arith);
    assert(q < height) by (nonlinear_arith)
        requires
            q * width + r < width * height,
            0 <= r,
            width > 0,
    ;
    assert(0 <= q) by (nonlinear_arith)
        requires
            0 <= q * width + r,
            r < width,
            width > 0,
    ;
}

} // verus!
