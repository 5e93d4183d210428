//! Decoded images, independent of the protocol they arrived by.
use vstd::prelude::*;

verus! {

/// Layout of the pixel bytes of an image.
#[derive(Debug, Clone, Copy, PartialEq, Eq, Structural)]
pub enum ColorType {
    /// Three bytes a pixel: red, green, blue.
    Rgb,
    /// Four bytes a pixel: red, green, blue, alpha.
    Rgba,
}

impl ColorType {
    /// Bytes a pixel takes.
    pub open spec fn bytes_per_pixel(self) -> int {
        match self {
            ColorType::Rgb => 3,
            ColorType::Rgba => 4,
        }
    }
}

/// Identifier of a graphic on the terminal grid.
#[derive(Debug, Clone, Copy, PartialEq, Eq, Structural)]
pub struct GraphicId(pub u64);

/// A decoded image.
#[derive(Debug)]
pub struct GraphicData {
    /// Identifier of the graphic.
    pub id: GraphicId,
    /// Width in pixels.
    pub width: usize,
    /// Height in pixels.
    pub height: usize,
    /// Layout of `pixels`.
    pub color_type: ColorType,
    /// Pixel bytes, row by row from the top.
    pub pixels: Vec<u8>,
    /// Whether every pixel is opaque.
    pub is_opaque: bool,
}

/// RGB pixels as opaque RGBA pixels; bytes after the last whole pixel are
/// dropped.
pub open spec fn opaque_rgba(rgb: Seq<u8>) -> Seq<u8> {
    Seq::new(
        rgb.len() / 3 * 4,
        |i: int|
            if i % 4 == 3 {
                255u8
            } else {
                rgb[i / 4 * 3 + i % 4]
            },
    )
}

/// Pixels as RGBA pixels.
pub open spec fn as_rgba(pixels: Seq<u8>, color_type: ColorType) -> Seq<u8> {
    match color_type {
        ColorType::Rgba => pixels,
        ColorType::Rgb => opaque_rgba(pixels),
    }
}

/// The number of bytes of the RGBA pixels made of `bytes` bytes of pixels.
pub open spec fn rgba_bytes(bytes: int, color_type: ColorType) -> int {
    match color_type {
        ColorType::Rgba => bytes,
        ColorType::Rgb => bytes / 3 * 4,
    }
}

/// Converts RGB pixel data to RGBA (fully opaque).
pub fn rgb_to_rgba(rgb: &[u8]) -> (r: Vec<u8>)
    ensures
        r@ == opaque_rgba(rgb@),
{
    let mut rgba: Vec<u8> = Vec::new();
    let mut i: usize = 0;
    while rgb.len() - i >= 3
        invariant
            i <= rgb.len(),
            i % 3 == 0,
            rgba.len() == i / 3 * 4,
            forall|j: int| 0 <= j < rgba.len() ==> rgba[j] == opaque_rgba(rgb@)[j],
        decreases rgb.len() - i,
    {
        rgba.push(rgb[i]);
        rgba.push(rgb[i + 1]);
        rgba.push(rgb[i + 2]);
        rgba.push(255);
        i = i + 3;
    }
    assert(rgba@ =~= opaque_rgba(rgb@));
    rgba
}

/// Whether an RGBA buffer of `width` by `height` pixels can be allocated.
pub open spec fn area_fits(width: int, height: int) -> bool {
    width * height * 4 <= isize::MAX
}

/// Whether `a * b` is at most `limit`.
pub(crate) fn product_within(a: usize, b: usize, limit: usize) -> (r: bool)
    ensures
        r == (a * b <= limit),
{
    match a.checked_mul(b) {
        Some(p) => p <= limit,
        None => false,
    }
}

/// The cell at `row` and `col` of a grid `width` wide, counted row by row, is
/// found back by division.
pub proof fn lemma_cell(row: int, col: int, width: int)
    requires
        0 <= row,
        0 <= col < width,
    ensures
        (row * width + col) / width == row,
        (row * width + col) % width == col,
        row * width + col >= 0,
{
    vstd::arithmetic::div_mod::lemma_fundamental_div_mod_converse(
        row * width + col,
        width,
        row,
        col,
    );
    assert(row * width >= 0) by (nonlinear_arith)
        requires
            row >= 0,
            width >= 0,
    ;
}

/// Fewer rows never take more cells.
pub proof fn lemma_rows(row: int, rows: int, width: int)
    requires
        0 <= row <= rows,
        0 <= width,
    ensures
        0 <= row * width <= rows * width,
        (row + 1) * width == row * width + width,
{
    assert(0 <= row * width <= rows * width) by (nonlinear_arith)
        requires
            0 <= row <= rows,
            0 <= width,
    ;
    assert((row + 1) * width == row * width + width) by (nonlinear_arith);
}

} // verus!
