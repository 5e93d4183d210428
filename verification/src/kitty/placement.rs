//! Kitty graphics image placement and ID resolution.
use vstd::prelude::*;
use vstd::slice::slice_to_vec;

use crate::graphics;
use crate::graphics::{product_within, rgb_to_rgba, ColorType, GraphicData, GraphicId};
use crate::kitty::animation;
use crate::kitty::animation::place_on_canvas;
use crate::kitty::state::{KittyPlacement, KittyState, StateView};
use crate::kitty_parser::KittyCommand;
use crate::term::{Point, Term, TermView};
use crate::text;
use crate::text::push_decimal;

verus! {

/// Pixels with their dimensions.
#[verifier::ext_equal]
pub struct Raster {
    pub pixels: Seq<u8>,
    pub width: int,
    pub height: int,
    pub color_type: ColorType,
}

// ── Cropping ───────────────────────────────────────────────────────────

/// Width of the source rectangle; `w=0` reaches to the right edge.
pub open spec fn crop_width(src: GraphicData, cmd: KittyCommand) -> int {
    if cmd.src_w == 0 {
        src.width - cmd.src_x
    } else {
        cmd.src_w as int
    }
}

/// Height of the source rectangle; `h=0` reaches to the bottom edge.
pub open spec fn crop_height(src: GraphicData, cmd: KittyCommand) -> int {
    if cmd.src_h == 0 {
        src.height - cmd.src_y
    } else {
        cmd.src_h as int
    }
}

/// The message on a source rectangle that exceeds the image.
pub open spec fn rect_exceeds(src: GraphicData, cmd: KittyCommand) -> Seq<char> {
    "source rect ("@ + text::decimal(cmd.src_x as nat) + ","@ + text::decimal(cmd.src_y as nat)
        + ","@ + text::decimal(crop_width(src, cmd) as nat) + ","@ + text::decimal(
        crop_height(src, cmd) as nat,
    ) + ") exceeds image ("@ + text::decimal(src.width as nat) + "x"@ + text::decimal(
        src.height as nat,
    ) + ")"@
}

/// Why a crop is refused, if it is.
pub open spec fn crop_error(src: GraphicData, cmd: KittyCommand) -> Option<Seq<char>> {
    let w = crop_width(src, cmd);
    let h = crop_height(src, cmd);
    if cmd.src_x + w > src.width || cmd.src_y + h > src.height {
        Some(rect_exceeds(src, cmd))
    } else if w == 0 || h == 0 {
        Some("source rect has zero width or height"@)
    } else {
        None
    }
}

/// Whether a rectangle that reaches to an edge starts before that edge, and the
/// pixels of a rectangle within the image are there.
pub open spec fn crop_defined(src: GraphicData, cmd: KittyCommand) -> bool {
    &&& cmd.src_w == 0 ==> cmd.src_x <= src.width
    &&& cmd.src_h == 0 ==> cmd.src_y <= src.height
    &&& crop_error(src, cmd) is None ==> ((cmd.src_y + crop_height(src, cmd) - 1) * src.width
        + cmd.src_x + crop_width(src, cmd)) * src.color_type.bytes_per_pixel() <= src.pixels.len()
}

/// The pixels of the source rectangle.
pub open spec fn cropped(src: GraphicData, cmd: KittyCommand) -> Raster {
    let bpp = src.color_type.bytes_per_pixel();
    let stride = crop_width(src, cmd) * bpp;
    Raster {
        pixels: Seq::new(
            (crop_height(src, cmd) * stride) as nat,
            |i: int|
                src.pixels@[((cmd.src_y + i / stride) * src.width + cmd.src_x) * bpp + i % stride],
        ),
        width: crop_width(src, cmd),
        height: crop_height(src, cmd),
        color_type: src.color_type,
    }
}

fn rect_exceeds_text(src: &GraphicData, cmd: &KittyCommand, sw: usize, sh: usize) -> (r: String)
    requires
        sw == crop_width(*src, *cmd),
        sh == crop_height(*src, *cmd),
    ensures
        r@ == rect_exceeds(*src, *cmd),
{
    let mut e = "source rect (".to_string();
    push_decimal(&mut e, cmd.src_x as u64);
    e.append(",");
    push_decimal(&mut e, cmd.src_y as u64);
    e.append(",");
    push_decimal(&mut e, sw as u64);
    e.append(",");
    push_decimal(&mut e, sh as u64);
    e.append(") exceeds image (");
    push_decimal(&mut e, src.width as u64);
    e.append("x");
    push_decimal(&mut e, src.height as u64);
    e.append(")");
    e
}

/// Appends the bytes `pixels[start..start + count]`.
fn append_run(out: &mut Vec<u8>, pixels: &[u8], start: usize, count: usize)
    requires
        start + count <= pixels.len(),
    ensures
        final(out)@ == old(out)@ + pixels@.subrange(start as int, start + count),
{
    let ghost before = out@;
    let mut k: usize = 0;
    while k < count
        invariant
            k <= count,
            start + count <= pixels.len(),
            out@ == before + pixels@.subrange(start as int, start + k),
        decreases count - k,
    {
        out.push(pixels[start + k]);
        k = k + 1;
        assert(out@ =~= before + pixels@.subrange(start as int, start + k));
    }
}

/// Crop an image according to source rectangle parameters.
pub fn crop_image(src: &GraphicData, cmd: &KittyCommand) -> (r: Result<
    (Vec<u8>, usize, usize, ColorType),
    String,
>)
    requires
        crop_defined(*src, *cmd),
    ensures
        match r {
            Ok((pixels, width, height, color_type)) => crop_error(*src, *cmd) is None && cropped(
                *src,
                *cmd,
            ) == (Raster {
                pixels: pixels@,
                width: width as int,
                height: height as int,
                color_type,
            }),
            Err(e) => crop_error(*src, *cmd) == Some(e@),
        },
{
    let bpp: usize = match src.color_type {
        ColorType::Rgba => 4,
        ColorType::Rgb => 3,
    };
    let sx: usize = cmd.src_x as usize;
    let sy: usize = cmd.src_y as usize;
    let sw: usize = if cmd.src_w == 0 {
        src.width - sx
    } else {
        cmd.src_w as usize
    };
    let sh: usize = if cmd.src_h == 0 {
        src.height - sy
    } else {
        cmd.src_h as usize
    };
    if sx > src.width || sw > src.width - sx || sy > src.height || sh > src.height - sy {
        return Err(rect_exceeds_text(src, cmd, sw, sh));
    }
    if sw == 0 || sh == 0 {
        return Err("source rect has zero width or height".to_string());
    }
    let ghost result = cropped(*src, *cmd).pixels;
    let ghost stride = sw * bpp;
    let mut out: Vec<u8> = Vec::new();
    let mut row: usize = 0;
    while row < sh
        invariant
            row <= sh,
            bpp == src.color_type.bytes_per_pixel(),
            sx == cmd.src_x,
            sy == cmd.src_y,
            0 < sw == crop_width(*src, *cmd),
            0 < sh == crop_height(*src, *cmd),
            sx + sw <= src.width,
            sy + sh <= src.height,
            ((sy + sh - 1) * src.width + sx + sw) * bpp <= src.pixels.len(),
            stride == sw * bpp,
            result == cropped(*src, *cmd).pixels,
            out.len() == row * stride,
            forall|i: int| 0 <= i < out.len() ==> out[i] == result[i],
        decreases sh - row,
    {
        let ghost before = out@;
        let ghost first = (sy + row) * src.width + sx;
        let ghost last = (sy + sh - 1) * src.width + sx + sw;
        proof {
            graphics::lemma_rows(sy + row, sy + sh - 1, src.width as int);
            assert((first + sw) * bpp <= last * bpp) by (nonlinear_arith)
                requires
                    first + sw <= last,
                    0 <= bpp,
            ;
            assert((first + sw) * bpp == first * bpp + stride) by (nonlinear_arith)
                requires
                    stride == sw * bpp,
            ;
            assert(0 <= first <= first * bpp) by (nonlinear_arith)
                requires
                    0 <= first,
                    1 <= bpp,
            ;
            assert(0 < stride) by (nonlinear_arith)
                requires
                    stride == sw * bpp,
                    1 <= bpp,
                    1 <= sw,
            ;
            graphics::lemma_rows(row as int, sh as int, stride);
            graphics::lemma_rows(row + 1, sh as int, stride);
        }
        let start: usize = ((sy + row) * src.width + sx) * bpp;
        append_run(&mut out, src.pixels.as_slice(), start, sw * bpp);
        assert forall|i: int| 0 <= i < out.len() implies out[i] == result[i] by {
            if i < before.len() {
                assert(out[i] == before[i]);
            } else {
                graphics::lemma_cell(row as int, i - row * stride, stride);
            }
        }
        row = row + 1;
    }
    assert(out@ =~= result);
    Ok((out, sw, sh, src.color_type))
}

// ── Scaling ────────────────────────────────────────────────────────────

/// Pixel dimensions of an image shown in `columns` by `rows` cells. Where only
/// one of them is given (0 = not given) the other side keeps its proportion.
pub open spec fn scaled_dimensions(
    src_w: int,
    src_h: int,
    columns: u32,
    rows: u32,
    cell_width: int,
    cell_height: int,
) -> (int, int) {
    let across = columns * cell_width;
    let down = rows * cell_height;
    if columns > 0 && rows > 0 {
        (across, down)
    } else if columns > 0 {
        (
            across,
            if src_w == 0 {
                src_h
            } else {
                src_h * across / src_w
            },
        )
    } else if rows > 0 {
        (
            if src_h == 0 {
                src_w
            } else {
                src_w * down / src_h
            },
            down,
        )
    } else {
        (src_w, src_h)
    }
}

/// Whether the products behind the scaled dimensions fit a `usize`.
pub open spec fn dimensions_fit(
    src_w: int,
    src_h: int,
    columns: u32,
    rows: u32,
    cell_width: int,
    cell_height: int,
) -> bool {
    let across = columns * cell_width;
    let down = rows * cell_height;
    &&& across <= usize::MAX
    &&& down <= usize::MAX
    &&& columns > 0 && rows == 0 ==> src_h * across <= usize::MAX
    &&& columns == 0 && rows > 0 ==> src_w * down <= usize::MAX
}

/// A proportional share of a side: no more than the product it is taken of.
proof fn lemma_share(product: int, side: int)
    requires
        0 <= product,
        0 < side,
    ensures
        0 <= product / side <= product,
{
    assert(0 <= product / side <= product) by (nonlinear_arith)
        requires
            0 <= product,
            0 < side,
    ;
}

/// Calculate target dimensions for cell-based scaling.
///
/// Returns `(target_width, target_height)` in pixels.
pub fn calculate_scaled_dimensions(
    src_w: usize,
    src_h: usize,
    columns: u32,
    rows: u32,
    cell_width: usize,
    cell_height: usize,
) -> (r: (usize, usize))
    requires
        dimensions_fit(
            src_w as int,
            src_h as int,
            columns,
            rows,
            cell_width as int,
            cell_height as int,
        ),
    ensures
        (r.0 as int, r.1 as int) == scaled_dimensions(
            src_w as int,
            src_h as int,
            columns,
            rows,
            cell_width as int,
            cell_height as int,
        ),
{
    assert(columns * cell_width >= 0 && rows * cell_height >= 0) by (nonlinear_arith);
    if columns > 0 && rows > 0 {
        // Both specified: exact target size.
        (columns as usize * cell_width, rows as usize * cell_height)
    } else if columns > 0 {
        // Only columns: scale height proportionally.
        let tw: usize = columns as usize * cell_width;
        assert(src_h * tw >= 0) by (nonlinear_arith);
        let th: usize = if src_w == 0 {
            src_h
        } else {
            proof {
                lemma_share(src_h * tw, src_w as int);
            }
            src_h * tw / src_w
        };
        (tw, th)
    } else if rows > 0 {
        // Only rows: scale width proportionally.
        let th: usize = rows as usize * cell_height;
        assert(src_w * th >= 0) by (nonlinear_arith);
        let tw: usize = if src_h == 0 {
            src_w
        } else {
            proof {
                lemma_share(src_w * th, src_h as int);
            }
            src_w * th / src_h
        };
        (tw, th)
    } else {
        // No scaling requested.
        (src_w, src_h)
    }
}

/// Parameters for cell-based image scaling.
#[derive(Debug)]
pub struct ScaleParams {
    /// Source image color type.
    pub color_type: ColorType,
    /// Display columns (`c=`).
    pub columns: u32,
    /// Display rows (`r=`).
    pub rows: u32,
    /// Terminal cell width in pixels.
    pub cell_width: usize,
    /// Terminal cell height in pixels.
    pub cell_height: usize,
}

/// The longest side of an image that can be resized to any other.
pub const MAX_SIDE: u32 = 4_194_304;

/// Whether a side can be resized: some pixel of the image weighs in each new one.
///
/// The sampling computes positions in single precision. Within a side of `MAX_SIDE`
/// these are a quarter of a pixel apart or less. A side up to twice as long must not
/// grow, and one up to four times as long must be halved at least: else a rounded
/// position can lie a whole pixel behind the last one.
pub open spec fn side_resizable(side: u32, new_side: u32) -> bool {
    ||| side <= MAX_SIDE
    ||| side <= 2 * MAX_SIDE && new_side <= side
    ||| side <= 4 * MAX_SIDE && 2 * new_side <= side
}

/// Whether an image of these dimensions can be resized to those: its sides can be,
/// and so can the buffers be allocated (four bytes a pixel of the result, sixteen a
/// pixel of the intermediate image).
pub open spec fn resizable(width: u32, height: u32, new_width: u32, new_height: u32) -> bool {
    &&& side_resizable(width, new_width)
    &&& side_resizable(height, new_height)
    &&& 16 * (width * new_height) <= isize::MAX
    &&& 4 * (new_width * new_height) <= isize::MAX
}

/// RGBA pixels resized from `width` by `height` to `new_width` by `new_height`
/// pixels by `image::imageops::resize` with the `Triangle` filter.
pub uninterp spec fn resized_rgba(
    pixels: Seq<u8>,
    width: u32,
    height: u32,
    new_width: u32,
    new_height: u32,
) -> Seq<u8>;

/// Resizes RGBA pixels with bilinear filtering.
///
/// Calls `image::imageops::resize` with `FilterType::Triangle` on the image that
/// `image::RgbaImage::from_raw` makes of the bytes, and takes the bytes of the
/// result with `into_raw`. `from_raw` returns nothing exactly when the bytes are
/// fewer than four for each pixel. The bytes of the result depend on nothing
/// but the arguments, and are four for each pixel of the new size; what they
/// are is left to the name `resized_rgba`.
#[verifier::external_body]
fn resize_rgba(
    pixels: Vec<u8>,
    width: u32,
    height: u32,
    new_width: u32,
    new_height: u32,
) -> (r: Option<Vec<u8>>)
    requires
        4 * (width * height) <= pixels.len() ==> resizable(width, height, new_width, new_height),
    ensures
        match r {
            Some(out) => {
                &&& 4 * (width * height) <= pixels.len()
                &&& out@ == resized_rgba(pixels@, width, height, new_width, new_height)
                &&& out.len() == 4 * (new_width * new_height)
            },
            None => pixels.len() < 4 * (width * height),
        },
{
    match image::RgbaImage::from_raw(width, height, pixels) {
        Some(source) => {
            let filter = image::imageops::FilterType::Triangle;
            Some(image::imageops::resize(&source, new_width, new_height, filter).into_raw())
        },
        None => None,
    }
}

/// What became of a request to scale.
pub enum Scaling {
    /// A side of the target is 0.
    Zero,
    /// The image has the target's dimensions already.
    Same,
    /// The pixels do not fill the source dimensions.
    Short,
    /// The pixels are resized.
    Resized,
}

/// What becomes of a request to scale an image of `bytes` bytes.
pub open spec fn scaling(bytes: int, src_w: int, src_h: int, params: ScaleParams) -> Scaling {
    let (tw, th) = target_dimensions(src_w, src_h, params);
    if tw == 0 || th == 0 {
        Scaling::Zero
    } else if tw == src_w && th == src_h {
        Scaling::Same
    } else if graphics::rgba_bytes(bytes, params.color_type) < 4 * (src_w as u32 * src_h as u32) {
        Scaling::Short
    } else {
        Scaling::Resized
    }
}

/// The dimensions that the parameters ask for.
pub open spec fn target_dimensions(src_w: int, src_h: int, params: ScaleParams) -> (int, int) {
    scaled_dimensions(
        src_w,
        src_h,
        params.columns,
        params.rows,
        params.cell_width as int,
        params.cell_height as int,
    )
}

/// The message on pixels that do not fill the source dimensions.
pub open spec fn short_buffer(src_w: int, src_h: int, bytes: int) -> Seq<char> {
    "failed to create image buffer from "@ + text::decimal(src_w as nat) + "x"@ + text::decimal(
        src_h as nat,
    ) + " ("@ + text::decimal(bytes as nat) + " bytes)"@
}

/// Whether the scaled dimensions can be computed, and the resizing be done.
pub open spec fn scale_defined(bytes: int, src_w: int, src_h: int, params: ScaleParams) -> bool {
    let (tw, th) = target_dimensions(src_w, src_h, params);
    &&& dimensions_fit(
        src_w,
        src_h,
        params.columns,
        params.rows,
        params.cell_width as int,
        params.cell_height as int,
    )
    &&& scaling(bytes, src_w, src_h, params) is Resized ==> resizable(
        src_w as u32,
        src_h as u32,
        tw as u32,
        th as u32,
    )
}

/// What scaling gives: the pixels with their new dimensions, or a message.
pub open spec fn scaled(
    pixels: Seq<u8>,
    src_w: int,
    src_h: int,
    params: ScaleParams,
) -> Result<(Seq<u8>, int, int), Seq<char>> {
    let (tw, th) = target_dimensions(src_w, src_h, params);
    match scaling(pixels.len() as int, src_w, src_h, params) {
        Scaling::Zero => Err("scaled dimensions are zero"@),
        Scaling::Same => Ok((pixels, src_w, src_h)),
        Scaling::Short => Err(short_buffer(src_w, src_h, pixels.len() as int)),
        Scaling::Resized => Ok(
            (
                resized_rgba(
                    graphics::as_rgba(pixels, params.color_type),
                    src_w as u32,
                    src_h as u32,
                    tw as u32,
                    th as u32,
                ),
                tw,
                th,
            ),
        ),
    }
}

/// The number of bytes that scaling gives.
pub open spec fn scaled_bytes(bytes: int, src_w: int, src_h: int, params: ScaleParams) -> int {
    let (tw, th) = target_dimensions(src_w, src_h, params);
    match scaling(bytes, src_w, src_h, params) {
        Scaling::Resized => 4 * (tw as u32 * th as u32),
        _ => bytes,
    }
}

/// The result of scaling, given what resizing came to for pixels of `bytes`
/// bytes.
pub fn resized_or_error(
    resized: Option<Vec<u8>>,
    bytes: usize,
    src_w: usize,
    src_h: usize,
    target_w: usize,
    target_h: usize,
) -> (r: Result<(Vec<u8>, usize, usize), String>)
    ensures
        match resized {
            Some(pixels) => r == Ok::<_, String>((pixels, target_w, target_h)),
            None => r is Err && r->Err_0@ == short_buffer(
                src_w as int,
                src_h as int,
                bytes as int,
            ),
        },
{
    match resized {
        Some(pixels) => Ok((pixels, target_w, target_h)),
        None => {
            let mut e = "failed to create image buffer from ".to_string();
            push_decimal(&mut e, src_w as u64);
            e.append("x");
            push_decimal(&mut e, src_h as u64);
            e.append(" (");
            push_decimal(&mut e, bytes as u64);
            e.append(" bytes)");
            Err(e)
        },
    }
}

/// Scale image pixel data to the target dimensions derived from columns/rows.
///
/// Uses bilinear (Triangle) filtering via the `image` crate. Resized pixels are
/// always RGBA.
pub fn scale_image(pixels: &[u8], src_w: usize, src_h: usize, params: &ScaleParams) -> (r: Result<
    (Vec<u8>, usize, usize),
    String,
>)
    requires
        scale_defined(pixels.len() as int, src_w as int, src_h as int, *params),
    ensures
        match r {
            Ok((out, width, height)) => {
                &&& scaled(pixels@, src_w as int, src_h as int, *params) == Ok::<_, Seq<char>>(
                    (out@, width as int, height as int),
                )
                &&& out.len() == scaled_bytes(
                    pixels.len() as int,
                    src_w as int,
                    src_h as int,
                    *params,
                )
            },
            Err(e) => scaled(pixels@, src_w as int, src_h as int, *params) == Err::<
                (Seq<u8>, int, int),
                _,
            >(e@),
        },
{
    let (target_w, target_h) = calculate_scaled_dimensions(
        src_w,
        src_h,
        params.columns,
        params.rows,
        params.cell_width,
        params.cell_height,
    );
    if target_w == 0 || target_h == 0 {
        return Err("scaled dimensions are zero".to_string());
    }
    // If the dimensions haven't changed, skip the resize.
    if target_w == src_w && target_h == src_h {
        return Ok((slice_to_vec(pixels), src_w, src_h));
    }
    // Convert to RGBA for the image crate.
    let rgba_pixels: Vec<u8> = match params.color_type {
        ColorType::Rgba => slice_to_vec(pixels),
        ColorType::Rgb => rgb_to_rgba(pixels),
    };
    let resized = resize_rgba(
        rgba_pixels,
        src_w as u32,
        src_h as u32,
        target_w as u32,
        target_h as u32,
    );
    resized_or_error(resized, pixels.len(), src_w, src_h, target_w, target_h)
}

// ── Sub-cell offsets ───────────────────────────────────────────────────

/// Whether the padded image can be allocated and the pixels fill the image.
pub open spec fn offsets_defined(
    bytes: int,
    width: int,
    height: int,
    color_type: ColorType,
    offset_x: u32,
    offset_y: u32,
) -> bool {
    offset_x != 0 || offset_y != 0 ==> {
        &&& width + offset_x <= usize::MAX
        &&& height + offset_y <= usize::MAX
        &&& graphics::area_fits(width + offset_x, height + offset_y)
        &&& width * height * 4 <= graphics::rgba_bytes(bytes, color_type)
    }
}

/// The image moved right and down by the offsets, with transparent pixels where
/// it was; unchanged where both offsets are 0.
pub open spec fn offset_by(image: Raster, offset_x: u32, offset_y: u32) -> Raster {
    if offset_x == 0 && offset_y == 0 {
        image
    } else {
        Raster {
            pixels: animation::placed(
                image.width + offset_x,
                image.height + offset_y,
                graphics::as_rgba(image.pixels, image.color_type),
                image.width,
                image.height,
                offset_x as int,
                offset_y as int,
            ),
            width: image.width + offset_x,
            height: image.height + offset_y,
            color_type: ColorType::Rgba,
        }
    }
}

/// Apply sub-cell pixel offsets by padding the image with transparent pixels.
///
/// If both offsets are zero, the data is returned unchanged (possibly
/// promoting RGB → RGBA when offsets are applied).
pub fn apply_pixel_offsets(
    pixels: Vec<u8>,
    width: usize,
    height: usize,
    color_type: ColorType,
    offset_x: u32,
    offset_y: u32,
) -> (r: (Vec<u8>, usize, usize, ColorType))
    requires
        offsets_defined(
            pixels.len() as int,
            width as int,
            height as int,
            color_type,
            offset_x,
            offset_y,
        ),
    ensures
        (Raster { pixels: r.0@, width: r.1 as int, height: r.2 as int, color_type: r.3 })
            == offset_by(
            (Raster { pixels: pixels@, width: width as int, height: height as int, color_type }),
            offset_x,
            offset_y,
        ),
{
    let ox: usize = offset_x as usize;
    let oy: usize = offset_y as usize;
    if ox == 0 && oy == 0 {
        return (pixels, width, height, color_type);
    }
    let new_w: usize = width + ox;
    let new_h: usize = height + oy;
    // We need RGBA to have transparent padding.
    let rgba_pixels: Vec<u8> = match color_type {
        ColorType::Rgba => pixels,
        ColorType::Rgb => rgb_to_rgba(pixels.as_slice()),
    };
    let out: Vec<u8> = place_on_canvas(
        new_w,
        new_h,
        rgba_pixels.as_slice(),
        width,
        height,
        ox,
        oy,
    );
    (out, new_w, new_h, ColorType::Rgba)
}

// ── Placement ──────────────────────────────────────────────────────────

/// Whether the command shows only a part of the image.
pub open spec fn needs_crop(data: GraphicData, cmd: KittyCommand) -> bool {
    ||| cmd.src_x != 0
    ||| cmd.src_y != 0
    ||| cmd.src_w != 0 && cmd.src_w != data.width as u32
    ||| cmd.src_h != 0 && cmd.src_h != data.height as u32
}

fn is_cropping(data: &GraphicData, cmd: &KittyCommand) -> (r: bool)
    ensures
        r == needs_crop(*data, *cmd),
{
    cmd.src_x != 0 || cmd.src_y != 0 || (cmd.src_w != 0 && cmd.src_w != data.width as u32) || (
    cmd.src_h != 0 && cmd.src_h != data.height as u32)
}

/// The part of the image that the command shows.
pub open spec fn shown_part(data: GraphicData, cmd: KittyCommand) -> Result<Raster, Seq<char>> {
    if needs_crop(data, cmd) {
        match crop_error(data, cmd) {
            Some(e) => Err(e),
            None => Ok(cropped(data, cmd)),
        }
    } else {
        Ok(
            Raster {
                pixels: data.pixels@,
                width: data.width as int,
                height: data.height as int,
                color_type: data.color_type,
            },
        )
    }
}

/// The scaling that the command asks for.
pub open spec fn scale_params(
    color_type: ColorType,
    cmd: KittyCommand,
    cell_width: usize,
    cell_height: usize,
) -> ScaleParams {
    ScaleParams { color_type, columns: cmd.columns, rows: cmd.rows, cell_width, cell_height }
}

/// The color type of an image after a request to scale: resized pixels are RGBA.
pub open spec fn scaled_color_type(
    bytes: int,
    src_w: int,
    src_h: int,
    params: ScaleParams,
) -> ColorType {
    match scaling(bytes, src_w, src_h, params) {
        Scaling::Resized => ColorType::Rgba,
        _ => params.color_type,
    }
}

/// A part of the image at the size the command asks for.
pub open spec fn fitted(
    part: Raster,
    cmd: KittyCommand,
    cell_width: usize,
    cell_height: usize,
) -> Result<Raster, Seq<char>> {
    let params = scale_params(part.color_type, cmd, cell_width, cell_height);
    if cmd.columns > 0 || cmd.rows > 0 {
        match scaled(part.pixels, part.width, part.height, params) {
            Ok((pixels, width, height)) => Ok(
                Raster {
                    pixels,
                    width,
                    height,
                    color_type: scaled_color_type(
                        part.pixels.len() as int,
                        part.width,
                        part.height,
                        params,
                    ),
                },
            ),
            Err(e) => Err(e),
        }
    } else {
        Ok(part)
    }
}

/// What the command puts on the grid of an image: the part of it that is shown,
/// scaled, then moved by the offsets; or why it puts nothing there.
pub open spec fn shown(
    data: GraphicData,
    cmd: KittyCommand,
    cell_width: usize,
    cell_height: usize,
) -> Result<Raster, Seq<char>> {
    match shown_part(data, cmd) {
        Ok(part) => match fitted(part, cmd, cell_width, cell_height) {
            Ok(image) => Ok(offset_by(image, cmd.offset_x, cmd.offset_y)),
            Err(e) => Err(e),
        },
        Err(e) => Err(e),
    }
}

/// The number of bytes of what the command puts on the grid of an image.
pub open spec fn shown_bytes(
    data: GraphicData,
    cmd: KittyCommand,
    cell_width: usize,
    cell_height: usize,
) -> int {
    match (shown_part(data, cmd), shown(data, cmd, cell_width, cell_height)) {
        (Ok(part), Ok(image)) => if cmd.offset_x != 0 || cmd.offset_y != 0 {
            image.width * image.height * 4
        } else if cmd.columns > 0 || cmd.rows > 0 {
            scaled_bytes(
                part.pixels.len() as int,
                part.width,
                part.height,
                scale_params(part.color_type, cmd, cell_width, cell_height),
            )
        } else {
            part.pixels.len() as int
        },
        _ => 0,
    }
}

/// Whether scaling and moving a part of an image, of `bytes` bytes, can be done.
pub open spec fn fit_defined(
    bytes: int,
    width: int,
    height: int,
    color_type: ColorType,
    cmd: KittyCommand,
    cell_width: usize,
    cell_height: usize,
) -> bool {
    let params = scale_params(color_type, cmd, cell_width, cell_height);
    let (tw, th) = target_dimensions(width, height, params);
    if cmd.columns > 0 || cmd.rows > 0 {
        &&& scale_defined(bytes, width, height, params)
        &&& match scaling(bytes, width, height, params) {
            Scaling::Zero | Scaling::Short => true,
            _ => offsets_defined(
                scaled_bytes(bytes, width, height, params),
                tw,
                th,
                scaled_color_type(bytes, width, height, params),
                cmd.offset_x,
                cmd.offset_y,
            ),
        }
    } else {
        offsets_defined(bytes, width, height, color_type, cmd.offset_x, cmd.offset_y)
    }
}

/// Whether the command can be carried out on an image: every size it asks for
/// can be computed and allocated, and the image has the pixels it claims.
pub open spec fn place_defined(
    data: GraphicData,
    cmd: KittyCommand,
    cell_width: usize,
    cell_height: usize,
) -> bool {
    &&& needs_crop(data, cmd) ==> crop_defined(data, cmd)
    &&& shown_part(data, cmd) matches Ok(part) ==> fit_defined(
        part.pixels.len() as int,
        part.width,
        part.height,
        part.color_type,
        cmd,
        cell_width,
        cell_height,
    )
}

/// A graphic to put on the grid at the cursor.
#[derive(Debug)]
pub struct Insertion {
    /// Pixel bytes, row by row from the top.
    pub pixels: Vec<u8>,
    /// Width in pixels.
    pub width: usize,
    /// Height in pixels.
    pub height: usize,
    /// Layout of `pixels`.
    pub color_type: ColorType,
    /// Whether every pixel is opaque.
    pub is_opaque: bool,
    /// Where the cursor goes back to after the insertion, if it does.
    pub saved_cursor: Option<Point>,
}

impl Insertion {
    /// The pixels with their dimensions.
    pub open spec fn raster(self) -> Raster {
        Raster {
            pixels: self.pixels@,
            width: self.width as int,
            height: self.height as int,
            color_type: self.color_type,
        }
    }

    /// Whether this puts `image`, of `bytes` bytes, on the grid as `cmd` asks, the
    /// cursor being at `cursor`.
    pub open spec fn shows(
        self,
        image: Raster,
        bytes: int,
        cmd: KittyCommand,
        cursor: Point,
    ) -> bool {
        &&& self.raster() == image
        &&& self.pixels.len() == bytes
        &&& self.is_opaque == (image.color_type == ColorType::Rgb)
        &&& self.saved_cursor == if cmd.cursor_movement == 1 {
            Some(cursor)
        } else {
            None
        }
    }

    /// The graphic, under the identifier `id`.
    pub fn into_graphic(self, id: GraphicId) -> (r: GraphicData)
        ensures
            r == (GraphicData {
                id,
                width: self.width,
                height: self.height,
                color_type: self.color_type,
                pixels: self.pixels,
                is_opaque: self.is_opaque,
            }),
    {
        GraphicData {
            id,
            width: self.width,
            height: self.height,
            color_type: self.color_type,
            pixels: self.pixels,
            is_opaque: self.is_opaque,
        }
    }
}

/// The graphic that a scaled image becomes: moved by the offsets.
pub fn insertion_of(
    pixels: Vec<u8>,
    width: usize,
    height: usize,
    color_type: ColorType,
    cmd: &KittyCommand,
    cursor: Point,
) -> (r: Insertion)
    requires
        offsets_defined(
            pixels.len() as int,
            width as int,
            height as int,
            color_type,
            cmd.offset_x,
            cmd.offset_y,
        ),
    ensures
        r.shows(
            offset_by(
                (Raster {
                    pixels: pixels@,
                    width: width as int,
                    height: height as int,
                    color_type,
                }),
                cmd.offset_x,
                cmd.offset_y,
            ),
            if cmd.offset_x != 0 || cmd.offset_y != 0 {
                (width + cmd.offset_x) * (height + cmd.offset_y) * 4
            } else {
                pixels.len() as int
            },
            *cmd,
            cursor,
        ),
{
    // Apply sub-cell pixel offsets via transparent padding.
    let (pixels, width, height, color_type) = apply_pixel_offsets(
        pixels,
        width,
        height,
        color_type,
        cmd.offset_x,
        cmd.offset_y,
    );
    Insertion {
        pixels,
        width,
        height,
        color_type,
        is_opaque: color_type == ColorType::Rgb,
        saved_cursor: if cmd.cursor_movement == 1 {
            Some(cursor)
        } else {
            None
        },
    }
}

/// What placing the image `id` gives: what the command puts on the grid, or why
/// it puts nothing there.
pub open spec fn placed_image(term: TermView, id: u32, cmd: KittyCommand) -> Result<
    Raster,
    Seq<char>,
> {
    let images = term.state.images;
    if images.contains_key(id) {
        shown(images[id].data, cmd, term.cell_width, term.cell_height)
    } else {
        Err("image id="@ + text::decimal(id as nat) + " not in storage"@)
    }
}

/// The number of bytes of what placing the image `id` puts on the grid.
pub open spec fn placed_bytes(term: TermView, id: u32, cmd: KittyCommand) -> int {
    let images = term.state.images;
    if images.contains_key(id) {
        shown_bytes(images[id].data, cmd, term.cell_width, term.cell_height)
    } else {
        0
    }
}

/// Whether the image `id`, if it is stored, can be placed.
pub open spec fn can_place(term: TermView, id: u32, cmd: KittyCommand) -> bool {
    let images = term.state.images;
    images.contains_key(id) ==> place_defined(
        images[id].data,
        cmd,
        term.cell_width,
        term.cell_height,
    )
}

/// The number of cells that `pixels` pixels reach into; none where the cells have
/// no size.
pub open spec fn cells_spanned(pixels: int, cell: int) -> int {
    if cell == 0 {
        0
    } else {
        pixels / cell + if pixels % cell == 0 {
            0int
        } else {
            1
        }
    }
}

fn span(pixels: usize, cell: usize) -> (r: usize)
    ensures
        r == cells_spanned(pixels as int, cell as int),
{
    if cell == 0 {
        return 0;
    }
    proof {
        lemma_share(pixels as int, cell as int);
    }
    let whole: usize = pixels / cell;
    if pixels % cell == 0 {
        whole
    } else {
        assert(whole < usize::MAX) by {
            vstd::arithmetic::div_mod::lemma_fundamental_div_mod(pixels as int, cell as int);
            assert(whole < pixels || pixels == 0) by (nonlinear_arith)
                requires
                    pixels == cell * whole + pixels % cell,
                    pixels % cell > 0,
                    cell > 0,
                    whole >= 0,
            ;
        }
        whole + 1
    }
}

/// The placement that shows `image`, made of the image `id`, at the cursor.
pub open spec fn placement_for(
    term: TermView,
    id: u32,
    cmd: KittyCommand,
    image: Raster,
) -> KittyPlacement {
    KittyPlacement {
        image_id: id,
        placement_id: cmd.placement_id,
        col: term.cursor.column,
        row: term.cursor.line,
        width: cells_spanned(image.width, term.cell_width as int) as usize,
        height: cells_spanned(image.height, term.cell_height as int) as usize,
        z_index: cmd.z_index,
    }
}

/// The state once `image`, made of the image `id`, is placed at the cursor: the
/// placement is registered, and the image counts as used.
pub open spec fn with_placement(
    term: TermView,
    id: u32,
    cmd: KittyCommand,
    image: Raster,
) -> StateView {
    StateView {
        placements: term.state.placements.push(placement_for(term, id, cmd, image)),
        ..term.state.touched(id)
    }
}

/// The terminal after placing the image `id`: with the placement, or unchanged
/// where nothing is put on the grid.
pub open spec fn after_placing(term: TermView, id: u32, cmd: KittyCommand) -> TermView {
    match placed_image(term, id, cmd) {
        Ok(image) => TermView { state: with_placement(term, id, cmd, image), ..term },
        Err(_) => term,
    }
}

/// What is to be inserted at the cursor to show the image `image_id`.
fn insertion_for(term: &Term, image_id: u32, cmd: &KittyCommand) -> (r: Result<Insertion, String>)
    requires
        can_place(term@, image_id, *cmd),
    ensures
        match r {
            Ok(insertion) => placed_image(term@, image_id, *cmd) is Ok && insertion.shows(
                placed_image(term@, image_id, *cmd)->Ok_0,
                placed_bytes(term@, image_id, *cmd),
                *cmd,
                term@.cursor,
            ),
            Err(e) => placed_image(term@, image_id, *cmd) == Err::<Raster, _>(e@),
        },
{
    let src_data = match term.graphics.kitty_state.get_image(image_id) {
        Some(stored) => &stored.data,
        None => {
            let mut e = "image id=".to_string();
            push_decimal(&mut e, image_id as u64);
            e.append(" not in storage");
            return Err(e);
        },
    };
    let (pixels, width, height, color_type) = if is_cropping(src_data, cmd) {
        match crop_image(src_data, cmd) {
            Ok(part) => part,
            Err(e) => {
                return Err(e);
            },
        }
    } else {
        (
            slice_to_vec(src_data.pixels.as_slice()),
            src_data.width,
            src_data.height,
            src_data.color_type,
        )
    };
    assert(shown_part(*src_data, *cmd) == Ok::<_, Seq<char>>(
        Raster { pixels: pixels@, width: width as int, height: height as int, color_type },
    ));

    // Scale the image if columns/rows are specified.
    let (pixels, width, height, color_type) = if cmd.columns > 0 || cmd.rows > 0 {
        let params = ScaleParams {
            color_type,
            columns: cmd.columns,
            rows: cmd.rows,
            cell_width: term.graphics.cell_width,
            cell_height: term.graphics.cell_height,
        };
        match scale_image(pixels.as_slice(), width, height, &params) {
            Ok((scaled_pixels, new_width, new_height)) => {
                // Pixels that were resized are RGBA.
                let scaled_type = if new_width == width && new_height == height {
                    color_type
                } else {
                    ColorType::Rgba
                };
                (scaled_pixels, new_width, new_height, scaled_type)
            },
            Err(e) => {
                return Err(e);
            },
        }
    } else {
        (pixels, width, height, color_type)
    };
    Ok(insertion_of(pixels, width, height, color_type, cmd, term.grid.cursor.point))
}

/// Place an image on the terminal grid: what is to be inserted at the cursor. The
/// placement is registered with the state.
pub fn place_image(term: &mut Term, image_id: u32, cmd: &KittyCommand) -> (r: Result<
    Insertion,
    String,
>)
    requires
        can_place(old(term)@, image_id, *cmd),
    ensures
        match r {
            Ok(insertion) => placed_image(old(term)@, image_id, *cmd) is Ok && insertion.shows(
                placed_image(old(term)@, image_id, *cmd)->Ok_0,
                placed_bytes(old(term)@, image_id, *cmd),
                *cmd,
                old(term)@.cursor,
            ),
            Err(e) => placed_image(old(term)@, image_id, *cmd) == Err::<Raster, _>(e@),
        },
        final(term)@ == after_placing(old(term)@, image_id, *cmd),
{
    match insertion_for(term, image_id, cmd) {
        Ok(insertion) => {
            let placement = KittyPlacement {
                image_id,
                placement_id: cmd.placement_id,
                col: term.grid.cursor.point.column,
                row: term.grid.cursor.point.line,
                width: span(insertion.width, term.graphics.cell_width),
                height: span(insertion.height, term.graphics.cell_height),
                z_index: cmd.z_index,
            };
            term.graphics.kitty_state.touch(image_id);
            term.graphics.kitty_state.register_placement(placement);
            Ok(insertion)
        },
        Err(e) => Err(e),
    }
}

fn is_crop_defined(src: &GraphicData, cmd: &KittyCommand) -> (r: bool)
    ensures
        r == crop_defined(*src, *cmd),
{
    let bpp: usize = match src.color_type {
        ColorType::Rgba => 4,
        ColorType::Rgb => 3,
    };
    let sx: usize = cmd.src_x as usize;
    let sy: usize = cmd.src_y as usize;
    if (cmd.src_w == 0 && sx > src.width) || (cmd.src_h == 0 && sy > src.height) {
        return false;
    }
    let sw: usize = if cmd.src_w == 0 {
        src.width - sx
    } else {
        cmd.src_w as usize
    };
    let sh: usize = if cmd.src_h == 0 {
        src.height - sy
    } else {
        cmd.src_h as usize
    };
    if sx > src.width || sw > src.width - sx || sy > src.height || sh > src.height - sy || sw == 0
        || sh == 0 {
        return true;
    }
    let ghost last = (sy + sh - 1) * src.width + sx + sw;
    let pixels: usize = src.pixels.len() / bpp;
    let ghost bytes = src.pixels.len() as int;
    assert(last * bpp <= bytes <==> last <= pixels) by (nonlinear_arith)
        requires
            bpp == 3 || bpp == 4,
            pixels == bytes / bpp as int,
            bytes >= 0,
    ;
    assert((sy + sh - 1) * src.width >= 0) by (nonlinear_arith)
        requires
            sy + sh >= 1,
    ;
    match (sy + (sh - 1)).checked_mul(src.width) {
        Some(skipped) => skipped <= pixels && sx + sw <= pixels - skipped,
        None => false,
    }
}

fn do_dimensions_fit(src_w: usize, src_h: usize, params: &ScaleParams) -> (r: bool)
    ensures
        r == dimensions_fit(
            src_w as int,
            src_h as int,
            params.columns,
            params.rows,
            params.cell_width as int,
            params.cell_height as int,
        ),
{
    let columns: usize = params.columns as usize;
    let rows: usize = params.rows as usize;
    assert(columns * params.cell_width >= 0 && rows * params.cell_height >= 0) by (nonlinear_arith);
    if !product_within(columns, params.cell_width, usize::MAX) || !product_within(
        rows,
        params.cell_height,
        usize::MAX,
    ) {
        return false;
    }
    let across: usize = columns * params.cell_width;
    let down: usize = rows * params.cell_height;
    (columns == 0 || rows > 0 || product_within(src_h, across, usize::MAX)) && (columns > 0 || rows
        == 0 || product_within(src_w, down, usize::MAX))
}

fn is_side_resizable(side: u32, new_side: u32) -> (r: bool)
    ensures
        r == side_resizable(side, new_side),
{
    side <= MAX_SIDE || (side <= 2 * MAX_SIDE && new_side <= side) || (side <= 4 * MAX_SIDE && 2
        * new_side as u64 <= side as u64)
}

fn is_resizable(width: u32, height: u32, new_width: u32, new_height: u32) -> (r: bool)
    ensures
        r == resizable(width, height, new_width, new_height),
{
    if !is_side_resizable(width, new_width) || !is_side_resizable(height, new_height) {
        return false;
    }
    assert(0 <= width * new_height <= 16_777_216 * 0xffff_ffff) by (nonlinear_arith)
        requires
            width <= 16_777_216,
            new_height <= 0xffff_ffff,
    ;
    assert(0 <= new_width * new_height <= 0xffff_ffff * 0xffff_ffff) by (nonlinear_arith)
        requires
            new_width <= 0xffff_ffff,
            new_height <= 0xffff_ffff,
    ;
    16 * (width as u64 * new_height as u64) <= isize::MAX as u64 && new_width as u64
        * new_height as u64 <= isize::MAX as u64 / 4
}

fn are_offsets_defined(
    bytes: usize,
    width: usize,
    height: usize,
    color_type: ColorType,
    cmd: &KittyCommand,
) -> (r: bool)
    ensures
        r == offsets_defined(
            bytes as int,
            width as int,
            height as int,
            color_type,
            cmd.offset_x,
            cmd.offset_y,
        ),
{
    if cmd.offset_x == 0 && cmd.offset_y == 0 {
        return true;
    }
    let ox: usize = cmd.offset_x as usize;
    let oy: usize = cmd.offset_y as usize;
    if width > usize::MAX - ox || height > usize::MAX - oy {
        return false;
    }
    assert(width * height >= 0) by (nonlinear_arith);
    let limit: usize = isize::MAX as usize / 4;
    let pixels: usize = match color_type {
        ColorType::Rgba => bytes / 4,
        ColorType::Rgb => bytes / 3,
    };
    product_within(width + ox, height + oy, limit) && product_within(width, height, pixels)
}

fn is_fit_defined(
    bytes: usize,
    width: usize,
    height: usize,
    color_type: ColorType,
    cmd: &KittyCommand,
    cell_width: usize,
    cell_height: usize,
) -> (r: bool)
    ensures
        r == fit_defined(
            bytes as int,
            width as int,
            height as int,
            color_type,
            *cmd,
            cell_width,
            cell_height,
        ),
{
    if cmd.columns == 0 && cmd.rows == 0 {
        return are_offsets_defined(bytes, width, height, color_type, cmd);
    }
    let params = ScaleParams {
        color_type,
        columns: cmd.columns,
        rows: cmd.rows,
        cell_width,
        cell_height,
    };
    if !do_dimensions_fit(width, height, &params) {
        return false;
    }
    let (tw, th) = calculate_scaled_dimensions(
        width,
        height,
        cmd.columns,
        cmd.rows,
        cell_width,
        cell_height,
    );
    if tw == 0 || th == 0 {
        return true;
    }
    if tw == width && th == height {
        return are_offsets_defined(bytes, tw, th, color_type, cmd);
    }
    let w: u32 = width as u32;
    let h: u32 = height as u32;
    let pixels: usize = match color_type {
        ColorType::Rgba => bytes / 4,
        ColorType::Rgb => bytes / 3,
    };
    assert(w * h >= 0) by (nonlinear_arith);
    if !product_within(w as usize, h as usize, pixels) {
        return true;
    }
    if !is_resizable(w, h, tw as u32, th as u32) {
        return false;
    }
    assert(0 <= (tw as u32) * (th as u32)) by (nonlinear_arith);
    are_offsets_defined(
        (tw as u32 as usize) * (th as u32 as usize) * 4,
        tw,
        th,
        ColorType::Rgba,
        cmd,
    )
}

/// Whether the image `image_id`, if it is stored, can be placed: what
/// `place_image` asks of its caller.
pub fn can_place_image(term: &Term, image_id: u32, cmd: &KittyCommand) -> (r: bool)
    ensures
        r == can_place(term@, image_id, *cmd),
{
    match term.graphics.kitty_state.get_image(image_id) {
        Some(stored) => can_place_data(
            &stored.data,
            cmd,
            term.graphics.cell_width,
            term.graphics.cell_height,
        ),
        None => true,
    }
}

/// Whether the command can be carried out on an image.
pub fn can_place_data(
    data: &GraphicData,
    cmd: &KittyCommand,
    cell_width: usize,
    cell_height: usize,
) -> (r: bool)
    ensures
        r == place_defined(*data, *cmd, cell_width, cell_height),
{
    if is_cropping(data, cmd) {
        if !is_crop_defined(data, cmd) {
            return false;
        }
        match crop_image(data, cmd) {
            Ok((pixels, width, height, color_type)) => is_fit_defined(
                pixels.len(),
                width,
                height,
                color_type,
                cmd,
                cell_width,
                cell_height,
            ),
            Err(_) => true,
        }
    } else {
        is_fit_defined(
            data.pixels.len(),
            data.width,
            data.height,
            data.color_type,
            cmd,
            cell_width,
            cell_height,
        )
    }
}

// ── Image IDs ──────────────────────────────────────────────────────────

/// The image ID that a transmission gets: the one it gives, else a new one.
pub open spec fn assigned_id(s: StateView, cmd: KittyCommand) -> u32 {
    if cmd.image_id != 0 {
        cmd.image_id
    } else {
        s.fresh_id()
    }
}

/// The state once a transmission has its image ID: a new ID is used up, and an
/// image number stands for the ID.
pub open spec fn id_assigned(s: StateView, cmd: KittyCommand) -> StateView {
    StateView {
        next_image_id: if cmd.image_id != 0 {
            s.next_image_id
        } else {
            s.fresh_id()
        },
        ..number_mapped(s, cmd, assigned_id(s, cmd))
    }
}

/// The state once the image number of a command, if it gives one, stands for the
/// image `id`.
pub open spec fn number_mapped(s: StateView, cmd: KittyCommand, id: u32) -> StateView {
    StateView {
        number_to_id: if cmd.image_number != 0 {
            s.number_to_id.insert(cmd.image_number, id)
        } else {
            s.number_to_id
        },
        ..s
    }
}

/// Resolve or auto-assign an image ID for a transmit command.
pub fn resolve_or_assign_id(term: &mut Term, cmd: &KittyCommand) -> (r: u32)
    ensures
        r == assigned_id(old(term)@.state, *cmd),
        final(term)@ == (TermView { state: id_assigned(old(term)@.state, *cmd), ..old(term)@ }),
{
    let image_id: u32 = if cmd.image_id != 0 {
        cmd.image_id
    } else {
        term.graphics.kitty_state.next_id()
    };
    if cmd.image_number != 0 {
        term.graphics.kitty_state.map_number(cmd.image_number, image_id);
    }
    image_id
}

/// The image that a command names by ID or, without one, by number.
pub open spec fn named_image(s: StateView, cmd: KittyCommand) -> Option<u32> {
    if cmd.image_id != 0 {
        Some(cmd.image_id)
    } else if cmd.image_number != 0 {
        s.number_to_id.get(cmd.image_number)
    } else {
        None
    }
}

/// Resolve an image ID from a command, checking both `i=` and `I=`.
pub fn resolve_image_id(state: &KittyState, cmd: &KittyCommand) -> (r: Option<u32>)
    ensures
        r == named_image(state@, *cmd),
{
    if cmd.image_id != 0 {
        Some(cmd.image_id)
    } else if cmd.image_number != 0 {
        state.resolve_number(cmd.image_number)
    } else {
        None
    }
}

} // verus!
