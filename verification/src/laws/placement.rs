//! Laws of cropping, scaling and moving images.
use vstd::prelude::*;

use crate::graphics;
use crate::graphics::{ColorType, GraphicData};
use crate::kitty::animation;
use crate::kitty::placement;
use crate::kitty::placement::{Insertion, Raster, ScaleParams};
use crate::kitty_parser;
use crate::kitty_parser::KittyCommand;
use crate::laws::animation::rgba_byte;
use crate::term::{Point, TermView};
use crate::text;

verus! {

/// Whether an image has all its pixels and no more.
pub open spec fn complete(image: Raster) -> bool {
    image.width >= 0 && image.height >= 0 && image.pixels.len() == image.width * image.height
        * image.color_type.bytes_per_pixel()
}

/// Byte `c` of the pixel at `col` and `row` of an image.
pub open spec fn byte_at(image: Raster, col: int, row: int, c: int) -> u8 {
    image.pixels[(row * image.width + col) * image.color_type.bytes_per_pixel() + c]
}

/// An image as it was decoded.
pub open spec fn raster_of(data: GraphicData) -> Raster {
    Raster {
        pixels: data.pixels@,
        width: data.width as int,
        height: data.height as int,
        color_type: data.color_type,
    }
}

/// A cropped image is complete, and its pixel at (`col`, `row`) is the one at
/// (`col + x`, `row + y`) of the source.
pub proof fn law_crop_takes_rectangle(
    src: GraphicData,
    cmd: KittyCommand,
    col: int,
    row: int,
    c: int,
)
    requires
        placement::crop_defined(src, cmd),
        placement::crop_error(src, cmd) is None,
        0 <= col < placement::crop_width(src, cmd),
        0 <= row < placement::crop_height(src, cmd),
        0 <= c < src.color_type.bytes_per_pixel(),
    ensures
        complete(placement::cropped(src, cmd)),
        byte_at(placement::cropped(src, cmd), col, row, c) == byte_at(
            raster_of(src),
            col + cmd.src_x,
            row + cmd.src_y,
            c,
        ),
{
    let w = placement::crop_width(src, cmd);
    let h = placement::crop_height(src, cmd);
    let bpp = src.color_type.bytes_per_pixel();
    let stride = w * bpp;
    let k = col * bpp + c;
    let i = (row * w + col) * bpp + c;
    assert(h * stride == w * h * bpp) by (nonlinear_arith)
        requires
            stride == w * bpp,
    ;
    assert(h * stride >= 0) by (nonlinear_arith)
        requires
            h >= 0,
            w >= 0,
            bpp >= 0,
            stride == w * bpp,
    ;
    assert(i == row * stride + k) by (nonlinear_arith)
        requires
            i == (row * w + col) * bpp + c,
            k == col * bpp + c,
            stride == w * bpp,
    ;
    assert(0 <= k < stride) by (nonlinear_arith)
        requires
            0 <= col < w,
            0 <= c < bpp,
            k == col * bpp + c,
            stride == w * bpp,
    ;
    graphics::lemma_cell(row, k, stride);
    assert(i < h * stride) by (nonlinear_arith)
        requires
            i == row * stride + k,
            0 <= k < stride,
            row < h,
    ;
    let base = (cmd.src_y + row) * src.width + cmd.src_x;
    assert(base * bpp + k == ((row + cmd.src_y) * src.width + (col + cmd.src_x)) * bpp + c)
        by (nonlinear_arith)
        requires
            base == (cmd.src_y + row) * src.width + cmd.src_x,
            k == col * bpp + c,
    ;
}

/// Cropping to the whole image gives the whole image.
pub proof fn law_crop_of_everything_is_identity(src: GraphicData, cmd: KittyCommand)
    requires
        cmd.src_x == 0,
        cmd.src_y == 0,
        placement::crop_width(src, cmd) == src.width,
        placement::crop_height(src, cmd) == src.height,
        complete(raster_of(src)),
    ensures
        placement::cropped(src, cmd) == raster_of(src),
{
    let bpp = src.color_type.bytes_per_pixel();
    let stride = src.width * bpp;
    let result = placement::cropped(src, cmd).pixels;
    assert(src.height * stride == src.width * src.height * bpp) by (nonlinear_arith)
        requires
            stride == src.width * bpp,
    ;
    assert(src.height * stride >= 0) by (nonlinear_arith)
        requires
            stride == src.width * bpp,
            bpp >= 0,
    ;
    assert forall|i: int| 0 <= i < result.len() implies result[i] == src.pixels@[i] by {
        let row = i / stride;
        assert(stride > 0) by (nonlinear_arith)
            requires
                0 <= i < src.height * stride,
                stride >= 0,
        ;
        vstd::arithmetic::div_mod::lemma_fundamental_div_mod(i, stride);
        assert(((0 + row) * src.width + 0) * bpp == stride * row) by (nonlinear_arith)
            requires
                stride == src.width * bpp,
        ;
    }
    assert(result =~= src.pixels@);
}

/// Offsets move the image: its pixel at (`col`, `row`) is found at
/// (`col + X`, `row + Y`), in RGBA, and every other pixel is transparent black.
pub proof fn law_offset_moves_image(
    image: Raster,
    offset_x: u32,
    offset_y: u32,
    col: int,
    row: int,
    c: int,
)
    requires
        0 <= image.width && 0 <= image.height,
        image.pixels.len() >= image.width * image.height * image.color_type.bytes_per_pixel(),
        offset_x != 0 || offset_y != 0,
        0 <= col < image.width + offset_x,
        0 <= row < image.height + offset_y,
        0 <= c < 4,
    ensures
        ({
            let moved = placement::offset_by(image, offset_x, offset_y);
            let rgba = Raster {
                pixels: graphics::as_rgba(image.pixels, image.color_type),
                color_type: ColorType::Rgba,
                ..image
            };
            &&& complete(moved)
            &&& moved.color_type == ColorType::Rgba
            &&& byte_at(moved, col, row, c) == if col >= offset_x && row >= offset_y {
                byte_at(rgba, col - offset_x, row - offset_y, c)
            } else {
                0
            }
        }),
{
    let moved = placement::offset_by(image, offset_x, offset_y);
    let rgba = graphics::as_rgba(image.pixels, image.color_type);
    let w = image.width;
    let h = image.height;
    let new_w = w + offset_x;
    let new_h = h + offset_y;
    let at = row * new_w + col;
    let i = at * 4 + c;
    assert(w * h * 3 / 3 * 4 == w * h * 4);
    assert(rgba.len() >= w * h * 4);
    graphics::lemma_cell(row, col, new_w);
    assert(i / 4 == at && i % 4 == c);
    assert(at < new_w * new_h) by (nonlinear_arith)
        requires
            at == row * new_w + col,
            0 <= col < new_w,
            row < new_h,
    ;
    assert(new_w * new_h >= 0) by (nonlinear_arith)
        requires
            new_w >= 0,
            new_h >= 0,
    ;
    if col >= offset_x && row >= offset_y {
        let r = row - offset_y;
        let columns = animation::min(w, new_w - offset_x);
        assert(r * w + columns <= w * h) by (nonlinear_arith)
            requires
                0 <= r < h,
                0 <= w,
                columns <= w,
        ;
        assert(animation::row_present(rgba, w, r, columns));
    }
}

/// Without offsets the image stays as it is.
pub proof fn law_no_offset_is_identity(image: Raster)
    ensures
        placement::offset_by(image, 0, 0) == image,
{
}

/// With columns and rows given, the scaled image covers exactly that many cells.
/// Without either it keeps its size.
pub proof fn law_scaling_covers_cells(src_w: int, src_h: int, params: ScaleParams)
    ensures
        params.columns > 0 ==> placement::target_dimensions(src_w, src_h, params).0
            == params.columns * params.cell_width,
        params.rows > 0 ==> placement::target_dimensions(src_w, src_h, params).1 == params.rows
            * params.cell_height,
        params.columns == 0 && params.rows == 0 ==> placement::target_dimensions(
            src_w,
            src_h,
            params,
        ) == (src_w, src_h),
{
}

/// With only one of columns and rows given, the other side keeps the proportion:
/// it is the largest whole number of pixels not above it.
pub proof fn law_scaling_keeps_proportion(src_w: int, src_h: int, params: ScaleParams)
    requires
        src_w > 0,
        src_h > 0,
        (params.columns > 0) != (params.rows > 0),
    ensures
        ({
            let (tw, th) = placement::target_dimensions(src_w, src_h, params);
            if params.columns > 0 {
                th * src_w <= src_h * tw < (th + 1) * src_w
            } else {
                tw * src_h <= src_w * th < (tw + 1) * src_h
            }
        }),
{
    let (tw, th) = placement::target_dimensions(src_w, src_h, params);
    if params.columns > 0 {
        vstd::arithmetic::div_mod::lemma_fundamental_div_mod(src_h * tw, src_w);
        assert((th + 1) * src_w == src_w * th + src_w) by (nonlinear_arith);
        assert(th * src_w == src_w * th) by (nonlinear_arith);
    } else {
        vstd::arithmetic::div_mod::lemma_fundamental_div_mod(src_w * th, src_h);
        assert((tw + 1) * src_h == src_h * tw + src_h) by (nonlinear_arith);
        assert(tw * src_h == src_h * tw) by (nonlinear_arith);
    }
}

/// Scaling to the size that the image has gives the image as it is.
pub proof fn law_scaling_to_same_size_is_identity(
    pixels: Seq<u8>,
    src_w: int,
    src_h: int,
    params: ScaleParams,
)
    requires
        src_w > 0,
        src_h > 0,
        placement::target_dimensions(src_w, src_h, params) == (src_w, src_h),
    ensures
        placement::scaled(pixels, src_w, src_h, params) == Ok::<_, Seq<char>>(
            (pixels, src_w, src_h),
        ),
{
}

/// A cropped image is complete.
proof fn lemma_cropped_is_complete(src: GraphicData, cmd: KittyCommand)
    requires
        placement::crop_width(src, cmd) >= 0,
        placement::crop_height(src, cmd) >= 0,
    ensures
        complete(placement::cropped(src, cmd)),
{
    let w = placement::crop_width(src, cmd);
    let h = placement::crop_height(src, cmd);
    let bpp = src.color_type.bytes_per_pixel();
    assert(h * (w * bpp) == w * h * bpp) by (nonlinear_arith);
    assert(w * h * bpp >= 0) by (nonlinear_arith)
        requires
            w >= 0,
            h >= 0,
            bpp >= 0,
    ;
}

/// What a command puts on the grid of a complete image is complete, whether it is
/// cropped, scaled or moved. The sides that it is scaled to fit 32 bits.
pub proof fn law_complete_image_is_shown_complete(
    data: GraphicData,
    cmd: KittyCommand,
    cell_width: usize,
    cell_height: usize,
    cursor: Point,
    insertion: Insertion,
)
    requires
        complete(raster_of(data)),
        placement::place_defined(data, cmd, cell_width, cell_height),
        placement::shown(data, cmd, cell_width, cell_height) matches Ok(image) && insertion.shows(
            image,
            placement::shown_bytes(data, cmd, cell_width, cell_height),
            cmd,
            cursor,
        ),
        placement::shown_part(data, cmd) matches Ok(part) && (cmd.columns > 0 || cmd.rows > 0 ==> {
            let params = placement::scale_params(part.color_type, cmd, cell_width, cell_height);
            let (width, height) = placement::target_dimensions(part.width, part.height, params);
            width <= u32::MAX && height <= u32::MAX
        }),
    ensures
        complete(insertion.raster()),
{
    if placement::needs_crop(data, cmd) {
        lemma_cropped_is_complete(data, cmd);
    }
    assert(complete(placement::shown_part(data, cmd)->Ok_0));
}

// ── What a display command puts on the grid ────────────────────────────

/// Width of the part of an image that a command shows: `w=`, else what lies right of
/// `x=`.
pub open spec fn part_width(data: GraphicData, cmd: KittyCommand) -> int {
    if cmd.src_w != 0 {
        cmd.src_w as int
    } else {
        data.width - cmd.src_x
    }
}

/// Height of the part of an image that a command shows: `h=`, else what lies below
/// `y=`.
pub open spec fn part_height(data: GraphicData, cmd: KittyCommand) -> int {
    if cmd.src_h != 0 {
        cmd.src_h as int
    } else {
        data.height - cmd.src_y
    }
}

/// Whether the sides of an image fit 32 bits, as those in commands do.
pub open spec fn sides_fit(data: GraphicData) -> bool {
    data.width <= u32::MAX && data.height <= u32::MAX
}

/// The part that a command shows, where it shows one, has the size asked for.
proof fn lemma_part_has_its_size(data: GraphicData, cmd: KittyCommand)
    requires
        sides_fit(data),
        placement::shown_part(data, cmd) is Ok,
    ensures
        ({
            let part = placement::shown_part(data, cmd)->Ok_0;
            &&& part.width == part_width(data, cmd)
            &&& part.height == part_height(data, cmd)
            &&& part.color_type == data.color_type
        }),
{
}

/// A display command with `c=` puts as many cells' widths on the grid, one with `r=`
/// as many cells' heights, and the offsets beside that. With both and no offsets the
/// placement spans just these columns and rows.
pub proof fn law_display_covers_its_cells(term: TermView, id: u32, cmd: KittyCommand)
    requires
        term.state.images.contains_key(id),
        placement::can_place(term, id, cmd),
        placement::placed_image(term, id, cmd) is Ok,
    ensures
        ({
            let image = placement::placed_image(term, id, cmd)->Ok_0;
            let p = placement::after_placing(term, id, cmd).state.placements.last();
            &&& cmd.columns > 0 ==> image.width == cmd.columns * term.cell_width + cmd.offset_x
            &&& cmd.rows > 0 ==> image.height == cmd.rows * term.cell_height + cmd.offset_y
            &&& cmd.columns > 0 && cmd.rows > 0 && cmd.offset_x == 0 && cmd.offset_y == 0
                ==> p.width == cmd.columns && p.height == cmd.rows
        }),
{
    let image = placement::placed_image(term, id, cmd)->Ok_0;
    let cw = term.cell_width as int;
    let ch = term.cell_height as int;
    if cmd.columns > 0 && cmd.rows > 0 && cmd.offset_x == 0 && cmd.offset_y == 0 {
        assert(cw != 0 && ch != 0) by {
            assert(cmd.columns * 0 == 0 && cmd.rows * 0 == 0);
        }
        lemma_whole_cells(cmd.columns as int, cw);
        lemma_whole_cells(cmd.rows as int, ch);
    }
}

/// So many whole cells span so many cells.
proof fn lemma_whole_cells(cells: int, size: int)
    requires
        cells >= 0,
        size > 0,
    ensures
        placement::cells_spanned(cells * size, size) == cells,
{
    assert((cells * size) / size == cells && (cells * size) % size == 0) by (nonlinear_arith)
        requires
            size > 0,
    ;
}

/// A placement spans the cells that its image reaches into: its cells hold the
/// image, and with one column or row less they would not.
pub proof fn law_placement_spans_its_image(term: TermView, id: u32, cmd: KittyCommand)
    requires
        placement::placed_image(term, id, cmd) is Ok,
        0 <= placement::placed_image(term, id, cmd)->Ok_0.width <= usize::MAX,
        0 <= placement::placed_image(term, id, cmd)->Ok_0.height <= usize::MAX,
    ensures
        ({
            let image = placement::placed_image(term, id, cmd)->Ok_0;
            let p = placement::after_placing(term, id, cmd).state.placements.last();
            &&& term.cell_width > 0 ==> (p.width - 1) * term.cell_width < image.width <= p.width
                * term.cell_width
            &&& term.cell_height > 0 ==> (p.height - 1) * term.cell_height < image.height
                <= p.height * term.cell_height
        }),
{
    let image = placement::placed_image(term, id, cmd)->Ok_0;
    if term.cell_width > 0 {
        lemma_span_is_tight(image.width, term.cell_width as int);
    }
    if term.cell_height > 0 {
        lemma_span_is_tight(image.height, term.cell_height as int);
    }
}

proof fn lemma_span_is_tight(pixels: int, size: int)
    requires
        pixels >= 0,
        size > 0,
    ensures
        ({
            let cells = placement::cells_spanned(pixels, size);
            &&& 0 <= cells <= pixels
            &&& (cells - 1) * size < pixels <= cells * size
        }),
{
    let whole = pixels / size;
    let rest = pixels % size;
    vstd::arithmetic::div_mod::lemma_fundamental_div_mod(pixels, size);
    assert(0 <= whole && whole * size + rest == pixels && (whole - 1) * size == whole * size - size
        && (whole + 1) * size == whole * size + size) by (nonlinear_arith)
        requires
            pixels == size * whole + rest,
            0 <= rest < size,
            pixels >= 0,
            size > 0,
    ;
    assert(whole <= whole * size) by (nonlinear_arith)
        requires
            whole >= 0,
            size >= 1,
    ;
}

/// With `c=` or `r=` alone, the other side keeps the proportion of the part shown,
/// rounded down; with neither, both sides are those of the part.
pub proof fn law_display_keeps_proportion(
    data: GraphicData,
    cmd: KittyCommand,
    cell_width: usize,
    cell_height: usize,
)
    requires
        sides_fit(data),
        placement::shown(data, cmd, cell_width, cell_height) is Ok,
        part_width(data, cmd) > 0,
        part_height(data, cmd) > 0,
    ensures
        ({
            let image = placement::shown(data, cmd, cell_width, cell_height)->Ok_0;
            let pw = part_width(data, cmd);
            let ph = part_height(data, cmd);
            let w = image.width - cmd.offset_x;
            let h = image.height - cmd.offset_y;
            &&& cmd.columns > 0 && cmd.rows == 0 ==> h * pw <= ph * w < (h + 1) * pw
            &&& cmd.columns == 0 && cmd.rows > 0 ==> w * ph <= pw * h < (w + 1) * ph
            &&& cmd.columns == 0 && cmd.rows == 0 ==> w == pw && h == ph
        }),
{
    lemma_part_has_its_size(data, cmd);
    let params = placement::scale_params(data.color_type, cmd, cell_width, cell_height);
    if (cmd.columns > 0) != (cmd.rows > 0) {
        law_scaling_keeps_proportion(part_width(data, cmd), part_height(data, cmd), params);
    }
}

/// Without `c=` and `r=`, the pixels of the part shown are those of the image: the one
/// at (`col`, `row`) is that at (`col + x`, `row + y`). Offsets move it by `X=` and `Y=`
/// and make it RGBA; what they leave free is transparent black.
pub proof fn law_display_shows_the_pixels(
    data: GraphicData,
    cmd: KittyCommand,
    cell_width: usize,
    cell_height: usize,
    col: int,
    row: int,
    c: int,
)
    requires
        sides_fit(data),
        data.pixels.len() >= data.width * data.height * data.color_type.bytes_per_pixel(),
        placement::place_defined(data, cmd, cell_width, cell_height),
        placement::shown(data, cmd, cell_width, cell_height) is Ok,
        cmd.columns == 0 && cmd.rows == 0,
        0 <= col < part_width(data, cmd) + cmd.offset_x,
        0 <= row < part_height(data, cmd) + cmd.offset_y,
        0 <= c < placement::shown(
            data,
            cmd,
            cell_width,
            cell_height,
        )->Ok_0.color_type.bytes_per_pixel(),
    ensures
        ({
            let image = placement::shown(data, cmd, cell_width, cell_height)->Ok_0;
            let r = byte_at(image, col, row, c);
            let k = (row - cmd.offset_y + cmd.src_y) * data.width + (col - cmd.offset_x
                + cmd.src_x);
            &&& image.color_type == if cmd.offset_x == 0 && cmd.offset_y == 0 {
                data.color_type
            } else {
                ColorType::Rgba
            }
            &&& r == if col < cmd.offset_x || row < cmd.offset_y {
                0
            } else {
                rgba_byte(data, k, c)
            }
        }),
{
    let part = placement::shown_part(data, cmd)->Ok_0;
    let image = placement::shown(data, cmd, cell_width, cell_height)->Ok_0;
    lemma_part_has_its_size(data, cmd);
    if placement::needs_crop(data, cmd) {
        lemma_cropped_is_complete(data, cmd);
    }
    assert(part.pixels.len() >= part.width * part.height * part.color_type.bytes_per_pixel());
    let x = col - cmd.offset_x;
    let y = row - cmd.offset_y;
    let bpp = data.color_type.bytes_per_pixel();
    let d: int = if c < bpp {
        c
    } else {
        0
    };
    if x >= 0 && y >= 0 {
        if placement::needs_crop(data, cmd) {
            law_crop_takes_rectangle(data, cmd, x, y, d);
        }
        assert(byte_at(part, x, y, d) == byte_at(raster_of(data), x + cmd.src_x, y + cmd.src_y, d));
        assert((y + cmd.src_y) * data.width == (row - cmd.offset_y + cmd.src_y) * data.width);
    }
    if cmd.offset_x != 0 || cmd.offset_y != 0 {
        law_offset_moves_image(part, cmd.offset_x, cmd.offset_y, col, row, c);
        if x >= 0 && y >= 0 {
            let k = y * part.width + x;
            assert(0 <= k < part.width * part.height) by (nonlinear_arith)
                requires
                    k == y * part.width + x,
                    0 <= x < part.width,
                    0 <= y < part.height,
            ;
            assert((4 * k + c) / 4 == k && (4 * k + c) % 4 == c);
            assert((k * 4 + c) == 4 * k + c);
        }
    }
}

/// What is scaled, and neither cropped nor moved, is what resizing makes of the RGBA
/// pixels of the image, from its size to the one it is shown in; an image that has
/// this size stays as it is.
pub proof fn law_display_resizes_the_image(
    data: GraphicData,
    cmd: KittyCommand,
    cell_width: usize,
    cell_height: usize,
    rgba: Seq<u8>,
)
    requires
        sides_fit(data),
        complete(raster_of(data)),
        cmd.src_x == 0 && cmd.src_y == 0 && cmd.src_w == 0 && cmd.src_h == 0,
        cmd.offset_x == 0 && cmd.offset_y == 0,
        placement::shown(data, cmd, cell_width, cell_height) is Ok,
        rgba.len() == data.width * data.height * 4,
        forall|k: int, c: int|
            0 <= k < data.width * data.height && 0 <= c < 4 ==> #[trigger] rgba[4 * k + c]
                == rgba_byte(data, k, c),
    ensures
        ({
            let image = placement::shown(data, cmd, cell_width, cell_height)->Ok_0;
            let w = image.width;
            let h = image.height;
            if w == data.width && h == data.height {
                image == raster_of(data)
            } else {
                &&& image.color_type == ColorType::Rgba
                &&& image.pixels == placement::resized_rgba(
                    rgba,
                    data.width as u32,
                    data.height as u32,
                    w as u32,
                    h as u32,
                )
            }
        }),
{
    lemma_rgba_of(data, rgba);
}

/// RGBA pixels are known by their bytes.
proof fn lemma_rgba_of(data: GraphicData, rgba: Seq<u8>)
    requires
        complete(raster_of(data)),
        rgba.len() == data.width * data.height * 4,
        forall|k: int, c: int|
            0 <= k < data.width * data.height && 0 <= c < 4 ==> #[trigger] rgba[4 * k + c]
                == rgba_byte(data, k, c),
    ensures
        graphics::as_rgba(data.pixels@, data.color_type) == rgba,
{
    let pixels = data.width * data.height;
    let whole = graphics::as_rgba(data.pixels@, data.color_type);
    assert(pixels * 3 / 3 * 4 == pixels * 4);
    assert forall|i: int| 0 <= i < rgba.len() implies rgba[i] == whole[i] by {
        let k = i / 4;
        let c = i % 4;
        assert(i == 4 * k + c);
        assert(rgba[4 * k + c] == rgba_byte(data, k, c));
    }
    assert(whole =~= rgba);
}

/// A display command crops first, then scales what is left, then moves that: it shows
/// what three commands would show one after the other, each of what the one before
/// showed.
pub proof fn law_display_crops_then_scales_then_moves(
    data: GraphicData,
    cropped: GraphicData,
    resized: GraphicData,
    cmd: KittyCommand,
    crop: KittyCommand,
    scale: KittyCommand,
    shift: KittyCommand,
    cell_width: usize,
    cell_height: usize,
)
    requires
        crop == (KittyCommand {
            src_x: cmd.src_x,
            src_y: cmd.src_y,
            src_w: cmd.src_w,
            src_h: cmd.src_h,
            ..kitty_parser::blank(crop.payload)
        }),
        scale == (KittyCommand {
            columns: cmd.columns,
            rows: cmd.rows,
            ..kitty_parser::blank(scale.payload)
        }),
        shift == (KittyCommand {
            offset_x: cmd.offset_x,
            offset_y: cmd.offset_y,
            ..kitty_parser::blank(shift.payload)
        }),
        placement::shown(data, crop, cell_width, cell_height) == Ok::<_, Seq<char>>(
            raster_of(cropped),
        ),
        placement::shown(cropped, scale, cell_width, cell_height) == Ok::<_, Seq<char>>(
            raster_of(resized),
        ),
    ensures
        placement::shown(data, cmd, cell_width, cell_height) == placement::shown(
            resized,
            shift,
            cell_width,
            cell_height,
        ),
{
    assert(placement::shown_part(data, cmd) == placement::shown_part(data, crop));
    assert(raster_of(cropped) == placement::shown_part(data, crop)->Ok_0);
    assert(placement::fitted(raster_of(cropped), cmd, cell_width, cell_height)
        == placement::fitted(raster_of(cropped), scale, cell_width, cell_height));
}

/// A display command is refused exactly where its rectangle is empty or exceeds the
/// image, or where a side of what it would put on the grid is 0.
pub proof fn law_display_is_refused_without_pixels(
    data: GraphicData,
    cmd: KittyCommand,
    cell_width: usize,
    cell_height: usize,
)
    requires
        sides_fit(data),
        complete(raster_of(data)),
        data.width > 0 && data.height > 0,
        cmd.src_w == 0 ==> cmd.src_x <= data.width,
        cmd.src_h == 0 ==> cmd.src_y <= data.height,
        cmd.columns > 0 && cmd.rows > 0 || cmd.columns == 0 && cmd.rows == 0,
    ensures
        placement::shown(data, cmd, cell_width, cell_height) is Ok <==> {
            &&& part_width(data, cmd) != 0 && part_height(data, cmd) != 0
            &&& cmd.src_x + part_width(data, cmd) <= data.width
            &&& cmd.src_y + part_height(data, cmd) <= data.height
            &&& cmd.columns > 0 ==> cell_width > 0 && cell_height > 0
        },
{
    let w = placement::crop_width(data, cmd);
    let h = placement::crop_height(data, cmd);
    let part = placement::shown_part(data, cmd)->Ok_0;
    assert(cmd.columns * cell_width == 0 <==> cmd.columns == 0 || cell_width == 0)
        by (nonlinear_arith);
    assert(cmd.rows * cell_height == 0 <==> cmd.rows == 0 || cell_height == 0) by (nonlinear_arith);
    if placement::shown_part(data, cmd) is Ok {
        if placement::needs_crop(data, cmd) {
            lemma_cropped_is_complete(data, cmd);
            assert(complete(part));
        }
        let pixels = part.width * part.height;
        assert(pixels * 3 / 3 * 4 == pixels * 4);
        assert(part.width as u32 == part.width && part.height as u32 == part.height);
    }
}

/// A refused crop or scaling says what is wrong with which size.
pub proof fn law_refused_display_says_why(
    data: GraphicData,
    cmd: KittyCommand,
    pixels: Seq<u8>,
    src_w: int,
    src_h: int,
    params: ScaleParams,
)
    ensures
        ({
            let w = part_width(data, cmd);
            let h = part_height(data, cmd);
            let scaled = placement::scaled(pixels, src_w, src_h, params);
            let (tw, th) = placement::target_dimensions(src_w, src_h, params);
            &&& cmd.src_x + w > data.width || cmd.src_y + h > data.height ==> placement::crop_error(
                data,
                cmd,
            ) == Some(
                "source rect ("@ + text::decimal(cmd.src_x as nat) + ","@ + text::decimal(
                    cmd.src_y as nat,
                ) + ","@ + text::decimal(w as nat) + ","@ + text::decimal(h as nat)
                    + ") exceeds image ("@ + text::decimal(data.width as nat) + "x"@
                    + text::decimal(data.height as nat) + ")"@,
            )
            &&& cmd.src_x + w <= data.width && cmd.src_y + h <= data.height && (w == 0 || h == 0)
                ==> placement::crop_error(data, cmd) == Some(
                "source rect has zero width or height"@,
            )
            &&& cmd.src_x + w <= data.width && cmd.src_y + h <= data.height && w != 0 && h != 0
                ==> placement::crop_error(data, cmd) is None
            &&& tw == 0 || th == 0 ==> scaled == Err::<(Seq<u8>, int, int), _>(
                "scaled dimensions are zero"@,
            )
            &&& tw != 0 && th != 0 && scaled is Err ==> scaled == Err::<(Seq<u8>, int, int), _>(
                "failed to create image buffer from "@ + text::decimal(src_w as nat) + "x"@
                    + text::decimal(src_h as nat) + " ("@ + text::decimal(pixels.len())
                    + " bytes)"@,
            )
        }),
{
}

/// Scaling is refused for want of pixels exactly where a size is asked for that is
/// neither 0 nor the image's own, and the pixels do not fill the image.
pub proof fn law_scaling_needs_all_pixels(
    pixels: Seq<u8>,
    src_w: int,
    src_h: int,
    params: ScaleParams,
)
    requires
        0 <= src_w <= u32::MAX,
        0 <= src_h <= u32::MAX,
        ({
            let (tw, th) = placement::target_dimensions(src_w, src_h, params);
            tw != 0 && th != 0 && !(tw == src_w && th == src_h)
        }),
    ensures
        placement::scaled(pixels, src_w, src_h, params) is Err <==> (pixels.len() as int)
            / params.color_type.bytes_per_pixel() < src_w * src_h,
{
    let bytes = pixels.len() as int;
    assert(bytes / 3 * 4 < 4 * (src_w * src_h) <==> bytes / 3 < src_w * src_h);
    assert(bytes < 4 * (src_w * src_h) <==> bytes / 4 < src_w * src_h);
}

/// A side of 0 leaves nothing to keep the proportion to: the other side stays.
pub proof fn law_scaling_of_an_empty_side(side: int, params: ScaleParams)
    ensures
        params.columns > 0 && params.rows == 0 ==> placement::target_dimensions(0, side, params).1
            == side,
        params.columns == 0 && params.rows > 0 ==> placement::target_dimensions(side, 0, params).0
            == side,
{
}

/// RGB pixels keep their colors and become opaque; bytes behind the last whole pixel
/// make none.
pub proof fn law_rgb_becomes_opaque_rgba(rgb: Seq<u8>, k: int, c: int)
    requires
        0 <= k < rgb.len() / 3,
        0 <= c < 3,
    ensures
        graphics::opaque_rgba(rgb).len() == 4 * (rgb.len() / 3),
        graphics::opaque_rgba(rgb)[4 * k + c] == rgb[3 * k + c],
        graphics::opaque_rgba(rgb)[4 * k + 3] == 255,
{
    assert((4 * k + c) / 4 == k && (4 * k + c) % 4 == c);
    assert((4 * k + 3) / 4 == k && (4 * k + 3) % 4 == 3);
}

/// Pixels put on a canvas are found where they are put, as far as they lie on it; the
/// rest of the canvas is transparent black.
pub proof fn law_canvas_holds_what_is_put_on_it(
    canvas_width: int,
    canvas_height: int,
    src: Seq<u8>,
    src_width: int,
    src_height: int,
    x: int,
    y: int,
    col: int,
    row: int,
    c: int,
)
    requires
        0 <= src_width && 0 <= src_height && 0 <= x && 0 <= y,
        src.len() == src_width * src_height * 4,
        0 <= col < canvas_width,
        0 <= row < canvas_height,
        0 <= c < 4,
    ensures
        ({
            let canvas = animation::placed(
                canvas_width,
                canvas_height,
                src,
                src_width,
                src_height,
                x,
                y,
            );
            &&& canvas.len() == canvas_width * canvas_height * 4
            &&& canvas[(row * canvas_width + col) * 4 + c] == if x <= col < x + src_width && y
                <= row < y + src_height {
                src[((row - y) * src_width + (col - x)) * 4 + c]
            } else {
                0
            }
        }),
{
    let at = row * canvas_width + col;
    let i = at * 4 + c;
    graphics::lemma_cell(row, col, canvas_width);
    assert(i / 4 == at && i % 4 == c);
    assert(at < canvas_width * canvas_height) by (nonlinear_arith)
        requires
            at == row * canvas_width + col,
            0 <= col < canvas_width,
            row < canvas_height,
    ;
    if x <= col < x + src_width && y <= row < y + src_height {
        let r = row - y;
        let columns = animation::min(src_width, canvas_width - x);
        assert(r * src_width + columns <= src_width * src_height) by (nonlinear_arith)
            requires
                0 <= r < src_height,
                0 <= src_width,
                columns <= src_width,
        ;
        assert(animation::row_present(src, src_width, r, columns));
    }
}

/// A command without source rectangle, size or offsets shows the image as it is.
pub proof fn law_plain_display_shows_image(
    data: GraphicData,
    cmd: KittyCommand,
    cell_width: usize,
    cell_height: usize,
)
    requires
        cmd.src_x == 0 && cmd.src_y == 0 && cmd.src_w == 0 && cmd.src_h == 0,
        cmd.columns == 0 && cmd.rows == 0,
        cmd.offset_x == 0 && cmd.offset_y == 0,
    ensures
        placement::place_defined(data, cmd, cell_width, cell_height),
        placement::shown(data, cmd, cell_width, cell_height) == Ok::<_, Seq<char>>(raster_of(data)),
{
}

} // verus!
