//! Cropping, scaling, offsets and placement.
use kitty_graphics::graphics::{rgb_to_rgba, ColorType, GraphicData, GraphicId};
use kitty_graphics::kitty::placement::{
    apply_pixel_offsets, calculate_scaled_dimensions, can_place_data, can_place_image, crop_image,
    insertion_of, place_image, resized_or_error, resolve_image_id, resolve_or_assign_id,
    scale_image, ScaleParams,
};
use kitty_graphics::kitty::state::{KittyPlacement, KittyState};
use kitty_graphics::kitty_parser::KittyCommand;
use kitty_graphics::term::{Cursor, Graphics, Grid, Point, Term};

// ---------------------------------------------------------------
// Dimension calculation tests
// ---------------------------------------------------------------

#[test]
fn scale_dimensions_both_set() {
    let (tw, th) = calculate_scaled_dimensions(100, 200, 5, 3, 8, 16);
    assert_eq!(tw, 40); // 5 * 8
    assert_eq!(th, 48); // 3 * 16
}

#[test]
fn scale_dimensions_only_columns() {
    // 100×200, columns=5, cell_width=8 → tw=40, th = 200*40/100 = 80
    let (tw, th) = calculate_scaled_dimensions(100, 200, 5, 0, 8, 16);
    assert_eq!(tw, 40);
    assert_eq!(th, 80);
}

#[test]
fn scale_dimensions_only_rows() {
    // 100×200, rows=4, cell_height=16 → th=64, tw = 100*64/200 = 32
    let (tw, th) = calculate_scaled_dimensions(100, 200, 0, 4, 8, 16);
    assert_eq!(tw, 32);
    assert_eq!(th, 64);
}

#[test]
fn scale_dimensions_none() {
    let (tw, th) = calculate_scaled_dimensions(100, 200, 0, 0, 8, 16);
    assert_eq!(tw, 100);
    assert_eq!(th, 200);
}

#[test]
fn scale_dimensions_square_proportional() {
    // 64×64, columns=4, cell_width=10 → tw=40, th=64*40/64=40
    let (tw, th) = calculate_scaled_dimensions(64, 64, 4, 0, 10, 10);
    assert_eq!(tw, 40);
    assert_eq!(th, 40);
}

// ---------------------------------------------------------------
// Pixel scaling tests
// ---------------------------------------------------------------

fn make_scale_params(color_type: ColorType, columns: u32, rows: u32, cw: usize, ch: usize) -> ScaleParams {
    ScaleParams { color_type, columns, rows, cell_width: cw, cell_height: ch }
}

#[test]
fn scale_image_upscale() {
    // 4×4 solid red RGBA → scale to 8×8
    let red = [255u8, 0, 0, 255];
    let pixels: Vec<u8> = red.repeat(4 * 4);
    let params = make_scale_params(ColorType::Rgba, 1, 1, 8, 8);
    let (out, w, h) = scale_image(&pixels, 4, 4, &params).unwrap();
    assert_eq!(w, 8);
    assert_eq!(h, 8);
    assert_eq!(out.len(), 8 * 8 * 4);
    // All pixels should still be red (solid color scales perfectly).
    for chunk in out.chunks_exact(4) {
        assert_eq!(chunk, &red);
    }
}

#[test]
fn scale_image_downscale() {
    // 8×8 solid green → scale to 4×4
    let green = [0u8, 255, 0, 255];
    let pixels: Vec<u8> = green.repeat(8 * 8);
    let params = make_scale_params(ColorType::Rgba, 2, 2, 2, 2);
    let (out, w, h) = scale_image(&pixels, 8, 8, &params).unwrap();
    assert_eq!(w, 4);
    assert_eq!(h, 4);
    assert_eq!(out.len(), 4 * 4 * 4);
}

#[test]
fn scale_image_noop_when_same_size() {
    let pixels: Vec<u8> = vec![128; 4 * 4 * 4];
    let params = make_scale_params(ColorType::Rgba, 2, 2, 2, 2);
    let (out, w, h) = scale_image(&pixels, 4, 4, &params).unwrap();
    assert_eq!(w, 4);
    assert_eq!(h, 4);
    assert_eq!(out, pixels);
}

#[test]
fn scale_image_rgb_input() {
    // Ensure RGB input is handled (promoted to RGBA for scaling).
    let blue = [0u8, 0, 255];
    let pixels: Vec<u8> = blue.repeat(4 * 4);
    let params = make_scale_params(ColorType::Rgb, 1, 1, 8, 8);
    let (out, w, h) = scale_image(&pixels, 4, 4, &params).unwrap();
    assert_eq!(w, 8);
    assert_eq!(h, 8);
    // Output is RGBA (4 bytes per pixel).
    assert_eq!(out.len(), 8 * 8 * 4);
}

#[test]
fn scale_image_zero_target_errors() {
    let pixels: Vec<u8> = vec![0; 16];
    // columns=1 but cell_width=0 → target 0.
    let params = make_scale_params(ColorType::Rgba, 1, 0, 0, 16);
    let result = scale_image(&pixels, 2, 2, &params);
    assert!(result.is_err());
}

// ---------------------------------------------------------------
// Crop + scale interaction
// ---------------------------------------------------------------

#[test]
fn crop_then_scale() {
    // 8×8 image, crop to 4×4, then scale to 2 columns × 2 rows at 4×4 cell → 8×8.
    let pixels: Vec<u8> = vec![100; 8 * 8 * 4];
    let src = GraphicData {
        id: GraphicId(0),
        width: 8,
        height: 8,
        color_type: ColorType::Rgba,
        pixels,
        is_opaque: false,
    };
    let cmd = KittyCommand {
        src_x: 2,
        src_y: 2,
        src_w: 4,
        src_h: 4,
        ..Default::default()
    };
    let (cropped, cw, ch, ct) = crop_image(&src, &cmd).unwrap();
    assert_eq!((cw, ch), (4, 4));

    let params = make_scale_params(ct, 2, 2, 4, 4);
    let (scaled, sw, sh) = scale_image(&cropped, cw, ch, &params).unwrap();
    assert_eq!(sw, 8);
    assert_eq!(sh, 8);
    assert_eq!(scaled.len(), 8 * 8 * 4);
}

// ---------------------------------------------------------------
// Pixel offset (padding) tests
// ---------------------------------------------------------------

#[test]
fn offset_no_op() {
    let pixels = vec![255u8; 2 * 2 * 4];
    let (out, w, h, ct) = apply_pixel_offsets(pixels.clone(), 2, 2, ColorType::Rgba, 0, 0);
    assert_eq!(w, 2);
    assert_eq!(h, 2);
    assert_eq!(ct, ColorType::Rgba);
    assert_eq!(out, pixels);
}

#[test]
fn offset_x_only() {
    // 2×2 white RGBA, offset_x=3 → 5×2 with 3-pixel transparent left strip.
    let white = [255u8, 255, 255, 255];
    let pixels: Vec<u8> = white.repeat(2 * 2);
    let (out, w, h, ct) = apply_pixel_offsets(pixels, 2, 2, ColorType::Rgba, 3, 0);
    assert_eq!(w, 5);
    assert_eq!(h, 2);
    assert_eq!(ct, ColorType::Rgba);
    assert_eq!(out.len(), 5 * 2 * 4);

    // First 3 pixels of row 0 should be transparent (all zeroes).
    for px in 0..3 {
        let start = px * 4;
        assert_eq!(&out[start..start + 4], &[0, 0, 0, 0]);
    }
    // Pixel at (3,0) should be white.
    assert_eq!(&out[12..16], &white);
}

#[test]
fn offset_y_only() {
    // 2×2 red RGBA, offset_y=2 → 2×4 with 2 transparent rows on top.
    let red = [255u8, 0, 0, 255];
    let pixels: Vec<u8> = red.repeat(2 * 2);
    let (out, w, h, ct) = apply_pixel_offsets(pixels, 2, 2, ColorType::Rgba, 0, 2);
    assert_eq!(w, 2);
    assert_eq!(h, 4);
    assert_eq!(ct, ColorType::Rgba);

    // First 2 rows (2*2*4 = 16 bytes) should be all zeroes.
    assert!(out[..16].iter().all(|&b| b == 0));
    // Row 2, pixel 0 should be red.
    assert_eq!(&out[16..20], &red);
}

#[test]
fn offset_both() {
    let blue = [0u8, 0, 255, 255];
    let pixels: Vec<u8> = blue.repeat(1); // 1×1 image
    let (out, w, h, ct) = apply_pixel_offsets(pixels, 1, 1, ColorType::Rgba, 2, 3);
    assert_eq!(w, 3);
    assert_eq!(h, 4);
    assert_eq!(ct, ColorType::Rgba);

    // Only pixel at (2, 3) should be blue; everything else transparent.
    for row in 0..h {
        for col in 0..w {
            let start = (row * w + col) * 4;
            if row == 3 && col == 2 {
                assert_eq!(&out[start..start + 4], &blue);
            } else {
                assert_eq!(&out[start..start + 4], &[0, 0, 0, 0]);
            }
        }
    }
}

#[test]
fn offset_promotes_rgb_to_rgba() {
    let pixels = vec![128u8; 2 * 2 * 3]; // RGB
    let (out, w, h, ct) = apply_pixel_offsets(pixels, 2, 2, ColorType::Rgb, 1, 0);
    assert_eq!(w, 3);
    assert_eq!(h, 2);
    assert_eq!(ct, ColorType::Rgba);
    assert_eq!(out.len(), 3 * 2 * 4);
}

// ---------------------------------------------------------------
// rgb_to_rgba helper
// ---------------------------------------------------------------

#[test]
fn rgb_to_rgba_conversion() {
    let rgb = vec![10, 20, 30, 40, 50, 60];
    let rgba = rgb_to_rgba(&rgb);
    assert_eq!(rgba, vec![10, 20, 30, 255, 40, 50, 60, 255]);
}

// ---------------------------------------------------------------
// Crop tests
// ---------------------------------------------------------------

#[test]
fn crop_image_basic() {
    let pixels: Vec<u8> = [255, 0, 0, 255].repeat(16);
    let src = GraphicData {
        id: GraphicId(0),
        width: 4,
        height: 4,
        color_type: ColorType::Rgba,
        pixels,
        is_opaque: false,
    };
    let cmd = KittyCommand {
        src_x: 1,
        src_y: 1,
        src_w: 2,
        src_h: 2,
        ..Default::default()
    };
    let (cropped, w, h, ct) = crop_image(&src, &cmd).unwrap();
    assert_eq!(w, 2);
    assert_eq!(h, 2);
    assert_eq!(ct, ColorType::Rgba);
    assert_eq!(cropped.len(), 2 * 2 * 4);
}

#[test]
fn crop_image_out_of_bounds() {
    let src = GraphicData {
        id: GraphicId(0),
        width: 4,
        height: 4,
        color_type: ColorType::Rgba,
        pixels: vec![0; 64],
        is_opaque: false,
    };
    let cmd = KittyCommand {
        src_x: 3,
        src_y: 3,
        src_w: 3,
        src_h: 3,
        ..Default::default()
    };
    assert!(crop_image(&src, &cmd).is_err());
}

// ---------------------------------------------------------------
// Cropping
// ---------------------------------------------------------------

fn numbered(width: usize, height: usize, color_type: ColorType) -> GraphicData {
    let bpp = if color_type == ColorType::Rgba { 4 } else { 3 };
    GraphicData {
        id: GraphicId(0),
        width,
        height,
        color_type,
        pixels: (0..width * height * bpp).map(|i| i as u8).collect(),
        is_opaque: false,
    }
}

#[test]
fn crop_takes_the_pixels_of_the_rectangle() {
    let src = numbered(3, 3, ColorType::Rgb);
    let cmd = KittyCommand { src_x: 1, src_y: 1, src_w: 2, src_h: 1, ..Default::default() };
    let (pixels, w, h, ct) = crop_image(&src, &cmd).unwrap();
    // Row 1 starts at byte 9, its second pixel at byte 12.
    assert_eq!(pixels, vec![12, 13, 14, 15, 16, 17]);
    assert_eq!((w, h), (2, 1));
    assert_eq!(ct, ColorType::Rgb);
}

#[test]
fn crop_without_size_reaches_to_the_edge() {
    let src = numbered(2, 2, ColorType::Rgba);
    let cmd = KittyCommand { src_x: 1, ..Default::default() };
    let (pixels, w, h, _) = crop_image(&src, &cmd).unwrap();
    assert_eq!((w, h), (1, 2));
    assert_eq!(pixels, vec![4, 5, 6, 7, 12, 13, 14, 15]);
}

#[test]
fn crop_of_everything_is_everything() {
    let src = numbered(3, 2, ColorType::Rgba);
    let cmd = KittyCommand { src_w: 3, src_h: 2, ..Default::default() };
    let (pixels, w, h, _) = crop_image(&src, &cmd).unwrap();
    assert_eq!((w, h), (3, 2));
    assert_eq!(pixels, src.pixels);
}

#[test]
fn crop_errors_tell_what_is_wrong() {
    let src = numbered(4, 5, ColorType::Rgba);
    let cmd = KittyCommand { src_x: 3, src_y: 2, src_w: 2, src_h: 1, ..Default::default() };
    assert_eq!(
        crop_image(&src, &cmd).unwrap_err(),
        "source rect (3,2,2,1) exceeds image (4x5)"
    );
    let cmd = KittyCommand { src_x: 4, ..Default::default() };
    assert_eq!(crop_image(&src, &cmd).unwrap_err(), "source rect has zero width or height");
}

// ---------------------------------------------------------------
// Scaling
// ---------------------------------------------------------------

#[test]
fn scale_dimensions_of_empty_images() {
    assert_eq!(calculate_scaled_dimensions(0, 7, 2, 0, 8, 16), (16, 7));
    assert_eq!(calculate_scaled_dimensions(7, 0, 0, 2, 8, 16), (7, 32));
}

#[test]
fn scale_dimensions_round_down() {
    // 7*10/3 = 23.33…
    assert_eq!(calculate_scaled_dimensions(3, 7, 1, 0, 10, 10), (10, 23));
}

#[test]
fn scale_image_averages_pixels() {
    // Two pixels onto one: each weighs half.
    let pixels = vec![0, 10, 200, 255, 100, 20, 100, 255];
    let params = make_scale_params(ColorType::Rgba, 1, 1, 1, 1);
    let (out, w, h) = scale_image(&pixels, 2, 1, &params).unwrap();
    assert_eq!((w, h), (1, 1));
    assert_eq!(out, vec![50, 15, 150, 255]);
}

#[test]
fn scale_image_to_a_very_long_side() {
    let params = make_scale_params(ColorType::Rgba, 4_194_305, 1, 1, 1);
    let (out, w, h) = scale_image(&[1, 2, 3, 4], 1, 1, &params).unwrap();
    assert_eq!((w, h), (4_194_305, 1));
    assert_eq!(out.len(), 4 * 4_194_305);
    assert!(out.chunks_exact(4).all(|p| p == [1, 2, 3, 4]));
}

#[test]
fn scale_image_shrinks_a_very_long_side() {
    let params = make_scale_params(ColorType::Rgba, 2, 1, 1, 1);
    let pixels: Vec<u8> = [1u8, 2, 3, 4].repeat(4_194_305);
    let (out, w, h) = scale_image(&pixels, 4_194_305, 1, &params).unwrap();
    assert_eq!((w, h), (2, 1));
    assert_eq!(out, vec![1, 2, 3, 4, 1, 2, 3, 4]);
}

#[test]
fn scale_image_keeps_solid_rgb() {
    let pixels: Vec<u8> = [9u8, 8, 7].repeat(4);
    let params = make_scale_params(ColorType::Rgb, 1, 1, 3, 1);
    let (out, w, h) = scale_image(&pixels, 2, 2, &params).unwrap();
    assert_eq!((w, h), (3, 1));
    assert_eq!(out, [9u8, 8, 7, 255].repeat(3));
}

#[test]
fn scale_errors_tell_what_is_wrong() {
    let params = make_scale_params(ColorType::Rgba, 1, 1, 8, 8);
    assert_eq!(
        scale_image(&[0; 15], 2, 2, &params).unwrap_err(),
        "failed to create image buffer from 2x2 (15 bytes)"
    );
    let params = make_scale_params(ColorType::Rgba, 1, 0, 0, 8);
    assert_eq!(scale_image(&[0; 16], 2, 2, &params).unwrap_err(), "scaled dimensions are zero");
}

#[test]
fn resized_pixels_get_the_target_dimensions() {
    assert_eq!(
        resized_or_error(Some(vec![1, 2, 3, 4]), 99, 5, 6, 7, 8),
        Ok((vec![1, 2, 3, 4], 7, 8))
    );
    assert_eq!(
        resized_or_error(None, 99, 5, 6, 7, 8),
        Err("failed to create image buffer from 5x6 (99 bytes)".to_string())
    );
}

// ---------------------------------------------------------------
// Offsets
// ---------------------------------------------------------------

#[test]
fn offset_moves_every_pixel() {
    let src = numbered(2, 1, ColorType::Rgb);
    let (out, w, h, ct) = apply_pixel_offsets(src.pixels, 2, 1, ColorType::Rgb, 1, 1);
    assert_eq!((w, h), (3, 2));
    assert_eq!(ct, ColorType::Rgba);
    let mut expected = vec![0u8; 16];
    expected.extend_from_slice(&[0, 1, 2, 255, 3, 4, 5, 255]);
    assert_eq!(out, expected);
}

// ---------------------------------------------------------------
// Placement
// ---------------------------------------------------------------

fn term_with(images: Vec<(u32, GraphicData)>) -> Term {
    let mut kitty_state = KittyState::default();
    for (id, data) in images {
        kitty_state.store_image(id, data);
    }
    Term {
        graphics: Graphics { kitty_state, cell_width: 2, cell_height: 2 },
        grid: Grid {
            cursor: Cursor { point: Point { line: 3, column: 4 }, bookmark: false },
            bookmarks: vec![],
        },
    }
}

#[test]
fn plain_placement_shows_the_image() {
    let mut term = term_with(vec![(1, numbered(2, 2, ColorType::Rgba))]);
    let cmd = KittyCommand::default();
    assert!(can_place_image(&mut term, 1, &cmd));
    let insertion = place_image(&mut term, 1, &cmd).unwrap();
    assert_eq!(insertion.pixels, (0..16).collect::<Vec<u8>>());
    assert_eq!((insertion.width, insertion.height), (2, 2));
    assert_eq!(insertion.color_type, ColorType::Rgba);
    assert!(!insertion.is_opaque);
    assert_eq!(insertion.saved_cursor, None);

    let graphic = insertion.into_graphic(GraphicId(77));
    assert_eq!(graphic.id, GraphicId(77));
    assert_eq!(graphic.pixels, (0..16).collect::<Vec<u8>>());
    assert_eq!((graphic.width, graphic.height), (2, 2));
}

#[test]
fn placement_crops_scales_and_moves() {
    let mut term = term_with(vec![(1, numbered(2, 2, ColorType::Rgba))]);
    // The lower right pixel, as large as a cell, one pixel to the right.
    let cmd = KittyCommand {
        src_x: 1,
        src_y: 1,
        columns: 1,
        rows: 1,
        offset_x: 1,
        cursor_movement: 1,
        ..Default::default()
    };
    let insertion = place_image(&mut term, 1, &cmd).unwrap();
    let row = [0, 0, 0, 0, 12, 13, 14, 15, 12, 13, 14, 15];
    assert_eq!(insertion.pixels, row.repeat(2));
    assert_eq!((insertion.width, insertion.height), (3, 2));
    assert_eq!(insertion.saved_cursor, Some(Point { line: 3, column: 4 }));
}

#[test]
fn placements_are_registered() {
    let mut term = term_with(vec![(1, numbered(3, 2, ColorType::Rgba))]);
    // Three pixels and one of offset span two cells of two pixels, two rows one.
    let cmd = KittyCommand { placement_id: 6, z_index: -2, offset_x: 1, ..Default::default() };
    place_image(&mut term, 1, &cmd).unwrap();
    place_image(&mut term, 1, &KittyCommand { columns: 5, rows: 4, ..Default::default() }).unwrap();
    assert!(place_image(&mut term, 2, &cmd).is_err());
    assert!(place_image(&mut term, 1, &KittyCommand { src_w: 9, ..Default::default() }).is_err());
    let first = KittyPlacement {
        image_id: 1, placement_id: 6, col: 4, row: 3, width: 2, height: 1, z_index: -2,
    };
    let second = KittyPlacement {
        image_id: 1, placement_id: 0, col: 4, row: 3, width: 5, height: 4, z_index: 0,
    };
    assert_eq!(term.graphics.kitty_state.placements, vec![first, second]);
}

#[test]
fn scaled_rgb_placement_is_rgba() {
    let mut data = numbered(1, 1, ColorType::Rgb);
    data.pixels = vec![10, 20, 30];
    let mut term = term_with(vec![(1, data)]);
    let cmd = KittyCommand { columns: 1, rows: 1, ..Default::default() };
    let insertion = place_image(&mut term, 1, &cmd).unwrap();
    assert_eq!(insertion.color_type, ColorType::Rgba);
    assert!(!insertion.is_opaque);
    assert_eq!(insertion.pixels, [10, 20, 30, 255].repeat(4));
    // Offsets work on the RGBA pixels.
    let cmd = KittyCommand { columns: 1, rows: 1, offset_y: 1, ..Default::default() };
    let insertion = place_image(&mut term, 1, &cmd).unwrap();
    let mut expected = vec![0u8; 8];
    expected.extend_from_slice(&[10, 20, 30, 255].repeat(4));
    assert_eq!(insertion.pixels, expected);
    assert_eq!((insertion.width, insertion.height), (2, 3));
}

#[test]
fn complete_image_is_shown_complete() {
    for color_type in [ColorType::Rgb, ColorType::Rgba] {
        let mut term = term_with(vec![(1, numbered(5, 3, color_type))]);
        for (src_w, columns, rows, offset_x) in
            [(0, 0, 0, 0), (2, 0, 0, 0), (0, 3, 0, 0), (3, 0, 4, 0), (2, 3, 7, 0), (4, 3, 7, 2)]
        {
            let cmd = KittyCommand { src_w, columns, rows, offset_x, ..Default::default() };
            let insertion = place_image(&mut term, 1, &cmd).unwrap();
            let bpp = if insertion.color_type == ColorType::Rgba { 4 } else { 3 };
            assert_eq!(insertion.pixels.len(), insertion.width * insertion.height * bpp);
        }
    }
}

#[test]
fn rgb_placement_is_opaque_until_moved() {
    let mut term = term_with(vec![(1, numbered(1, 1, ColorType::Rgb))]);
    let insertion = place_image(&mut term, 1, &KittyCommand::default()).unwrap();
    assert!(insertion.is_opaque);
    assert_eq!(insertion.color_type, ColorType::Rgb);
    let cmd = KittyCommand { offset_y: 1, ..Default::default() };
    let insertion = place_image(&mut term, 1, &cmd).unwrap();
    assert!(!insertion.is_opaque);
    assert_eq!(insertion.pixels, vec![0, 0, 0, 0, 0, 1, 2, 255]);
}

#[test]
fn source_size_of_the_whole_image_is_no_crop() {
    // The pixels are too few for a crop, but none is needed.
    let mut data = numbered(2, 2, ColorType::Rgba);
    data.pixels.truncate(5);
    let mut term = term_with(vec![(1, data)]);
    let cmd = KittyCommand { src_w: 2, src_h: 2, ..Default::default() };
    assert_eq!(place_image(&mut term, 1, &cmd).unwrap().pixels, vec![0, 1, 2, 3, 4]);
}

#[test]
fn placement_errors_tell_what_is_wrong() {
    let mut term = term_with(vec![(1, numbered(2, 2, ColorType::Rgba))]);
    let cmd = KittyCommand::default();
    assert!(can_place_image(&mut term, 9, &cmd));
    assert_eq!(place_image(&mut term, 9, &cmd).unwrap_err(), "image id=9 not in storage");
    let cmd = KittyCommand { src_w: 3, ..Default::default() };
    assert_eq!(
        place_image(&mut term, 1, &cmd).unwrap_err(),
        "source rect (0,0,3,2) exceeds image (2x2)"
    );
}

#[test]
fn scaled_image_becomes_an_insertion() {
    let cmd = KittyCommand { offset_x: 1, ..Default::default() };
    let cursor = Point { line: 0, column: 0 };
    let insertion = insertion_of(vec![9, 9, 9, 9], 1, 1, ColorType::Rgba, &cmd, cursor);
    assert_eq!(insertion.pixels, vec![0, 0, 0, 0, 9, 9, 9, 9]);
    assert_eq!((insertion.width, insertion.height), (2, 1));
    assert_eq!(insertion.saved_cursor, None);
}

#[test]
fn impossible_placements_are_told_apart() {
    let data = numbered(2, 2, ColorType::Rgba);
    let can = |cmd: KittyCommand| can_place_data(&data, &cmd, 2, 2);
    assert!(can(KittyCommand { src_x: 2, ..Default::default() }));
    // A rectangle that starts behind the edge has no size.
    assert!(!can(KittyCommand { src_x: 3, ..Default::default() }));
    assert!(!can(KittyCommand { src_y: 3, ..Default::default() }));
    assert!(can(KittyCommand { src_y: 3, src_h: 1, ..Default::default() }));
    // Long sides can be resized to, but not sizes that cannot be allocated.
    assert!(can(KittyCommand { columns: 3, rows: 3, ..Default::default() }));
    assert!(can(KittyCommand { columns: 3_000_000, rows: 1, ..Default::default() }));
    assert!(!can(KittyCommand { columns: u32::MAX, rows: u32::MAX, ..Default::default() }));
    // Long sides can be shrunk, but not grow.
    let long = numbered(4_194_305, 1, ColorType::Rgba);
    let to = |columns: u32| KittyCommand { columns, rows: 1, ..Default::default() };
    assert!(can_place_data(&long, &to(3), 1, 1));
    assert!(can_place_data(&long, &to(4_194_304), 1, 1));
    assert!(!can_place_data(&long, &to(4_194_306), 1, 1));
    // Longer ones can be halved.
    let long = numbered(8_388_609, 1, ColorType::Rgba);
    assert!(can_place_data(&long, &to(4_194_304), 1, 1));
    assert!(!can_place_data(&long, &to(4_194_305), 1, 1));
    let long = numbered(16_777_217, 1, ColorType::Rgba);
    assert!(!can_place_data(&long, &to(1), 1, 1));
    // Padding that cannot be allocated.
    assert!(!can(KittyCommand { offset_x: u32::MAX, offset_y: u32::MAX, ..Default::default() }));

    let mut short = numbered(2, 2, ColorType::Rgba);
    short.pixels.truncate(15);
    assert!(!can_place_data(&short, &KittyCommand { offset_x: 1, ..Default::default() }, 2, 2));
    assert!(!can_place_data(&short, &KittyCommand { src_y: 1, ..Default::default() }, 2, 2));
    // Too few pixels to scale is an error of its own.
    assert!(can_place_data(&short, &KittyCommand { columns: 3, ..Default::default() }, 2, 2));
}

// ---------------------------------------------------------------
// Image IDs
// ---------------------------------------------------------------

#[test]
fn ids_are_given_or_assigned() {
    let mut term = term_with(vec![]);
    let given = KittyCommand { image_id: 7, image_number: 70, ..Default::default() };
    assert_eq!(resolve_or_assign_id(&mut term, &given), 7);
    let numbered = KittyCommand { image_number: 80, ..Default::default() };
    assert_eq!(resolve_or_assign_id(&mut term, &numbered), 1);
    assert_eq!(resolve_or_assign_id(&mut term, &KittyCommand::default()), 2);

    let state = &term.graphics.kitty_state;
    assert_eq!(resolve_image_id(state, &given), Some(7));
    assert_eq!(resolve_image_id(state, &numbered), Some(1));
    let cmd = KittyCommand { image_number: 70, ..Default::default() };
    assert_eq!(resolve_image_id(state, &cmd), Some(7));
    let cmd = KittyCommand { image_number: 71, ..Default::default() };
    assert_eq!(resolve_image_id(state, &cmd), None);
    assert_eq!(resolve_image_id(state, &KittyCommand::default()), None);
}
