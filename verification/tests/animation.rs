//! Animation frames: storage, composition and control.
use base64::engine::general_purpose::STANDARD as BASE64;
use base64::Engine;
use kitty_graphics::graphics::{ColorType, GraphicData, GraphicId};
use kitty_graphics::kitty::animation::{
    alpha_blend_pixel, background_to_rgba, blit, can_compose, can_load_frame, compose_frames,
    control_animation, ensure_rgba, load_animation_frame, make_background_canvas, overlay,
    place_on_canvas,    AnimationFrame, AnimationState, CompositionMode, PlaybackState,
};
use kitty_graphics::kitty::state::KittyState;
use kitty_graphics::kitty_parser::{Action, Format, KittyCommand};

/// Helper: decode the inline RGBA payload of a command.
fn decode(cmd: &KittyCommand) -> Result<GraphicData, String> {
    let pixels = BASE64.decode(&cmd.payload).map_err(|e| e.to_string())?;
    Ok(make_graphic(pixels, cmd.width as usize, cmd.height as usize))
}

/// Helper: create a simple animation frame with overwrite mode.
fn make_frame(pixels: Vec<u8>, width: usize, height: usize, gap_ms: u32) -> AnimationFrame {
    AnimationFrame {
        pixels,
        width,
        height,
        gap_ms,
        composition_mode: CompositionMode::Overwrite,
        background: 0,
    }
}

/// Helper: create a GraphicData for storing in KittyState.
fn make_graphic(pixels: Vec<u8>, width: usize, height: usize) -> GraphicData {
    GraphicData {
        id: GraphicId(0),
        width,
        height,
        color_type: ColorType::Rgba,
        pixels,
        is_opaque: false,
    }
}

// ── Create AnimationState from a single frame ────────────────

#[test]
fn create_animation_state() {
    let frame = make_frame(vec![255, 0, 0, 255], 1, 1, 100);
    let anim = AnimationState::new(frame);

    assert_eq!(anim.frames.len(), 1);
    assert_eq!(anim.current_frame, 0);
    assert_eq!(anim.state, PlaybackState::Loading);
    assert_eq!(anim.loops, 0);
    assert_eq!(anim.loops_done, 0);
    assert_eq!(anim.frames[0].pixels, vec![255, 0, 0, 255]);
    assert_eq!(anim.frames[0].gap_ms, 100);
    assert_eq!(anim.frames[0].width, 1);
    assert_eq!(anim.frames[0].height, 1);
}

// ── Add frames, verify frame count and data ──────────────────

#[test]
fn add_frames_to_animation() {
    let frame1 = make_frame(vec![255, 0, 0, 255], 1, 1, 100);
    let mut anim = AnimationState::new(frame1);

    let frame2 = make_frame(vec![0, 255, 0, 255], 1, 1, 200);
    anim.add_frame(frame2, None);

    let frame3 = make_frame(vec![0, 0, 255, 255], 1, 1, 150);
    anim.add_frame(frame3, None);

    assert_eq!(anim.frames.len(), 3);
    assert_eq!(anim.frames[0].pixels, vec![255, 0, 0, 255]);
    assert_eq!(anim.frames[1].pixels, vec![0, 255, 0, 255]);
    assert_eq!(anim.frames[2].pixels, vec![0, 0, 255, 255]);
    assert_eq!(anim.frames[0].gap_ms, 100);
    assert_eq!(anim.frames[1].gap_ms, 200);
    assert_eq!(anim.frames[2].gap_ms, 150);
}

// ── Edit an existing frame by index ──────────────────────────

#[test]
fn edit_frame_by_index() {
    let frame1 = make_frame(vec![255, 0, 0, 255], 1, 1, 100);
    let mut anim = AnimationState::new(frame1);

    let frame2 = make_frame(vec![0, 255, 0, 255], 1, 1, 200);
    anim.add_frame(frame2, None);

    // Edit frame 0: replace red with blue.
    let edit = make_frame(vec![0, 0, 255, 255], 1, 1, 300);
    anim.add_frame(edit, Some(0));

    assert_eq!(anim.frames.len(), 2); // Still 2 frames.
    assert_eq!(anim.frames[0].pixels, vec![0, 0, 255, 255]); // Replaced.
    assert_eq!(anim.frames[0].gap_ms, 300);
    assert_eq!(anim.frames[1].pixels, vec![0, 255, 0, 255]); // Unchanged.
}

#[test]
fn edit_frame_out_of_bounds_appends() {
    let frame1 = make_frame(vec![255, 0, 0, 255], 1, 1, 100);
    let mut anim = AnimationState::new(frame1);

    // Index 5 is out of bounds — should append instead.
    let frame_new = make_frame(vec![0, 255, 0, 255], 1, 1, 50);
    anim.add_frame(frame_new, Some(5));

    assert_eq!(anim.frames.len(), 2);
    assert_eq!(anim.frames[1].pixels, vec![0, 255, 0, 255]);
}

// ── blit in Overwrite mode ───────────────────────────────────

#[test]
fn blit_overwrite_mode() {
    // 2-pixel destination: red, green.
    let mut dst = vec![255, 0, 0, 255, 0, 255, 0, 255];
    // 2-pixel source: blue, white.
    let src = vec![0, 0, 255, 255, 255, 255, 255, 255];

    blit(&mut dst, &src, 2, 1, CompositionMode::Overwrite, 0);

    // Source completely overwrites destination.
    assert_eq!(dst, vec![0, 0, 255, 255, 255, 255, 255, 255]);
}

#[test]
fn blit_overwrite_replaces_even_transparent() {
    let mut dst = vec![255, 0, 0, 255]; // Opaque red.
    let src = vec![0, 0, 0, 0]; // Fully transparent.

    blit(&mut dst, &src, 1, 1, CompositionMode::Overwrite, 0);

    // Overwrite replaces dst with transparent.
    assert_eq!(dst, vec![0, 0, 0, 0]);
}

// ── blit in AlphaBlend mode ──────────────────────────────────

#[test]
fn blit_alpha_blend_50_percent() {
    // Opaque black destination.
    let mut dst = vec![0, 0, 0, 255];
    // 50% alpha white source (alpha = 128).
    let src = vec![255, 255, 255, 128];

    blit(&mut dst, &src, 1, 1, CompositionMode::AlphaBlend, 0);

    // sa=128, da=255, inv_sa=127
    // out_a = 128 + 255*127/255 = 128 + 127 = 255
    // out_r = (255*128 + 0*255*127/255) / 255 = 32640/255 = 128
    assert_eq!(dst[0], 128); // R
    assert_eq!(dst[1], 128); // G
    assert_eq!(dst[2], 128); // B
    assert_eq!(dst[3], 255); // A
}

#[test]
fn blit_alpha_blend_transparent_source_unchanged() {
    let mut dst = vec![255, 0, 0, 255]; // Opaque red.
    let src = vec![0, 255, 0, 0]; // Fully transparent green.

    blit(&mut dst, &src, 1, 1, CompositionMode::AlphaBlend, 0);

    // Transparent source should not change destination.
    assert_eq!(dst, vec![255, 0, 0, 255]);
}

#[test]
fn blit_alpha_blend_opaque_source_replaces() {
    let mut dst = vec![255, 0, 0, 255]; // Opaque red.
    let src = vec![0, 255, 0, 255]; // Opaque green.

    blit(&mut dst, &src, 1, 1, CompositionMode::AlphaBlend, 0);

    // Opaque source should fully replace destination.
    assert_eq!(dst, vec![0, 255, 0, 255]);
}

#[test]
fn blit_alpha_blend_onto_transparent_dst() {
    let mut dst = vec![0, 0, 0, 0]; // Fully transparent.
    let src = vec![200, 100, 50, 128]; // 50% alpha.

    blit(&mut dst, &src, 1, 1, CompositionMode::AlphaBlend, 0);

    // Source over transparent: out_a = 128 + 0*127/255 = 128
    // out_c = (sc * 128 + 0) / 128 = sc
    assert_eq!(dst[0], 200);
    assert_eq!(dst[1], 100);
    assert_eq!(dst[2], 50);
    assert_eq!(dst[3], 128);
}

// ── Background fill before blit ──────────────────────────────

#[test]
fn blit_background_fill_then_alpha_blend() {
    let mut dst = vec![0, 0, 0, 0]; // Transparent.
    let src = vec![0, 0, 0, 0]; // Transparent source.
    // Red background with full alpha: R=0xFF, G=0x00, B=0x00, A=0xFF → 0xFF0000FF.
    let background: u32 = 0xFF_00_00_FF;

    blit(&mut dst, &src, 1, 1, CompositionMode::AlphaBlend, background);

    // Background fills first, then transparent source is blended (no change).
    assert_eq!(dst, vec![255, 0, 0, 255]);
}

#[test]
fn blit_background_fill_then_overwrite() {
    let mut dst = vec![0, 0, 0, 0]; // Transparent.
    let src = vec![0, 0, 255, 255]; // Opaque blue.
    // Green background: 0x00FF00FF.
    let background: u32 = 0x00_FF_00_FF;

    blit(&mut dst, &src, 1, 1, CompositionMode::Overwrite, background);

    // Background fills first, then overwrite replaces with blue.
    assert_eq!(dst, vec![0, 0, 255, 255]);
}

#[test]
fn blit_background_fill_visible_with_partial_alpha_src() {
    let mut dst = vec![0, 0, 0, 0];
    // 50% alpha green source.
    let src = vec![0, 255, 0, 128];
    // Opaque red background: 0xFF0000FF.
    let background: u32 = 0xFF_00_00_FF;

    blit(&mut dst, &src, 1, 1, CompositionMode::AlphaBlend, background);

    // dst is filled with red first, then green at 50% is blended over.
    // sa=128, da=255, inv_sa=127
    // out_a = 128 + 255*127/255 = 255
    // R: (0*128 + 255*255*127/255) / 255 = (0 + 32385) / 255 = 127
    // G: (255*128 + 0*255*127/255) / 255 = 32640/255 = 128
    // B: (0*128 + 0*255*127/255) / 255 = 0
    assert_eq!(dst[0], 127); // R (background red bleeds through)
    assert_eq!(dst[1], 128); // G (source green)
    assert_eq!(dst[2], 0); // B
    assert_eq!(dst[3], 255); // A
}

// ── control_animation: start, stop, set loops ────────────────

#[test]
fn control_animation_start_stop_loading() {
    let mut state = KittyState::default();
    let frame = make_frame(vec![0; 4], 1, 1, 100);
    state.animation_states.insert(1, AnimationState::new(frame));

    // Start (s=2 → Running).
    control_animation(
        &mut state,
        &KittyCommand { image_id: 1, width: 2, ..Default::default() },
    );
    assert_eq!(state.get_animation(1).unwrap().state, PlaybackState::Running);

    // Stop (s=1 → Stopped).
    control_animation(
        &mut state,
        &KittyCommand { image_id: 1, width: 1, ..Default::default() },
    );
    assert_eq!(state.get_animation(1).unwrap().state, PlaybackState::Stopped);

    // Loading (s=3 → Loading).
    control_animation(
        &mut state,
        &KittyCommand { image_id: 1, width: 3, ..Default::default() },
    );
    assert_eq!(state.get_animation(1).unwrap().state, PlaybackState::Loading);
}

#[test]
fn control_animation_set_loops() {
    let mut state = KittyState::default();
    let frame = make_frame(vec![0; 4], 1, 1, 100);
    state.animation_states.insert(1, AnimationState::new(frame));

    // Set loops to 5 (v=5, parsed as cmd.height).
    control_animation(
        &mut state,
        &KittyCommand { image_id: 1, height: 5, ..Default::default() },
    );
    assert_eq!(state.get_animation(1).unwrap().loops, 5);
}

#[test]
fn control_animation_set_current_frame() {
    let mut state = KittyState::default();
    let frame1 = make_frame(vec![0; 4], 1, 1, 100);
    let frame2 = make_frame(vec![0; 4], 1, 1, 100);
    let mut anim = AnimationState::new(frame1);
    anim.add_frame(frame2, None);
    state.animation_states.insert(1, anim);

    // Set current frame to 2 (r=2, parsed as cmd.rows, 1-based).
    control_animation(
        &mut state,
        &KittyCommand { image_id: 1, rows: 2, ..Default::default() },
    );
    assert_eq!(state.get_animation(1).unwrap().current_frame, 1); // 0-based.
}

#[test]
fn control_animation_set_gap_for_current_frame() {
    let mut state = KittyState::default();
    let frame = make_frame(vec![0; 4], 1, 1, 100);
    state.animation_states.insert(1, AnimationState::new(frame));

    // Set gap_ms to 50 for current frame (z=50, parsed as cmd.z_index).
    control_animation(
        &mut state,
        &KittyCommand { image_id: 1, z_index: 50, ..Default::default() },
    );
    assert_eq!(state.get_animation(1).unwrap().frames[0].gap_ms, 50);
}

#[test]
fn control_animation_noop_for_missing_image() {
    let mut state = KittyState::default();
    // Should not panic or error for a non-existent image.
    control_animation(
        &mut state,
        &KittyCommand { image_id: 999, width: 2, ..Default::default() },
    );
}

// ── Frame promotion: KittyImage → AnimationState ─────────────

#[test]
fn frame_promotion_on_second_frame() {
    let mut state = KittyState::default();

    // Store a 2×1 RGBA image (red + green pixels).
    let original = make_graphic(
        vec![255, 0, 0, 255, 0, 255, 0, 255],
        2,
        1,
    );
    state.store_image(1, original);

    // No animation yet.
    assert!(state.get_animation(1).is_none());

    // Transmit a second frame (2×1: blue + white).
    let frame_pixels: Vec<u8> = vec![0, 0, 255, 255, 255, 255, 255, 255];
    let encoded = BASE64.encode(&frame_pixels);
    let cmd = KittyCommand {
        action: Action::TransmitFrame,
        format: Format::Rgba,
        width: 2,
        height: 1,
        image_id: 1,
        payload: encoded.into_bytes(),
        ..Default::default()
    };

    let result = load_animation_frame(&mut state, &cmd, decode(&cmd));
    assert!(result.is_ok(), "load_animation_frame failed: {result:?}");

    // Verify promotion to animation.
    let anim = state.get_animation(1).expect("animation should exist");
    assert_eq!(anim.frames.len(), 2);

    // Frame 0 = original image data.
    assert_eq!(anim.frames[0].pixels, vec![255, 0, 0, 255, 0, 255, 0, 255]);
    assert_eq!(anim.frames[0].width, 2);
    assert_eq!(anim.frames[0].height, 1);

    // Frame 1 = new frame data (blitted in overwrite mode onto transparent canvas).
    assert_eq!(anim.frames[1].pixels, vec![0, 0, 255, 255, 255, 255, 255, 255]);
}

#[test]
fn frame_promotion_preserves_rgb_as_rgba() {
    let mut state = KittyState::default();

    // Store a 1×1 RGB image (no alpha channel).
    let original = GraphicData {
        id: GraphicId(0),
        width: 1,
        height: 1,
        color_type: ColorType::Rgb,
        pixels: vec![128, 64, 32],
        is_opaque: true,
    };
    state.store_image(2, original);

    // Transmit a second frame in RGBA.
    let frame_pixels: Vec<u8> = vec![0, 0, 0, 255];
    let encoded = BASE64.encode(&frame_pixels);
    let cmd = KittyCommand {
        action: Action::TransmitFrame,
        format: Format::Rgba,
        width: 1,
        height: 1,
        image_id: 2,
        payload: encoded.into_bytes(),
        ..Default::default()
    };

    let result = load_animation_frame(&mut state, &cmd, decode(&cmd));
    assert!(result.is_ok());

    let anim = state.get_animation(2).unwrap();
    assert_eq!(anim.frames.len(), 2);
    // Frame 0: RGB promoted to RGBA with alpha=255.
    assert_eq!(anim.frames[0].pixels, vec![128, 64, 32, 255]);
}

#[test]
fn frame_edit_existing_via_frame_number() {
    let mut state = KittyState::default();

    // Store a 1×1 image and promote to animation.
    state.store_image(1, make_graphic(vec![255, 0, 0, 255], 1, 1));

    // Add a second frame to create animation.
    let frame2 = vec![0, 255, 0, 255];
    let encoded2 = BASE64.encode(&frame2);
    let cmd2 = KittyCommand {
        action: Action::TransmitFrame,
        format: Format::Rgba,
        width: 1,
        height: 1,
        image_id: 1,
        payload: encoded2.into_bytes(),
        ..Default::default()
    };
    load_animation_frame(&mut state, &cmd2, decode(&cmd2)).unwrap();
    assert_eq!(state.get_animation(1).unwrap().frames.len(), 2);

    // Edit frame 1 (1-based) with blue.
    let edit_pixels = vec![0, 0, 255, 255];
    let encoded_edit = BASE64.encode(&edit_pixels);
    let cmd_edit = KittyCommand {
        action: Action::TransmitFrame,
        format: Format::Rgba,
        width: 1,
        height: 1,
        image_id: 1,
        rows: 1, // r=1 → edit frame index 1 (1-based).
        payload: encoded_edit.into_bytes(),
        ..Default::default()
    };

    load_animation_frame(&mut state, &cmd_edit, decode(&cmd_edit)).unwrap();

    let anim = state.get_animation(1).unwrap();
    assert_eq!(anim.frames.len(), 2); // Still 2 frames.
    // Frame 0 was edited: now blue instead of red.
    assert_eq!(anim.frames[0].pixels, vec![0, 0, 255, 255]);
    // Frame 1 unchanged.
    assert_eq!(anim.frames[1].pixels, vec![0, 255, 0, 255]);
}

#[test]
fn load_animation_frame_missing_image() {
    let mut state = KittyState::default();

    let frame_pixels = vec![0, 0, 0, 255];
    let encoded = BASE64.encode(&frame_pixels);
    let cmd = KittyCommand {
        action: Action::TransmitFrame,
        format: Format::Rgba,
        width: 1,
        height: 1,
        image_id: 999, // Non-existent.
        payload: encoded.into_bytes(),
        ..Default::default()
    };

    let result = load_animation_frame(&mut state, &cmd, decode(&cmd));
    assert!(result.is_err());
    assert!(result.unwrap_err().contains("not found"));
}

// ── compose_frames: copy pixels between frames ───────────────

#[test]
fn compose_frames_copies_pixels() {
    let mut state = KittyState::default();

    // Create animation with 2 frames: red+green, and all-transparent.
    let frame1 = make_frame(vec![255, 0, 0, 255, 0, 255, 0, 255], 2, 1, 100);
    let frame2 = make_frame(vec![0, 0, 0, 0, 0, 0, 0, 0], 2, 1, 100);
    let mut anim = AnimationState::new(frame1);
    anim.add_frame(frame2, None);
    state.animation_states.insert(1, anim);

    // Compose: copy frame 1 → frame 2 (overwrite mode).
    let cmd = KittyCommand {
        image_id: 1,
        columns: 1, // c= source frame (1-based).
        rows: 2,    // r= target frame (1-based).
        ..Default::default()
    };

    let result = compose_frames(&mut state, &cmd);
    assert!(result.is_ok());

    let anim = state.get_animation(1).unwrap();
    // Target frame should now have source frame's pixels.
    assert_eq!(anim.frames[1].pixels, vec![255, 0, 0, 255, 0, 255, 0, 255]);
    // Source frame unchanged.
    assert_eq!(anim.frames[0].pixels, vec![255, 0, 0, 255, 0, 255, 0, 255]);
}

#[test]
fn compose_frames_alpha_blend() {
    let mut state = KittyState::default();

    // Frame 1: opaque black.
    let frame1 = make_frame(vec![0, 0, 0, 255], 1, 1, 100);
    // Frame 2: 50% white.
    let frame2 = make_frame(vec![255, 255, 255, 128], 1, 1, 100);
    let mut anim = AnimationState::new(frame1);
    anim.add_frame(frame2, None);
    state.animation_states.insert(1, anim);

    // Compose frame 2 → frame 1 with alpha blend.
    let cmd = KittyCommand {
        image_id: 1,
        columns: 2,   // c= source (50% white).
        rows: 1,       // r= target (opaque black).
        offset_x: 1,  // X=1 → alpha blend.
        ..Default::default()
    };

    compose_frames(&mut state, &cmd).unwrap();

    let anim = state.get_animation(1).unwrap();
    // 50% white over opaque black: expect ~128 gray.
    assert_eq!(anim.frames[0].pixels[0], 128); // R
    assert_eq!(anim.frames[0].pixels[1], 128); // G
    assert_eq!(anim.frames[0].pixels[2], 128); // B
    assert_eq!(anim.frames[0].pixels[3], 255); // A
}

#[test]
fn compose_frames_invalid_source() {
    let mut state = KittyState::default();
    let frame = make_frame(vec![0; 4], 1, 1, 100);
    state.animation_states.insert(1, AnimationState::new(frame));

    let cmd = KittyCommand {
        image_id: 1,
        columns: 5, // Source frame 5 doesn't exist.
        rows: 1,
        ..Default::default()
    };

    let result = compose_frames(&mut state, &cmd);
    assert!(result.is_err());
    assert!(result.unwrap_err().contains("out of range"));
}

#[test]
fn compose_frames_no_animation() {
    let mut state = KittyState::default();

    let cmd = KittyCommand {
        image_id: 42,
        columns: 1,
        rows: 1,
        ..Default::default()
    };

    let result = compose_frames(&mut state, &cmd);
    assert!(result.is_err());
    assert!(result.unwrap_err().contains("no animation"));
}

// ── Helpers / edge cases ────────────────────────────────────────

#[test]
fn background_to_rgba_unpacks_correctly() {
    let bg = background_to_rgba(0xFF_80_40_C0);
    assert_eq!(bg, [0xFF, 0x80, 0x40, 0xC0]);
}

#[test]
fn ensure_rgba_passthrough() {
    let rgba = vec![1, 2, 3, 4, 5, 6, 7, 8];
    let result = ensure_rgba(&rgba, ColorType::Rgba);
    assert_eq!(result, rgba);
}

#[test]
fn ensure_rgba_from_rgb() {
    let rgb = vec![10, 20, 30, 40, 50, 60];
    let result = ensure_rgba(&rgb, ColorType::Rgb);
    assert_eq!(result, vec![10, 20, 30, 255, 40, 50, 60, 255]);
}

#[test]
fn place_on_canvas_with_offset() {
    // 3×2 canvas, place a 1×1 pixel at (1, 1).
    let src = vec![255, 0, 0, 255]; // Single red pixel.
    let canvas = place_on_canvas(3, 2, &src, 1, 1, 1, 1);

    // Expected: 3×2 canvas, all transparent except (1,1) which is red.
    assert_eq!(canvas.len(), 3 * 2 * 4); // 24 bytes.
    // Row 0: 3 transparent pixels.
    assert_eq!(&canvas[0..12], &[0; 12]);
    // Row 1: transparent, red, transparent.
    assert_eq!(&canvas[12..16], &[0, 0, 0, 0]); // (0,1)
    assert_eq!(&canvas[16..20], &[255, 0, 0, 255]); // (1,1)
    assert_eq!(&canvas[20..24], &[0, 0, 0, 0]); // (2,1)
}

// ── Blending ────────────────────────────────────────────────────────

#[test]
fn blend_of_translucent_pixels() {
    // sa=100, da=200, inv_sa=155: out_a = 100 + 200*155/255 = 221.
    // R: (10*100 + 250*200*155/255) / 221 = (1000 + 30392) / 221 = 142
    // B: (255*100 + 100*200*155/255) / 221 = (25500 + 12156) / 221 = 170
    assert_eq!(alpha_blend_pixel([250, 0, 100, 200], [10, 0, 255, 100]), [142, 0, 170, 221]);
    // out_a = 123 + 124*132/255 = 187; (201*123 + 17*124*132/255) / 187 = 138.
    assert_eq!(alpha_blend_pixel([17, 17, 17, 124], [201, 201, 201, 123])[0], 138);
}

#[test]
fn blend_is_held_to_the_weighted_mean() {
    // out_a = 1 + 1*254/255 = 1, so the quotient is 100 + 199 = 299. The mean is
    // (100*255 + 200*254) / 509 = 149.9.
    assert_eq!(alpha_blend_pixel([200, 200, 200, 1], [100, 100, 100, 1]), [150, 150, 150, 1]);
    // Below it the quotient stands: out_a = 10 + 10*245/255 = 19 and
    // (0*10 + 9*10*245/255) / 19 = 86 / 19 = 4, where the mean is 4.4.
    assert_eq!(alpha_blend_pixel([9, 9, 9, 10], [0, 0, 0, 10])[0], 4);
}

#[test]
fn blend_is_the_weighted_mean_rounded() {
    for sa in 1u8..=254 {
        for da in (0u8..=255).step_by(17) {
            let out = alpha_blend_pixel([240, 3, 100, da], [10, 255, 77, sa]);
            let (sw, dw) = (sa as i64 * 255, da as i64 * (255 - sa as i64));
            for (c, (s, d)) in [(10i64, 240i64), (255, 3), (77, 100)].into_iter().enumerate() {
                let error = out[c] as i64 * (sw + dw) - (s * sw + d * dw);
                assert!(error.abs() < sw + dw);
            }
        }
    }
}

#[test]
fn blend_of_equal_colors_keeps_the_color() {
    // White over white stays white, however transparent.
    assert_eq!(alpha_blend_pixel([255, 255, 255, 2], [255, 255, 255, 1]), [255, 255, 255, 2]);
    assert_eq!(alpha_blend_pixel([255, 0, 77, 1], [255, 0, 77, 1]), [255, 0, 77, 1]);
}

#[test]
fn blend_lies_between_the_colors() {
    for sa in [1, 2, 100, 254] {
        for da in [0, 1, 3, 100, 255] {
            let out = alpha_blend_pixel([10, 200, 50, da], [20, 100, 50, sa]);
            assert!((10..=20).contains(&out[0]));
            assert!((100..=200).contains(&out[1]));
            assert_eq!(out[2], 50);
        }
    }
}

#[test]
fn blend_over_opaque_lies_between() {
    let out = alpha_blend_pixel([10, 200, 77, 255], [110, 100, 77, 51]);
    // (110*51 + 10*204) / 255 = 30; (100*51 + 200*204) / 255 = 180; 77 stays.
    assert_eq!(out, [30, 180, 77, 255]);
}

#[test]
fn blit_leaves_what_lies_behind_the_frame() {
    let mut dst = vec![1u8; 12];
    let src = vec![9u8; 12];
    blit(&mut dst, &src, 1, 1, CompositionMode::Overwrite, 0x05_05_05_05);
    assert_eq!(dst, vec![9, 9, 9, 9, 1, 1, 1, 1, 1, 1, 1, 1]);
}

#[test]
fn blit_with_short_source_fills_the_rest_with_background() {
    let mut dst = vec![0u8; 10];
    blit(&mut dst, &[7, 7, 7, 7, 8], 3, 1, CompositionMode::Overwrite, 0x01_02_03_04);
    // One whole source pixel, one background pixel, two bytes of no pixel.
    assert_eq!(dst, vec![7, 7, 7, 7, 1, 2, 3, 4, 0, 0]);
}

#[test]
fn background_canvas_is_filled() {
    assert_eq!(make_background_canvas(2, 1, 0x01_02_03_04), vec![1, 2, 3, 4, 1, 2, 3, 4]);
    assert_eq!(make_background_canvas(1, 2, 0), vec![0; 8]);
    assert!(make_background_canvas(0, 5, 9).is_empty());
}

#[test]
fn ensure_rgba_drops_a_partial_pixel() {
    assert_eq!(ensure_rgba(&[1, 2, 3, 4, 5], ColorType::Rgb), vec![1, 2, 3, 255]);
}

#[test]
fn place_on_canvas_clips_at_the_edges() {
    // 2×2 source at (1, 1) of a 2×2 canvas: only its first pixel fits.
    let src: Vec<u8> = (1..=16).collect();
    let canvas = place_on_canvas(2, 2, &src, 2, 2, 1, 1);
    assert_eq!(canvas, vec![0, 0, 0, 0, 0, 0, 0, 0, 0, 0, 0, 0, 1, 2, 3, 4]);
    // Beyond the canvas nothing is left of it.
    assert_eq!(place_on_canvas(2, 2, &src, 2, 2, 2, 0), vec![0; 16]);
    assert_eq!(place_on_canvas(2, 2, &src, 2, 2, 0, usize::MAX), vec![0; 16]);
}

#[test]
fn place_on_canvas_leaves_out_cut_rows() {
    // The second source row has only one of its two pixels.
    let src = vec![5u8; 12];
    let canvas = place_on_canvas(2, 2, &src, 2, 2, 0, 0);
    assert_eq!(canvas, vec![5, 5, 5, 5, 5, 5, 5, 5, 0, 0, 0, 0, 0, 0, 0, 0]);
    // A source that claims more rows than a number can count has none of them.
    assert_eq!(place_on_canvas(1, 1, &[], usize::MAX, usize::MAX, 0, 0), vec![0; 4]);
}

// ── Loading frames ──────────────────────────────────────────────────

fn two_by_one() -> KittyState {
    let mut state = KittyState::default();
    state.store_image(1, make_graphic(vec![1, 1, 1, 255, 2, 2, 2, 255], 2, 1));
    state
}

fn frame_cmd() -> KittyCommand {
    KittyCommand { action: Action::TransmitFrame, image_id: 1, ..Default::default() }
}

#[test]
fn frame_takes_its_parameters_from_the_command() {
    let mut state = two_by_one();
    let cmd = KittyCommand { z_index: 40, offset_x: 1, offset_y: 0x0A_0B_0C_FF, ..frame_cmd() };
    let data = make_graphic(vec![0, 0, 0, 0, 9, 9, 9, 255], 2, 1);
    load_animation_frame(&mut state, &cmd, Ok(data)).unwrap();
    let anim = state.get_animation(1).unwrap();
    let frame = &anim.frames[1];
    assert_eq!(frame.gap_ms, 40);
    assert_eq!(frame.composition_mode, CompositionMode::AlphaBlend);
    assert_eq!(frame.background, 0x0A_0B_0C_FF);
    // Transparent pixels show the background, opaque ones replace it.
    assert_eq!(frame.pixels, vec![10, 11, 12, 255, 9, 9, 9, 255]);
    // The image itself stays as it is.
    assert_eq!(state.get_image(1).unwrap().data.pixels, vec![1, 1, 1, 255, 2, 2, 2, 255]);
}

#[test]
fn frame_gap_is_never_negative() {
    let mut state = two_by_one();
    let cmd = KittyCommand { z_index: -5, ..frame_cmd() };
    load_animation_frame(&mut state, &cmd, Ok(make_graphic(vec![0; 8], 2, 1))).unwrap();
    assert_eq!(state.get_animation(1).unwrap().frames[1].gap_ms, 0);
}

#[test]
fn frame_part_goes_onto_a_base_frame() {
    let mut state = two_by_one();
    // One pixel at x=1 over a copy of frame 1, blended: the other pixel stays.
    let cmd = KittyCommand { src_x: 1, columns: 1, offset_x: 1, ..frame_cmd() };
    load_animation_frame(&mut state, &cmd, Ok(make_graphic(vec![7, 7, 7, 255], 1, 1))).unwrap();
    let anim = state.get_animation(1).unwrap();
    assert_eq!(anim.frames[0].pixels, vec![1, 1, 1, 255, 2, 2, 2, 255]);
    assert_eq!(anim.frames[1].pixels, vec![1, 1, 1, 255, 7, 7, 7, 255]);
    assert_eq!((anim.frames[1].width, anim.frames[1].height), (2, 1));
}

#[test]
fn frame_part_in_overwrite_mode_keeps_the_base_frame() {
    let mut state = KittyState::default();
    state.store_image(1, make_graphic(vec![255, 0, 0, 255, 0, 255, 0, 255], 2, 1));
    let cmd = KittyCommand {
        action: Action::TransmitFrame,
        format: Format::Rgba,
        width: 1,
        height: 1,
        image_id: 1,
        columns: 1,
        src_x: 1,
        payload: BASE64.encode([0, 0, 255, 255]).into_bytes(),
        ..Default::default()
    };
    load_animation_frame(&mut state, &cmd, decode(&cmd)).unwrap();
    let anim = state.get_animation(1).unwrap();
    assert_eq!(anim.frames[1].pixels, vec![255, 0, 0, 255, 0, 0, 255, 255]);
    assert_eq!(anim.frames[0].pixels, vec![255, 0, 0, 255, 0, 255, 0, 255]);
}

#[test]
fn transparent_pixels_of_a_part_overwrite_too() {
    let mut state = two_by_one();
    let cmd = KittyCommand { src_x: 1, columns: 1, ..frame_cmd() };
    load_animation_frame(&mut state, &cmd, Ok(make_graphic(vec![0; 4], 1, 1))).unwrap();
    assert_eq!(state.get_animation(1).unwrap().frames[1].pixels, vec![1, 1, 1, 255, 0, 0, 0, 0]);
}

#[test]
fn editing_a_part_keeps_the_rest_of_the_frame() {
    let mut state = two_by_one();
    let cmd = KittyCommand { rows: 1, ..frame_cmd() };
    load_animation_frame(&mut state, &cmd, Ok(make_graphic(vec![9; 4], 1, 1))).unwrap();
    let anim = state.get_animation(1).unwrap();
    assert_eq!(anim.frames.len(), 1);
    assert_eq!(anim.frames[0].pixels, vec![9, 9, 9, 9, 2, 2, 2, 255]);
}

#[test]
fn overlay_clips_and_leaves_the_rest() {
    // 2×2 source at (1, 1) of a 2×2 canvas: only its first pixel falls on it.
    let src: Vec<u8> = (1..=16).collect();
    let mut canvas = vec![7u8; 16];
    overlay(&mut canvas, 2, 2, &src, 2, 2, 1, 1, CompositionMode::Overwrite);
    let mut expected = vec![7u8; 12];
    expected.extend_from_slice(&[1, 2, 3, 4]);
    assert_eq!(canvas, expected);
    overlay(&mut canvas, 2, 2, &src, 2, 2, 2, 0, CompositionMode::AlphaBlend);
    assert_eq!(canvas, expected);
}

#[test]
fn missing_base_frame_counts_as_background() {
    let mut state = two_by_one();
    let cmd = KittyCommand { columns: 9, offset_x: 1, offset_y: 0x01_01_01_FF, ..frame_cmd() };
    load_animation_frame(&mut state, &cmd, Ok(make_graphic(vec![0; 8], 2, 1))).unwrap();
    assert_eq!(
        state.get_animation(1).unwrap().frames[1].pixels,
        vec![1, 1, 1, 255, 1, 1, 1, 255]
    );
}

#[test]
fn editing_blends_onto_the_frame_itself() {
    let mut state = two_by_one();
    load_animation_frame(&mut state, &frame_cmd(), Ok(make_graphic(vec![3; 8], 2, 1))).unwrap();
    let cmd = KittyCommand { rows: 1, offset_x: 1, ..frame_cmd() };
    let data = make_graphic(vec![0, 0, 0, 0, 8, 8, 8, 255], 2, 1);
    load_animation_frame(&mut state, &cmd, Ok(data)).unwrap();
    let anim = state.get_animation(1).unwrap();
    assert_eq!(anim.frames.len(), 2);
    assert_eq!(anim.frames[0].pixels, vec![1, 1, 1, 255, 8, 8, 8, 255]);
    assert_eq!(anim.frames[1].pixels, vec![3; 8]);
}

#[test]
fn frame_number_past_the_end_appends() {
    let mut state = two_by_one();
    let cmd = KittyCommand { rows: 7, ..frame_cmd() };
    load_animation_frame(&mut state, &cmd, Ok(make_graphic(vec![3; 8], 2, 1))).unwrap();
    assert_eq!(state.get_animation(1).unwrap().frames.len(), 2);
}

#[test]
fn frames_of_any_size_cover_the_canvas() {
    let mut state = two_by_one();
    for (w, h, x, y) in [(1, 1, 0, 0), (5, 5, 0, 0), (2, 1, 1, 0), (2, 1, 9, 9), (0, 0, 0, 0)] {
        let cmd = KittyCommand { src_x: x, src_y: y, ..frame_cmd() };
        load_animation_frame(&mut state, &cmd, Ok(make_graphic(vec![4; w * h * 4], w, h))).unwrap();
    }
    let anim = state.get_animation(1).unwrap();
    assert_eq!(anim.frames.len(), 6);
    for frame in &anim.frames {
        assert_eq!((frame.width, frame.height), (2, 1));
        assert_eq!(frame.pixels.len(), 8);
    }
}

#[test]
fn frame_errors_change_nothing() {
    let mut state = two_by_one();
    let e = load_animation_frame(&mut state, &frame_cmd(), Err("bad data".to_string()));
    assert_eq!(e.unwrap_err(), "bad data");
    let cmd = KittyCommand { image_id: 0, ..frame_cmd() };
    let e = load_animation_frame(&mut state, &cmd, Ok(make_graphic(vec![], 0, 0)));
    assert_eq!(e.unwrap_err(), "image_id is required for animation frames");
    let cmd = KittyCommand { image_id: 10203, ..frame_cmd() };
    let e = load_animation_frame(&mut state, &cmd, Ok(make_graphic(vec![], 0, 0)));
    assert_eq!(e.unwrap_err(), "image id=10203 not found");
    assert!(state.animation_states.is_empty());
}

#[test]
fn frames_need_a_canvas() {
    let mut state = two_by_one();
    let ok = Ok(make_graphic(vec![0; 8], 2, 1));
    assert!(can_load_frame(&state, &frame_cmd(), &ok));
    state.store_image(1, make_graphic(vec![], usize::MAX, 2));
    assert!(!can_load_frame(&state, &frame_cmd(), &ok));
    // Without pixels there is nothing to load.
    assert!(can_load_frame(&state, &frame_cmd(), &Err("bad data".to_string())));
    let mut anim = AnimationState::new(make_frame(vec![0; 4], 1, 1, 0));
    anim.frames.clear();
    state.animation_states.insert(1, anim);
    assert!(!can_load_frame(&state, &frame_cmd(), &ok));
}

// ── Composing frames ────────────────────────────────────────────────

#[test]
fn compose_errors_tell_what_is_wrong() {
    let mut state = KittyState::default();
    state.animation_states.insert(3, AnimationState::new(make_frame(vec![0; 4], 1, 1, 0)));
    let mut e = |image_id: u32, columns: u32, rows: u32| {
        let cmd = KittyCommand { image_id, columns, rows, ..Default::default() };
        compose_frames(&mut state, &cmd).unwrap_err()
    };
    assert_eq!(e(0, 1, 1), "image_id is required for compose");
    assert_eq!(e(3, 0, 1), "source frame must be > 0");
    assert_eq!(e(3, 1, 0), "target frame must be > 0");
    assert_eq!(e(42, 1, 1), "no animation for image id=42");
    assert_eq!(e(3, 5, 1), "source frame 5 out of range (have 1 frames)");
    assert_eq!(e(3, 1, 12), "target frame 12 out of range (have 1 frames)");
}

#[test]
fn composing_touches_the_target_only() {
    let mut state = KittyState::default();
    let mut anim = AnimationState::new(make_frame(vec![1, 1, 1, 255], 1, 1, 10));
    anim.add_frame(make_frame(vec![2, 2, 2, 255], 1, 1, 20), None);
    anim.add_frame(make_frame(vec![3, 3, 3, 255], 1, 1, 30), None);
    state.animation_states.insert(1, anim);
    let cmd = KittyCommand { image_id: 1, columns: 3, rows: 1, ..Default::default() };
    assert!(can_compose(&state, &cmd));
    compose_frames(&mut state, &cmd).unwrap();
    let anim = state.get_animation(1).unwrap();
    assert_eq!(anim.frames[0].pixels, vec![3, 3, 3, 255]);
    assert_eq!(anim.frames[0].gap_ms, 10);
    assert_eq!(anim.frames[1].pixels, vec![2, 2, 2, 255]);
    assert_eq!(anim.frames[2].pixels, vec![3, 3, 3, 255]);
}

#[test]
fn composing_needs_a_countable_source() {
    let mut state = KittyState::default();
    let anim = AnimationState::new(make_frame(vec![], usize::MAX, 3, 0));
    state.animation_states.insert(1, anim);
    let cmd = KittyCommand { image_id: 1, columns: 1, rows: 1, ..Default::default() };
    assert!(!can_compose(&state, &cmd));
    assert!(can_compose(&state, &KittyCommand { columns: 2, ..cmd }));
}

// ── Control ─────────────────────────────────────────────────────────

#[test]
fn control_changes_only_what_it_names() {
    let mut state = KittyState::default();
    let mut anim = AnimationState::new(make_frame(vec![1; 4], 1, 1, 10));
    anim.add_frame(make_frame(vec![2; 4], 1, 1, 20), None);
    state.animation_states.insert(1, anim);
    // r=2 first, then z= for that frame.
    let cmd = KittyCommand { image_id: 1, rows: 2, z_index: 70, ..Default::default() };
    control_animation(&mut state, &cmd);
    let anim = state.get_animation(1).unwrap();
    assert_eq!(anim.current_frame, 1);
    assert_eq!(anim.frames[0].gap_ms, 10);
    assert_eq!(anim.frames[1].gap_ms, 70);
    assert_eq!(anim.frames[1].pixels, vec![2; 4]);
    assert_eq!(anim.state, PlaybackState::Loading);
    assert_eq!(anim.loops, 0);

    // Out of range, unknown or absent values change nothing.
    let cmd = KittyCommand { image_id: 1, rows: 9, width: 4, z_index: -1, ..Default::default() };
    control_animation(&mut state, &cmd);
    let anim = state.get_animation(1).unwrap();
    assert_eq!(anim.current_frame, 1);
    assert_eq!(anim.frames[1].gap_ms, 70);
    assert_eq!(anim.state, PlaybackState::Loading);
}

#[test]
fn control_without_image_id_is_noop() {
    let mut state = KittyState::default();
    state.animation_states.insert(0, AnimationState::new(make_frame(vec![1; 4], 1, 1, 10)));
    control_animation(&mut state, &KittyCommand { width: 2, ..Default::default() });
    assert_eq!(state.get_animation(0).unwrap().state, PlaybackState::Loading);
}
