//! Commands from their arrival to their reply.
use base64::Engine;
use kitty_graphics::graphics::{ColorType, GraphicData, GraphicId};
use kitty_graphics::kitty::state::STORAGE_QUOTA;
use kitty_graphics::kitty::{
    append_chunk, can_dispatch, can_dispatch_decoded, decode_chunk_payload, dispatch_command,
    dispatch_decoded, finalize_chunked, merge_chunk, KittyLoadingImage, KittyPlacement, KittyState,
    Outcome, Reply, Step,
};
use kitty_graphics::kitty_parser::{Action, DeleteTarget, Format, KittyCommand, Medium, Quiet};
use kitty_graphics::term::{Cursor, Graphics, Grid, Point, Term};

#[test]
fn finalize_chunked_merges_decoded_bytes() {
    // KittyLoadingImage holds already-decoded bytes (not base64).
    let loading = KittyLoadingImage {
        command: KittyCommand {
            action: Action::TransmitAndDisplay,
            format: Format::Png,
            image_id: 5,
            ..Default::default()
        },
        data: vec![0xDE, 0xAD],
    };

    // The final chunk's payload is still base64 — finalize_chunked
    // decodes it via decode_chunk_payload before appending.
    let final_bytes = vec![0xBE, 0xEF];
    let final_b64 = base64::engine::general_purpose::STANDARD.encode(&final_bytes);
    let final_cmd = KittyCommand {
        payload: final_b64.into_bytes(),
        ..Default::default()
    };

    let merged = finalize_chunked(loading, final_cmd);
    assert_eq!(merged.action, Action::TransmitAndDisplay);
    assert_eq!(merged.format, Format::Png);
    assert_eq!(merged.image_id, 5);
    assert_eq!(merged.payload, vec![0xDE, 0xAD, 0xBE, 0xEF]);
    assert!(!merged.more_chunks);
    assert!(merged.pre_decoded);
}

// ── Helpers ─────────────────────────────────────────────────────────

fn new_term() -> Term {
    Term {
        graphics: Graphics { kitty_state: KittyState::default(), cell_width: 1, cell_height: 1 },
        grid: Grid {
            cursor: Cursor { point: Point { line: 2, column: 5 }, bookmark: false },
            bookmarks: vec![None; 10],
        },
    }
}

fn pixel(value: u8) -> GraphicData {
    GraphicData {
        id: GraphicId(0),
        width: 1,
        height: 1,
        color_type: ColorType::Rgba,
        pixels: vec![value; 4],
        is_opaque: false,
    }
}

fn finish(step: Step) -> Outcome {
    match step {
        Step::Finish(outcome) => outcome,
        Step::Decode(cmd) => panic!("not finished: {cmd:?}"),
    }
}

fn to_decode(step: Step) -> KittyCommand {
    match step {
        Step::Decode(cmd) => cmd,
        Step::Finish(outcome) => panic!("finished: {outcome:?}"),
    }
}

fn dispatch(term: &mut Term, cmd: KittyCommand) -> Step {
    assert!(can_dispatch(term, &cmd));
    dispatch_command(term, cmd)
}

/// Runs a command whose payload decodes to `decoded`.
fn run(term: &mut Term, cmd: KittyCommand, decoded: Result<GraphicData, String>) -> Outcome {
    let cmd = to_decode(dispatch(term, cmd));
    assert!(can_dispatch_decoded(term, &cmd, &decoded));
    dispatch_decoded(term, &cmd, decoded)
}

/// The quiet mode, image ID and result of a sent reply.
fn sent(outcome: &Outcome) -> (Quiet, u32, Result<(), String>) {
    match &outcome.reply {
        Some(Reply::Send { quiet, image_id, result }) => (*quiet, *image_id, result.clone()),
        other => panic!("not sent: {other:?}"),
    }
}

// ── Chunks ──────────────────────────────────────────────────────────

#[test]
fn chunk_payloads_are_decoded() {
    assert_eq!(decode_chunk_payload(Medium::Direct, b"3q0="), vec![0xDE, 0xAD]);
    // Padding may be left out.
    assert_eq!(decode_chunk_payload(Medium::Direct, b"3q0"), vec![0xDE, 0xAD]);
    assert!(decode_chunk_payload(Medium::Direct, b"").is_empty());
    // What is no base64 gives nothing.
    assert!(decode_chunk_payload(Medium::Direct, b"!!!!").is_empty());
    assert_eq!(decode_chunk_payload(Medium::File, b"/tmp/x"), b"/tmp/x");
    assert_eq!(decode_chunk_payload(Medium::TempFile, b"!!"), b"!!");
    assert_eq!(decode_chunk_payload(Medium::SharedMemory, b"3q0="), b"3q0=");
}

#[test]
fn decoded_chunks_are_appended() {
    let mut state = KittyState::default();
    let first = KittyCommand { image_id: 4, ..Default::default() };
    append_chunk(&mut state, first, vec![1, 2]);
    append_chunk(&mut state, KittyCommand { more_chunks: true, ..Default::default() }, vec![3]);
    let loading = state.loading.take().unwrap();
    assert_eq!(loading.command.image_id, 4);
    assert_eq!(loading.data, vec![1, 2, 3]);
    let cmd = merge_chunk(loading, vec![4, 5]);
    assert_eq!(cmd.image_id, 4);
    assert_eq!(cmd.payload, vec![1, 2, 3, 4, 5]);
    assert!(cmd.pre_decoded);
}

#[test]
fn chunked_transfer_becomes_one_command() {
    let mut term = new_term();
    let first = KittyCommand {
        action: Action::Transmit,
        image_id: 9,
        width: 3,
        more_chunks: true,
        payload: b"AQI=".to_vec(),
        ..Default::default()
    };
    let outcome = finish(dispatch(&mut term, first));
    assert!(outcome.insertion.is_none() && outcome.reply.is_none());
    let second =
        KittyCommand { more_chunks: true, payload: b"Aw".to_vec(), ..Default::default() };
    finish(dispatch(&mut term, second));
    assert_eq!(term.graphics.kitty_state.loading.as_ref().unwrap().data, vec![1, 2, 3]);

    let last = KittyCommand { payload: b"BAU=".to_vec(), ..Default::default() };
    let cmd = to_decode(dispatch(&mut term, last));
    assert_eq!(cmd.action, Action::Transmit);
    assert_eq!(cmd.image_id, 9);
    assert_eq!(cmd.width, 3);
    assert_eq!(cmd.payload, vec![1, 2, 3, 4, 5]);
    assert!(cmd.pre_decoded);
    assert!(!cmd.more_chunks);
    assert!(term.graphics.kitty_state.loading.is_none());
}

#[test]
fn new_transmission_cancels_the_one_under_way() {
    let mut term = new_term();
    let start = |image_id: u32, payload: &[u8]| KittyCommand {
        image_id,
        more_chunks: true,
        payload: payload.to_vec(),
        ..Default::default()
    };
    finish(dispatch(&mut term, start(1, b"AQI=")));
    finish(dispatch(&mut term, start(2, b"Aw==")));
    let loading = term.graphics.kitty_state.loading.as_ref().unwrap();
    assert_eq!(loading.command.image_id, 2);
    assert_eq!(loading.data, vec![3]);
    // A chunk with only `m=` and `q=` goes on with the transfer.
    let cmd = KittyCommand { quiet: Quiet::SuppressAll, ..start(0, b"BA==") };
    finish(dispatch(&mut term, cmd));
    assert_eq!(term.graphics.kitty_state.loading.as_ref().unwrap().data, vec![3, 4]);
}

#[test]
fn chunks_that_repeat_keys_go_on_with_the_transfer() {
    let mut term = new_term();
    let chunk = |image_id: u32, width: u32, payload: &[u8]| KittyCommand {
        action: Action::TransmitAndDisplay,
        format: Format::Rgb,
        image_id,
        width,
        more_chunks: true,
        payload: payload.to_vec(),
        ..Default::default()
    };
    finish(dispatch(&mut term, chunk(1, 4, b"AQI=")));
    // All keys again, then only some of them.
    finish(dispatch(&mut term, chunk(1, 4, b"Aw==")));
    finish(dispatch(&mut term, chunk(1, 0, b"BA==")));
    let bare = KittyCommand { image_id: 1, ..chunk(0, 0, b"BQ==") };
    finish(dispatch(&mut term, KittyCommand { action: Action::Transmit, ..bare }));
    let loading = term.graphics.kitty_state.loading.as_ref().unwrap();
    assert_eq!(loading.command.width, 4);
    assert_eq!(loading.data, vec![1, 2, 3, 4, 5]);
    // A key with another value is that of another transmission.
    finish(dispatch(&mut term, chunk(1, 5, b"Bg==")));
    let loading = term.graphics.kitty_state.loading.as_ref().unwrap();
    assert_eq!(loading.command.width, 5);
    assert_eq!(loading.data, vec![6]);
    // As is another action that transmits, but no other one.
    let cmd = KittyCommand { action: Action::TransmitFrame, ..chunk(1, 5, b"Bw==") };
    finish(dispatch(&mut term, cmd));
    let cmd = KittyCommand { action: Action::Display, ..chunk(2, 0, b"CA==") };
    finish(dispatch(&mut term, cmd));
    let loading = term.graphics.kitty_state.loading.as_ref().unwrap();
    assert_eq!(loading.command.action, Action::TransmitFrame);
    assert_eq!(loading.data, vec![7, 8]);
}

#[test]
fn chunks_of_a_frame_carry_its_action() {
    let mut term = new_term();
    let chunk = |image_id: u32, payload: &[u8]| KittyCommand {
        action: Action::TransmitFrame,
        image_id,
        more_chunks: true,
        payload: payload.to_vec(),
        ..Default::default()
    };
    finish(dispatch(&mut term, chunk(1, b"AQI=")));
    finish(dispatch(&mut term, chunk(0, b"Aw==")));
    let loading = term.graphics.kitty_state.loading.as_ref().unwrap();
    assert_eq!(loading.command.image_id, 1);
    assert_eq!(loading.data, vec![1, 2, 3]);
}

// ── Transmission and display ────────────────────────────────────────

#[test]
fn transmitted_image_is_displayed_by_id() {
    let mut term = new_term();
    let cmd = KittyCommand { image_id: 3, quiet: Quiet::SuppressOk, ..Default::default() };
    let outcome = run(&mut term, cmd, Ok(pixel(7)));
    assert!(outcome.insertion.is_none());
    assert_eq!(sent(&outcome), (Quiet::SuppressOk, 3, Ok(())));

    let cmd = KittyCommand { action: Action::Display, image_id: 3, ..Default::default() };
    let outcome = finish(dispatch(&mut term, cmd));
    assert_eq!(sent(&outcome), (Quiet::Off, 3, Ok(())));
    let insertion = outcome.insertion.unwrap();
    assert_eq!(insertion.pixels, vec![7; 4]);
    assert_eq!((insertion.width, insertion.height), (1, 1));
}

#[test]
fn transmitted_image_is_displayed_by_number() {
    let mut term = new_term();
    let cmd = KittyCommand { image_number: 50, ..Default::default() };
    let outcome = run(&mut term, cmd, Ok(pixel(8)));
    // The reply carries the ID that was assigned.
    assert_eq!(sent(&outcome), (Quiet::Off, 1, Ok(())));
    let cmd = KittyCommand { action: Action::Display, image_number: 50, ..Default::default() };
    let outcome = finish(dispatch(&mut term, cmd));
    assert_eq!(outcome.insertion.unwrap().pixels, vec![8; 4]);
}

#[test]
fn number_stands_for_the_newest_image_over_quota_too() {
    let mut term = new_term();
    run(&mut term, KittyCommand { image_number: 50, ..Default::default() }, Ok(pixel(7)));
    term.graphics.kitty_state.used_memory = STORAGE_QUOTA;
    let outcome =
        run(&mut term, KittyCommand { image_number: 50, ..Default::default() }, Ok(pixel(8)));
    assert_eq!(sent(&outcome), (Quiet::Off, 2, Ok(())));
    let state = &term.graphics.kitty_state;
    assert!(state.get_image(1).is_none());
    assert_eq!(state.resolve_number(50), Some(2));
    assert_eq!(state.get_image(2).unwrap().data.pixels, vec![8; 4]);
}

#[test]
fn assigned_id_is_not_that_of_a_stored_image() {
    let mut term = new_term();
    run(&mut term, KittyCommand { image_id: 1, ..Default::default() }, Ok(pixel(1)));
    let outcome =
        run(&mut term, KittyCommand { image_number: 9, ..Default::default() }, Ok(pixel(2)));
    assert_eq!(sent(&outcome), (Quiet::Off, 2, Ok(())));
    assert_eq!(term.graphics.kitty_state.get_image(1).unwrap().data.pixels, vec![1; 4]);
    // Without ID and number there is no ID to answer with.
    let outcome = run(&mut term, KittyCommand::default(), Ok(pixel(3)));
    assert_eq!(sent(&outcome), (Quiet::Off, 0, Ok(())));
    assert_eq!(term.graphics.kitty_state.get_image(3).unwrap().data.pixels, vec![3; 4]);
}

#[test]
fn transmit_and_display_does_both() {
    let mut term = new_term();
    let cmd = KittyCommand {
        action: Action::TransmitAndDisplay,
        image_number: 12,
        cursor_movement: 1,
        ..Default::default()
    };
    let outcome = run(&mut term, cmd, Ok(pixel(6)));
    assert_eq!(sent(&outcome), (Quiet::Off, 1, Ok(())));
    let insertion = outcome.insertion.unwrap();
    assert_eq!(insertion.pixels, vec![6; 4]);
    assert_eq!(insertion.saved_cursor, Some(Point { line: 2, column: 5 }));
    assert_eq!(term.graphics.kitty_state.get_image(1).unwrap().data.pixels, vec![6; 4]);
    assert_eq!(term.grid.cursor.point, Point { line: 2, column: 5 });
    assert_eq!(term.graphics.kitty_state.placements.len(), 1);
}

#[test]
fn displayed_image_is_found_at_its_place() {
    let mut term = new_term();
    run(&mut term, KittyCommand { image_id: 3, ..Default::default() }, Ok(pixel(7)));
    let display = KittyCommand { action: Action::Display, image_id: 3, ..Default::default() };
    finish(dispatch(&mut term, display));
    // On display it is not evicted.
    term.graphics.kitty_state.used_memory = STORAGE_QUOTA;
    run(&mut term, KittyCommand { image_id: 4, ..Default::default() }, Ok(pixel(8)));
    assert!(term.graphics.kitty_state.get_image(3).is_some());
    // A delete where it was put takes the placement and, with it, the image.
    let delete = KittyCommand {
        action: Action::Delete,
        delete: Some(DeleteTarget::AtCursorIncludingScrollback),
        ..Default::default()
    };
    finish(dispatch(&mut term, delete));
    assert!(term.graphics.kitty_state.placements.is_empty());
    assert!(term.graphics.kitty_state.get_image(3).is_none());
}

#[test]
fn display_counts_as_a_use() {
    let mut term = new_term();
    for id in [1, 2] {
        run(&mut term, KittyCommand { image_id: id, ..Default::default() }, Ok(pixel(7)));
    }
    let display = KittyCommand { action: Action::Display, image_id: 1, ..Default::default() };
    finish(dispatch(&mut term, display));
    term.graphics.kitty_state.placements.clear();
    term.graphics.kitty_state.used_memory = STORAGE_QUOTA + 1;
    term.graphics.kitty_state.enforce_quota();
    assert!(term.graphics.kitty_state.get_image(1).is_some());
    assert!(term.graphics.kitty_state.get_image(2).is_none());
}

#[test]
fn display_on_arrival_shows_what_a_later_display_shows() {
    let mut term = new_term();
    let cmd = KittyCommand {
        action: Action::TransmitAndDisplay,
        image_id: 3,
        columns: 2,
        offset_y: 1,
        ..Default::default()
    };
    let arrival = run(&mut term, cmd.clone(), Ok(pixel(9))).insertion.unwrap();
    let display = KittyCommand { action: Action::Display, ..cmd };
    let later = finish(dispatch(&mut term, display)).insertion.unwrap();
    assert_eq!(arrival.pixels, later.pixels);
    assert_eq!((arrival.width, arrival.height), (2, 3));
    assert_eq!((later.width, later.height), (2, 3));
    let mut expected = vec![0u8; 8];
    expected.extend_from_slice(&[9; 16]);
    assert_eq!(later.pixels, expected);
}

#[test]
fn failed_display_on_arrival_keeps_the_image() {
    let mut term = new_term();
    let cmd = KittyCommand {
        action: Action::TransmitAndDisplay,
        image_id: 2,
        src_w: 5,
        ..Default::default()
    };
    let outcome = run(&mut term, cmd, Ok(pixel(6)));
    assert!(outcome.insertion.is_none());
    let (_, id, result) = sent(&outcome);
    assert_eq!(id, 2);
    assert_eq!(result.unwrap_err(), "source rect (0,0,5,1) exceeds image (1x1)");
    assert!(term.graphics.kitty_state.get_image(2).is_some());
}

#[test]
fn undecodable_payload_is_refused() {
    for action in [Action::Transmit, Action::TransmitAndDisplay, Action::TransmitFrame] {
        let mut term = new_term();
        let cmd = KittyCommand { action, image_id: 4, image_number: 5, ..Default::default() };
        let outcome = run(&mut term, cmd, Err("broken".to_string()));
        assert!(outcome.insertion.is_none());
        assert_eq!(sent(&outcome), (Quiet::Off, 4, Err("broken".to_string())));
        let state = &term.graphics.kitty_state;
        assert!(state.images.is_empty() && state.number_to_id.is_empty());
        assert!(state.animation_states.is_empty());
    }
}

#[test]
fn display_errors_tell_what_is_wrong() {
    let mut term = new_term();
    let cmd = KittyCommand { action: Action::Display, ..Default::default() };
    let outcome = finish(dispatch(&mut term, cmd));
    assert!(outcome.insertion.is_none());
    assert_eq!(sent(&outcome), (Quiet::Off, 0, Err("image not found".to_string())));
    let cmd = KittyCommand { action: Action::Display, image_id: 31, ..Default::default() };
    let outcome = finish(dispatch(&mut term, cmd));
    assert_eq!(
        sent(&outcome),
        (Quiet::Off, 31, Err("image id=31 not found in storage".to_string()))
    );
}

// ── Queries ─────────────────────────────────────────────────────────

#[test]
fn queries_are_answered() {
    let mut term = new_term();
    let cmd = KittyCommand { action: Action::Query, ..Default::default() };
    let outcome = finish(dispatch(&mut term, cmd));
    assert!(matches!(outcome.reply, Some(Reply::QueryOk { image_id: 1 })));

    let query = |image_id: u32| KittyCommand {
        action: Action::Query,
        image_id,
        payload: b"AAAA".to_vec(),
        ..Default::default()
    };
    let outcome = run(&mut term, query(42), Ok(pixel(0)));
    assert!(matches!(outcome.reply, Some(Reply::QueryOk { image_id: 42 })));
    let outcome = run(&mut term, query(0), Err("no good".to_string()));
    match outcome.reply {
        Some(Reply::QueryError { image_id, code, message }) => {
            assert_eq!(image_id, 1);
            assert_eq!(code, "EINVAL");
            assert_eq!(message, "no good");
        },
        other => panic!("no error: {other:?}"),
    }
    assert!(term.graphics.kitty_state.images.is_empty());
}

#[test]
fn quiet_queries_hold_their_answers_back() {
    let query = |quiet: Quiet, payload: &[u8]| KittyCommand {
        action: Action::Query,
        quiet,
        payload: payload.to_vec(),
        ..Default::default()
    };
    let mut term = new_term();
    for quiet in [Quiet::SuppressOk, Quiet::SuppressAll] {
        let outcome = finish(dispatch(&mut term, query(quiet, b"")));
        assert!(outcome.reply.is_none());
        let outcome = run(&mut term, query(quiet, b"AAAA"), Ok(pixel(0)));
        assert!(outcome.reply.is_none());
    }
    let outcome = run(&mut term, query(Quiet::SuppressOk, b"AAAA"), Err("no".to_string()));
    assert!(matches!(outcome.reply, Some(Reply::QueryError { .. })));
    let outcome = run(&mut term, query(Quiet::SuppressAll, b"AAAA"), Err("no".to_string()));
    assert!(outcome.reply.is_none());
}

// ── Deletion ────────────────────────────────────────────────────────

#[test]
fn delete_without_target_takes_everything() {
    let mut term = new_term();
    run(&mut term, KittyCommand { image_id: 1, ..Default::default() }, Ok(pixel(1)));
    let cmd = KittyCommand { action: Action::Delete, ..Default::default() };
    let outcome = finish(dispatch(&mut term, cmd));
    assert!(outcome.insertion.is_none() && outcome.reply.is_none());
    assert!(term.graphics.kitty_state.images.is_empty());
    assert_eq!(term.graphics.kitty_state.used_memory, 0);
}

#[test]
fn delete_at_cursor_uses_the_cursor() {
    let mut term = new_term();
    for (col, row) in [(5, 2), (6, 2), (5, 3)] {
        term.graphics.kitty_state.register_placement(KittyPlacement {
            image_id: 1, placement_id: 0, col, row, width: 1, height: 1, z_index: 0,
        });
    }
    let cmd = KittyCommand {
        action: Action::Delete,
        delete: Some(DeleteTarget::AtCursor),
        ..Default::default()
    };
    finish(dispatch(&mut term, cmd));
    let left: Vec<(usize, i32)> =
        term.graphics.kitty_state.placements.iter().map(|p| (p.col, p.row)).collect();
    assert_eq!(left, vec![(6, 2), (5, 3)]);
}

// ── Animation ───────────────────────────────────────────────────────

#[test]
fn frames_are_loaded_composed_and_controlled() {
    let mut term = new_term();
    run(&mut term, KittyCommand { image_id: 1, ..Default::default() }, Ok(pixel(1)));
    let cmd = KittyCommand { action: Action::TransmitFrame, image_id: 1, ..Default::default() };
    let outcome = run(&mut term, cmd, Ok(pixel(2)));
    assert_eq!(sent(&outcome), (Quiet::Off, 1, Ok(())));

    let cmd = KittyCommand {
        action: Action::ComposeFrames,
        image_id: 1,
        columns: 2,
        rows: 1,
        quiet: Quiet::SuppressAll,
        ..Default::default()
    };
    let outcome = finish(dispatch(&mut term, cmd));
    assert_eq!(sent(&outcome), (Quiet::SuppressAll, 1, Ok(())));
    let anim = term.graphics.kitty_state.get_animation(1).unwrap();
    assert_eq!(anim.frames[0].pixels, vec![2; 4]);

    let cmd = KittyCommand {
        action: Action::AnimationControl,
        image_id: 1,
        rows: 2,
        ..Default::default()
    };
    let outcome = finish(dispatch(&mut term, cmd));
    assert!(outcome.reply.is_none());
    assert_eq!(term.graphics.kitty_state.get_animation(1).unwrap().current_frame, 1);
}

#[test]
fn books_balance_and_frames_load_after_any_command() {
    let mut term = new_term();
    run(&mut term, KittyCommand { image_id: 1, ..Default::default() }, Ok(pixel(1)));
    run(&mut term, KittyCommand { image_id: 2, ..Default::default() }, Ok(pixel(2)));
    for action in [Action::TransmitFrame, Action::TransmitFrame, Action::Transmit] {
        let cmd = KittyCommand { action, image_id: 1, ..Default::default() };
        run(&mut term, cmd, Ok(pixel(3)));
    }
    let control =
        KittyCommand { action: Action::AnimationControl, image_id: 1, z_index: 9, ..Default::default() };
    finish(dispatch(&mut term, control));
    let delete = KittyCommand {
        action: Action::Delete,
        delete: Some(DeleteTarget::ById),
        image_id: 2,
        ..Default::default()
    };
    finish(dispatch(&mut term, delete));
    let state = &term.graphics.kitty_state;
    assert_eq!(state.used_memory, state.images.values().map(|i| i.data.pixels.len()).sum::<usize>());
    assert_eq!(state.get_animation(1).unwrap().frames.len(), 3);
    let frame = KittyCommand { action: Action::TransmitFrame, image_id: 1, ..Default::default() };
    assert!(can_dispatch_decoded(&term, &frame, &Ok(pixel(4))));
}

#[test]
fn refused_composition_is_answered() {
    let mut term = new_term();
    let cmd = KittyCommand {
        action: Action::ComposeFrames,
        image_id: 8,
        columns: 1,
        rows: 1,
        ..Default::default()
    };
    let outcome = finish(dispatch(&mut term, cmd));
    assert_eq!(
        sent(&outcome),
        (Quiet::Off, 8, Err("no animation for image id=8".to_string()))
    );
}

// ── What callers check ──────────────────────────────────────────────

#[test]
fn impossible_commands_are_told_apart() {
    let mut term = new_term();
    run(&mut term, KittyCommand { image_id: 5, ..Default::default() }, Ok(pixel(1)));
    let display = KittyCommand { action: Action::Display, image_id: 5, ..Default::default() };
    assert!(can_dispatch(&term, &display));
    let behind_edge = KittyCommand { src_x: 2, ..display };
    assert!(!can_dispatch(&term, &behind_edge));
    assert!(can_dispatch(&term, &KittyCommand { more_chunks: true, ..behind_edge }));

    let transmit = KittyCommand::default();
    assert!(can_dispatch_decoded(&term, &transmit, &Ok(pixel(1))));
    term.graphics.kitty_state.used_memory = usize::MAX - 3;
    assert!(!can_dispatch_decoded(&term, &transmit, &Ok(pixel(1))));
    assert!(can_dispatch_decoded(&term, &transmit, &Err("broken".to_string())));
    // Replacing an image gives its bytes back first.
    let replace = KittyCommand { image_id: 5, ..Default::default() };
    assert!(can_dispatch_decoded(&term, &replace, &Ok(pixel(1))));
    // A command that needs no pixels is not finished with any.
    let delete = KittyCommand { action: Action::Delete, ..Default::default() };
    assert!(!can_dispatch_decoded(&term, &delete, &Ok(pixel(1))));
}
