//! Laws of commands from their arrival to their reply.
use vstd::prelude::*;

use crate::graphics;
use crate::graphics::{ColorType, GraphicData};
use crate::kitty;
use crate::kitty::animation;
use crate::kitty::animation::AnimationView;
use crate::kitty::placement;
use crate::kitty::placement::{Insertion, Raster};
use crate::kitty::state as storage;
use crate::kitty::state::{LoadingView, StateView};
use crate::kitty::{Outcome, ReplyView, Step};
use crate::kitty_parser;
use crate::kitty_parser::{Action, DeleteTarget, Format, KittyCommand, Medium, Quiet};
use crate::laws::parser;
use crate::laws::state;
use crate::term::{Point, TermView};
use crate::text;

verus! {

// ── Chunked transfer ───────────────────────────────────────────────────

/// The chunks one after the other.
pub open spec fn joined(chunks: Seq<Seq<u8>>) -> Seq<u8>
    decreases chunks.len(),
{
    if chunks.len() == 0 {
        Seq::empty()
    } else {
        joined(chunks.drop_last()) + chunks.last()
    }
}

/// The transfer after the chunks `chunks`, which arrived with the commands `cmds`.
pub open spec fn after_chunks(cmds: Seq<KittyCommand>, chunks: Seq<Seq<u8>>) -> Option<LoadingView>
    decreases chunks.len(),
{
    if chunks.len() == 0 {
        None
    } else {
        Some(
            kitty::with_chunk(
                after_chunks(cmds.drop_last(), chunks.drop_last()),
                cmds.last(),
                chunks.last(),
            ),
        )
    }
}

/// A chunked transfer whose later chunks say nothing that its first does not ends
/// as the command of its first chunk, with the bytes of all chunks in order as its
/// payload: the same command as if it had come at once.
pub proof fn law_chunks_make_one_command(
    cmds: Seq<KittyCommand>,
    chunks: Seq<Seq<u8>>,
    last: Seq<u8>,
    cmd: KittyCommand,
)
    requires
        cmds.len() == chunks.len() > 0,
        forall|i: int| 1 <= i < cmds.len() ==> kitty::continues(cmds[0], #[trigger] cmds[i]),
        kitty::merges_to(after_chunks(cmds, chunks)->0, last, cmd),
    ensures
        cmd.payload@ == joined(chunks.push(last)),
        cmd == (KittyCommand {
            payload: cmd.payload,
            more_chunks: false,
            pre_decoded: true,
            ..cmds[0]
        }),
{
    lemma_after_chunks(cmds, chunks);
    assert(chunks.push(last).drop_last() =~= chunks);
}

proof fn lemma_after_chunks(cmds: Seq<KittyCommand>, chunks: Seq<Seq<u8>>)
    requires
        cmds.len() == chunks.len() > 0,
        forall|i: int| 1 <= i < cmds.len() ==> kitty::continues(cmds[0], #[trigger] cmds[i]),
    ensures
        after_chunks(cmds, chunks) == Some(
            LoadingView { command: cmds[0], data: joined(chunks) },
        ),
    decreases chunks.len(),
{
    if chunks.len() > 1 {
        lemma_after_chunks(cmds.drop_last(), chunks.drop_last());
    } else {
        reveal_with_fuel(joined, 2);
        reveal_with_fuel(after_chunks, 2);
        assert(joined(chunks) =~= chunks.last());
    }
}

/// A new transmission cancels the one under way, of which nothing is left: a
/// command that transmits and names another image, or another size or format, is
/// one.
pub proof fn law_new_transfer_cancels(loading: LoadingView, cmd: KittyCommand, bytes: Seq<u8>)
    requires
        kitty::transmits(cmd),
        ({
            let first = loading.command;
            ||| cmd.image_id != 0 && cmd.image_id != first.image_id
            ||| cmd.image_number != 0 && cmd.image_number != first.image_number
            ||| cmd.width != 0 && cmd.width != first.width
            ||| cmd.height != 0 && cmd.height != first.height
            ||| cmd.format != Format::Rgba && cmd.format != first.format
        }),
    ensures
        kitty::with_chunk(Some(loading), cmd, bytes) == (LoadingView { command: cmd, data: bytes }),
{
}

/// Chunks that repeat the keys of the first one, or leave them out, go on with its
/// transfer.
pub proof fn law_repeated_keys_continue(
    loading: LoadingView,
    again: KittyCommand,
    bare: KittyCommand,
    bytes: Seq<u8>,
)
    requires
        again == (KittyCommand {
            quiet: again.quiet,
            more_chunks: again.more_chunks,
            payload: again.payload,
            ..loading.command
        }),
        bare == (KittyCommand {
            quiet: bare.quiet,
            more_chunks: bare.more_chunks,
            ..kitty_parser::blank(bare.payload)
        }),
    ensures
        kitty::with_chunk(Some(loading), again, bytes) == (LoadingView {
            data: loading.data + bytes,
            ..loading
        }),
        kitty::with_chunk(Some(loading), bare, bytes) == (LoadingView {
            data: loading.data + bytes,
            ..loading
        }),
{
}

/// The bytes of a chunk are its payload decoded from base64, and none where that
/// fails. What does not come directly stays as it is.
pub proof fn law_chunk_is_decoded(medium: Medium, payload: Seq<u8>)
    ensures
        ({
            let bytes = kitty::chunk_bytes(medium, payload);
            &&& payload.len() == 0 ==> bytes.len() == 0
            &&& medium != Medium::Direct ==> bytes == payload
            &&& medium == Medium::Direct && payload.len() > 0 ==> match kitty::base64_decoded(
                payload,
            ) {
                Some(decoded) => bytes == decoded,
                None => bytes.len() == 0,
            }
        }),
{
}

/// The last chunk ends the transfer under way, whatever it says itself: the command
/// is that of the first chunk, and its payload all that came, the last chunk decoded
/// as the first one asks. Without a transfer a command stands for itself.
pub proof fn law_last_chunk_completes_the_command(
    loading: Option<LoadingView>,
    received: KittyCommand,
    cmd: KittyCommand,
)
    requires
        kitty::completes(loading, received, cmd),
    ensures
        loading is None ==> cmd == received,
        loading matches Some(l) ==> {
            &&& cmd.payload@ == l.data + kitty::chunk_bytes(l.command.medium, received.payload@)
            &&& !cmd.more_chunks
            &&& cmd.pre_decoded
            &&& cmd.action == l.command.action
            &&& cmd.image_id == l.command.image_id
            &&& cmd == (KittyCommand {
                payload: cmd.payload,
                more_chunks: false,
                pre_decoded: true,
                ..l.command
            })
        },
{
}

/// The first chunk of a transfer starts it with its own command and bytes.
pub proof fn law_first_chunk_starts_the_transfer(cmd: KittyCommand, bytes: Seq<u8>)
    ensures
        kitty::with_chunk(None, cmd, bytes).command == cmd,
        kitty::with_chunk(None, cmd, bytes).data == bytes,
{
}

/// A transmission that gives any key another value than the transfer under way is a
/// new one; the quiet mode does not matter.
pub proof fn law_other_key_starts_a_transfer(
    loading: LoadingView,
    cmd: KittyCommand,
    bytes: Seq<u8>,
    key: u8,
)
    requires
        cmd.action == Action::Transmit || cmd.action == Action::TransmitAndDisplay || cmd.action
            == Action::TransmitFrame,
        key != 'q' as u8,
        key != 'm' as u8,
        !parser::has_default(key, cmd),
        !parser::agree_on(key, cmd, loading.command),
    ensures
        kitty::with_chunk(Some(loading), cmd, bytes) == (LoadingView { command: cmd, data: bytes }),
{
}

/// A chunk that gives no key another value than the transfer under way goes on with
/// it, and so does a command that transmits nothing, whatever its keys.
pub proof fn law_chunk_without_new_keys_continues(
    loading: LoadingView,
    cmd: KittyCommand,
    bytes: Seq<u8>,
)
    requires
        cmd.action == Action::Query || cmd.action == Action::Display || cmd.action == Action::Delete
            || cmd.action == Action::AnimationControl || cmd.action == Action::ComposeFrames || {
            &&& forall|key: u8|
                parser::is_key(key) && key != 'q' as u8 && key != 'm' as u8
                    ==> #[trigger] parser::has_default(key, cmd) || parser::agree_on(
                    key,
                    cmd,
                    loading.command,
                )
            &&& cmd.anim_state == 0 && cmd.gap_ms == 0 && cmd.compose_mode == 0
            &&& cmd.background == 0 && cmd.loops == 0
        },
    ensures
        kitty::with_chunk(Some(loading), cmd, bytes).command == loading.command,
        kitty::with_chunk(Some(loading), cmd, bytes).data == loading.data + bytes,
{
    let first = loading.command;
    if !kitty::continues(first, cmd) {
        assert(parser::has_default('a' as u8, cmd) || parser::agree_on('a' as u8, cmd, first));
        assert(parser::has_default('i' as u8, cmd) || parser::agree_on('i' as u8, cmd, first));
        assert(parser::has_default('I' as u8, cmd) || parser::agree_on('I' as u8, cmd, first));
        assert(parser::has_default('p' as u8, cmd) || parser::agree_on('p' as u8, cmd, first));
        assert(parser::has_default('f' as u8, cmd) || parser::agree_on('f' as u8, cmd, first));
        assert(parser::has_default('t' as u8, cmd) || parser::agree_on('t' as u8, cmd, first));
        assert(parser::has_default('o' as u8, cmd) || parser::agree_on('o' as u8, cmd, first));
        assert(parser::has_default('s' as u8, cmd) || parser::agree_on('s' as u8, cmd, first));
        assert(parser::has_default('v' as u8, cmd) || parser::agree_on('v' as u8, cmd, first));
        assert(parser::has_default('S' as u8, cmd) || parser::agree_on('S' as u8, cmd, first));
        assert(parser::has_default('O' as u8, cmd) || parser::agree_on('O' as u8, cmd, first));
        assert(parser::has_default('x' as u8, cmd) || parser::agree_on('x' as u8, cmd, first));
        assert(parser::has_default('y' as u8, cmd) || parser::agree_on('y' as u8, cmd, first));
        assert(parser::has_default('w' as u8, cmd) || parser::agree_on('w' as u8, cmd, first));
        assert(parser::has_default('h' as u8, cmd) || parser::agree_on('h' as u8, cmd, first));
        assert(parser::has_default('X' as u8, cmd) || parser::agree_on('X' as u8, cmd, first));
        assert(parser::has_default('Y' as u8, cmd) || parser::agree_on('Y' as u8, cmd, first));
        assert(parser::has_default('c' as u8, cmd) || parser::agree_on('c' as u8, cmd, first));
        assert(parser::has_default('r' as u8, cmd) || parser::agree_on('r' as u8, cmd, first));
        assert(parser::has_default('z' as u8, cmd) || parser::agree_on('z' as u8, cmd, first));
        assert(parser::has_default('C' as u8, cmd) || parser::agree_on('C' as u8, cmd, first));
        assert(parser::has_default('U' as u8, cmd) || parser::agree_on('U' as u8, cmd, first));
        assert(parser::has_default('P' as u8, cmd) || parser::agree_on('P' as u8, cmd, first));
        assert(parser::has_default('Q' as u8, cmd) || parser::agree_on('Q' as u8, cmd, first));
        assert(parser::has_default('H' as u8, cmd) || parser::agree_on('H' as u8, cmd, first));
        assert(parser::has_default('V' as u8, cmd) || parser::agree_on('V' as u8, cmd, first));
        assert(parser::has_default('d' as u8, cmd) || parser::agree_on('d' as u8, cmd, first));
    }
}

/// A chunk that is not the last is taken in, decoded as it asks itself, and nothing
/// else happens: there is nothing to insert and no answer.
pub proof fn law_chunk_is_only_taken_in(
    term: TermView,
    received: KittyCommand,
    after: TermView,
    step: Step,
)
    requires
        received.more_chunks,
        kitty::dispatches(term, received, after, step),
    ensures
        step is Finish,
        step->Finish_0.insertion is None,
        step->Finish_0.reply is None,
        after.state.loading == Some(
            kitty::with_chunk(
                term.state.loading,
                received,
                kitty::chunk_bytes(received.medium, received.payload@),
            ),
        ),
        after == (TermView {
            state: StateView { loading: after.state.loading, ..term.state },
            ..term
        }),
{
}

/// A command that is complete ends the transfer under way. Where it needs pixels it is
/// handed on to be decoded and nothing else happens yet; else it is carried out.
pub proof fn law_complete_command_ends_the_transfer(
    term: TermView,
    received: KittyCommand,
    after: TermView,
    step: Step,
)
    requires
        !received.more_chunks,
        kitty::dispatches(term, received, after, step),
    ensures
        ({
            let idle = TermView { state: StateView { loading: None, ..term.state }, ..term };
            let first = match term.state.loading {
                Some(l) => l.command,
                None => received,
            };
            &&& after.state.loading is None
            &&& step is Decode ==> {
                &&& after == idle
                &&& kitty::completes(term.state.loading, received, step->Decode_0)
                &&& kitty::needs_decoding(step->Decode_0)
            }
            &&& step is Finish ==> exists|whole: KittyCommand| #[trigger]
                kitty::completes(term.state.loading, received, whole) && kitty::performs(
                    idle,
                    whole,
                    after,
                    step->Finish_0,
                )
            &&& step is Decode ==> first.action == Action::Transmit || first.action
                == Action::TransmitAndDisplay || first.action == Action::TransmitFrame
                || first.action == Action::Query
        }),
{
}

// ── Transmission and display ───────────────────────────────────────────

/// A transmission without an ID gets one that no image has, as long as there is one:
/// the next after the last assigned, but for those that images have. Neither its
/// number nor anything else in it matters.
pub proof fn law_transmission_without_id_gets_the_next(
    s: StateView,
    cmd: KittyCommand,
    free: u32,
)
    requires
        cmd.image_id == 0,
        free != 0,
        !s.images.contains_key(free),
    ensures
        ({
            let id = placement::assigned_id(s, cmd);
            &&& id != 0
            &&& !s.images.contains_key(id)
            &&& s.next_image_id < id ==> !(s.next_image_id < free < id)
            &&& id <= s.next_image_id ==> id <= free <= s.next_image_id
        }),
{
    state::law_assigned_id_is_new(s, free);
    state::law_assigned_ids_count_up(s, free);
}

/// Assigning an ID remembers it as the last one, where it was not given, lets the
/// number of the command stand for it, and touches nothing else.
pub proof fn law_assigning_an_id_keeps_the_rest(s: StateView, cmd: KittyCommand)
    ensures
        ({
            let after = placement::id_assigned(s, cmd);
            let id = placement::assigned_id(s, cmd);
            &&& cmd.image_id != 0 ==> after.next_image_id == s.next_image_id
            &&& cmd.image_id == 0 ==> after.next_image_id == id
            &&& cmd.image_number == 0 ==> after.number_to_id == s.number_to_id
            &&& cmd.image_number != 0 ==> after.number_to_id == s.number_to_id.insert(
                cmd.image_number,
                id,
            )
            &&& after == (StateView {
                next_image_id: after.next_image_id,
                number_to_id: after.number_to_id,
                ..s
            })
        }),
{
}

/// An ID that is assigned is used up, one that is given is not. The image number of
/// the command stands for the image, and other numbers for what they stood for, as
/// long as that is stored.
pub proof fn law_transmission_keeps_the_rest(
    s: StateView,
    cmd: KittyCommand,
    data: GraphicData,
    after: StateView,
)
    requires
        kitty::transmitted(s, cmd, data, after),
    ensures
        ({
            let id = placement::assigned_id(s, cmd);
            &&& after.next_image_id == if cmd.image_id != 0 {
                s.next_image_id
            } else {
                id
            }
            &&& after.images.contains_key(id)
            &&& after.images[id].data == data
            &&& after.images[id].total_bytes == data.pixels.len()
            &&& forall|other: u32|
                other != id && #[trigger] after.images.contains_key(other)
                    ==> s.images.contains_key(other) && after.images[other] == s.images[other]
            &&& after.placements == s.placements
            &&& after.animations == s.animations
            &&& after.loading == s.loading
            &&& cmd.image_number != 0 ==> after.number_to_id.contains_key(cmd.image_number)
                && after.number_to_id[cmd.image_number] == id
            &&& forall|n: u32| #[trigger]
                after.number_to_id.contains_key(n) && !(n == cmd.image_number && n != 0)
                    ==> s.number_to_id.contains_key(n) && after.number_to_id[n]
                    == s.number_to_id[n]
        }),
{
    let id = placement::assigned_id(s, cmd);
    let assigned = placement::id_assigned(s, cmd);
    let kept = choose|kept: StateView| #[trigger]
        assigned.stored(id, data, kept) && after == placement::number_mapped(kept, cmd, id);
    state::law_storing_keeps_the_rest(assigned, id, data, kept);
}

/// Placing an image touches the placements and the time of its use, and nothing else.
pub proof fn law_placing_keeps_the_rest(term: TermView, id: u32, cmd: KittyCommand)
    requires
        term.state.images.contains_key(id),
        placement::placed_image(term, id, cmd) is Ok,
    ensures
        ({
            let after = placement::after_placing(term, id, cmd);
            let earlier = term.state.images[id];
            let later = after.state.images[id];
            &&& later.data == earlier.data
            &&& later.total_bytes == earlier.total_bytes
            &&& term.state.clock < u64::MAX ==> later.last_used == term.state.clock + 1
            &&& after.state.images.remove(id) == term.state.images.remove(id)
            &&& after.state.images.contains_key(id)
            &&& after == (TermView {
                state: StateView {
                    images: after.state.images,
                    placements: after.state.placements,
                    clock: after.state.clock,
                    ..term.state
                },
                ..term
            })
        }),
{
    let after = placement::after_placing(term, id, cmd);
    assert(after.state.images.remove(id) =~= term.state.images.remove(id));
}

/// What a display command shows is of the image with the ID it gives or, without one,
/// of the image that its number stands for, and of no other image; it is refused where
/// that is not stored.
pub proof fn law_display_is_of_the_image_named(term: TermView, cmd: KittyCommand, id: u32)
    requires
        cmd.image_id == id || cmd.image_id == 0 && cmd.image_number != 0
            && term.state.number_to_id.contains_key(cmd.image_number)
            && term.state.number_to_id[cmd.image_number] == id,
        id != 0,
    ensures
        term.state.images.contains_key(id) ==> {
            &&& kitty::displayed(term, cmd) == placement::shown(
                term.state.images[id].data,
                cmd,
                term.cell_width,
                term.cell_height,
            )
            &&& kitty::displayed(term, cmd) is Ok ==> kitty::after_display(
                term,
                cmd,
            ).state.placements.last().image_id == id
        },
        !term.state.images.contains_key(id) ==> kitty::displayed(term, cmd) is Err
            && kitty::after_display(term, cmd) == term,
{
}

/// A display command that names no image is refused.
pub proof fn law_display_of_nothing_is_refused(term: TermView, cmd: KittyCommand)
    requires
        cmd.image_id == 0,
        cmd.image_number == 0 || !term.state.number_to_id.contains_key(cmd.image_number),
    ensures
        kitty::displayed(term, cmd) is Err,
        kitty::after_display(term, cmd) == term,
{
}

/// An image that was transmitted can be displayed by its ID: what is put on the
/// grid is what was sent.
pub proof fn law_transmitted_image_is_displayed(
    term: TermView,
    cmd: KittyCommand,
    data: GraphicData,
    after: TermView,
    display: KittyCommand,
)
    requires
        kitty::transmitted(term.state, cmd, data, after.state),
        display.image_id == placement::assigned_id(term.state, cmd),
    ensures
        kitty::displayed(after, display) == placement::shown(
            data,
            display,
            after.cell_width,
            after.cell_height,
        ),
{
    law_transmission_has_an_id(term.state, cmd, data);
}

/// An image that was transmitted with an image number can be displayed by that
/// number, which stands for the newest image.
pub proof fn law_transmitted_image_is_displayed_by_number(
    term: TermView,
    cmd: KittyCommand,
    data: GraphicData,
    after: TermView,
    display: KittyCommand,
)
    requires
        kitty::transmitted(term.state, cmd, data, after.state),
        cmd.image_number != 0,
        display.image_id == 0,
        display.image_number == cmd.image_number,
    ensures
        after.state.number_to_id.contains_key(cmd.image_number),
        after.state.number_to_id[cmd.image_number] == placement::assigned_id(term.state, cmd),
        kitty::displayed(after, display) == placement::shown(
            data,
            display,
            after.cell_width,
            after.cell_height,
        ),
{
}

/// An image that is transmitted and displayed at once shows what displaying it
/// afterwards would show.
pub proof fn law_display_on_arrival_is_display(
    term: TermView,
    cmd: KittyCommand,
    data: GraphicData,
    after: TermView,
    display: KittyCommand,
)
    requires
        kitty::transmitted(term.state, cmd, data, after.state),
        after.cell_width == term.cell_width,
        after.cell_height == term.cell_height,
        display == (KittyCommand {
            image_id: placement::assigned_id(term.state, cmd),
            ..cmd
        }),
    ensures
        kitty::displayed_on_arrival(term, cmd, Ok(data)) == kitty::displayed(after, display),
{
    law_transmitted_image_is_displayed(term, cmd, data, after, display);
    assert(placement::shown_part(data, cmd) == placement::shown_part(data, display));
    match placement::shown_part(data, cmd) {
        Ok(part) => {
            assert(placement::fitted(part, cmd, term.cell_width, term.cell_height)
                == placement::fitted(part, display, term.cell_width, term.cell_height));
        },
        Err(_) => {},
    }
}

/// Assigned IDs are never 0, so that every transmitted image has an ID to be
/// displayed by, and a transmission by number is answered with it.
pub proof fn law_transmission_has_an_id(s: StateView, cmd: KittyCommand, data: GraphicData)
    ensures
        placement::assigned_id(s, cmd) != 0,
        cmd.image_id != 0 ==> placement::assigned_id(s, cmd) == cmd.image_id,
        cmd.image_number != 0 ==> kitty::answered_id(s, cmd, Ok(data)) == placement::assigned_id(
            s,
            cmd,
        ) == kitty::answered_id_on_arrival(s, cmd, Ok(data)),
{
    let n = storage::lemma_free_id_is_first(s.images.dom(), s.next_image_id, u32::MAX as nat);
    storage::lemma_nth_id(s.next_image_id, n);
}

/// What is put on the grid is registered: deleting at the place where it was put
/// finds it, as long as it spans a cell.
pub proof fn law_placement_is_registered(term: TermView, id: u32, cmd: KittyCommand)
    requires
        placement::placed_image(term, id, cmd) is Ok,
    ensures
        ({
            let after = placement::after_placing(term, id, cmd);
            let p = after.state.placements.last();
            &&& after.state.placements == term.state.placements.push(p)
            &&& p.image_id == id
            &&& p.placement_id == cmd.placement_id
            &&& p.z_index == cmd.z_index
            &&& p.col == term.cursor.column
            &&& p.row == term.cursor.line
            &&& after.state.referenced(id)
            &&& 0 < p.width && 0 < p.height as i32 ==> p.covers_cell(
                term.cursor.column as int,
                term.cursor.line as int,
            )
        }),
{
    let after = placement::after_placing(term, id, cmd);
    assert(after.state.placements[after.state.placements.len() - 1].image_id == id);
}

// ── Replies ────────────────────────────────────────────────────────────

/// The error that a reply tells, if any.
pub open spec fn told_error(outcome: Outcome) -> Option<Seq<char>> {
    match outcome.reply {
        Some(reply) => match reply@ {
            ReplyView::Send { error, .. } => error,
            ReplyView::QueryOk { .. } => None,
            ReplyView::QueryError { message, .. } => Some(message),
        },
        None => None,
    }
}

/// What a reply is about: its quiet mode, its image ID and its error.
pub open spec fn tells(
    outcome: Outcome,
    quiet: Quiet,
    image_id: u32,
    error: Option<Seq<char>>,
) -> bool {
    outcome.reply is Some && outcome.reply->0@ == (ReplyView::Send { quiet, image_id, error })
}

/// Transmissions, displays, frames and compositions are answered with their result in
/// the quiet mode they ask for. The answer goes to the image ID given; that of a
/// transmission by number to the ID assigned or, where a transmission with display has
/// failed, to the number. Deletes and playback control are not answered.
pub proof fn law_commands_are_answered(
    term: TermView,
    cmd: KittyCommand,
    decoded: Result<GraphicData, String>,
    after: TermView,
    outcome: Outcome,
)
    requires
        runs(term, cmd, decoded, after, outcome),
    ensures
        ({
            let assigned = placement::assigned_id(term.state, cmd);
            let error = told_error(outcome);
            match cmd.action {
                Action::Transmit => tells(
                    outcome,
                    cmd.quiet,
                    if cmd.image_id != 0 || cmd.image_number == 0 {
                        cmd.image_id
                    } else if decoded is Ok {
                        assigned
                    } else {
                        0
                    },
                    error,
                ) && (error is None <==> decoded is Ok),
                Action::TransmitAndDisplay => tells(
                    outcome,
                    cmd.quiet,
                    if cmd.image_id != 0 || cmd.image_number == 0 {
                        cmd.image_id
                    } else if decoded is Ok {
                        assigned
                    } else {
                        cmd.image_number
                    },
                    error,
                ) && (error is None <==> outcome.insertion is Some),
                Action::Display => tells(outcome, cmd.quiet, cmd.image_id, error) && (error is None
                    <==> outcome.insertion is Some),
                Action::TransmitFrame => tells(outcome, cmd.quiet, cmd.image_id, error)
                    && outcome.insertion is None && error == animation::frame_error(
                    term.state,
                    cmd,
                    decoded,
                ),
                Action::ComposeFrames => tells(outcome, cmd.quiet, cmd.image_id, error)
                    && outcome.insertion is None && error == animation::compose_error(
                    term.state,
                    cmd,
                ),
                Action::Delete | Action::AnimationControl => outcome.reply is None
                    && outcome.insertion is None,
                Action::Query => outcome.insertion is None && kitty::reply_view(outcome.reply)
                    == kitty::query_reply(
                    cmd,
                    if cmd.payload@.len() == 0 {
                        None
                    } else {
                        Some(decoded)
                    },
                ),
            }
        }),
{
}

/// An answer to a query goes to the image ID it gives, or to 1; a payload that cannot
/// be decoded is answered as invalid, with the reason.
pub proof fn law_query_is_answered_for_its_image(
    cmd: KittyCommand,
    decoded: Option<Result<GraphicData, String>>,
)
    ensures
        ({
            let id = if cmd.image_id != 0 {
                cmd.image_id
            } else {
                1
            };
            let failed = decoded matches Some(Err(_));
            match kitty::query_reply(cmd, decoded) {
                None => cmd.quiet == Quiet::SuppressAll || cmd.quiet == Quiet::SuppressOk
                    && !failed,
                Some(ReplyView::QueryOk { image_id }) => image_id == id && !failed && cmd.quiet
                    == Quiet::Off,
                Some(ReplyView::QueryError { image_id, code, message }) => image_id == id && failed
                    && code == "EINVAL"@ && message == decoded->0->Err_0@ && cmd.quiet
                    != Quiet::SuppressAll,
                _ => false,
            }
        }),
{
}

/// Each action does its part: transmissions store, displays place, deletes delete at
/// the cursor (everything, where no target is given), frames, compositions and control
/// change the animation.
pub proof fn law_actions_do_their_part(
    term: TermView,
    cmd: KittyCommand,
    decoded: Result<GraphicData, String>,
    after: TermView,
    outcome: Outcome,
)
    requires
        runs(term, cmd, decoded, after, outcome),
    ensures
        match cmd.action {
            Action::Transmit => if decoded is Ok {
                kitty::transmitted(term.state, cmd, decoded->Ok_0, after.state)
            } else {
                after == term
            },
            Action::TransmitAndDisplay => if decoded is Ok {
                let id = placement::assigned_id(term.state, cmd);
                let data = decoded->Ok_0;
                let image = placement::shown(data, cmd, term.cell_width, term.cell_height);
                &&& after.state.images.contains_key(id)
                &&& after.state.images[id].data == data
                &&& match image {
                    Ok(raster) => {
                        &&& outcome.insertion is Some
                        &&& outcome.insertion->0.raster() == raster
                        &&& after.state.placements == term.state.placements.push(
                            after.state.placements.last(),
                        )
                        &&& after.state.placements.last().image_id == id
                        &&& after.state.placements.last().placement_id == cmd.placement_id
                        &&& after.state.placements.last().z_index == cmd.z_index
                        &&& after.state.placements.last().col == term.cursor.column
                        &&& after.state.placements.last().row == term.cursor.line
                    },
                    Err(_) => {
                        &&& outcome.insertion is None
                        &&& after.state.placements == term.state.placements
                    },
                }
            } else {
                after == term
            },
            Action::Display => {
                &&& after == kitty::after_display(term, cmd)
                &&& kitty::displayed(term, cmd) matches Ok(raster) ==> outcome.insertion is Some
                    && outcome.insertion->0.raster() == raster
            },
            Action::Delete => after.state == term.state.deleted(
                if cmd.delete is Some {
                    cmd.delete->0
                } else {
                    DeleteTarget::All
                },
                cmd,
                term.cursor.column,
                term.cursor.line as usize,
            ),
            Action::TransmitFrame => animation::frame_error(term.state, cmd, decoded) is None
                ==> after.state == animation::frame_loaded(term.state, cmd, decoded->Ok_0),
            Action::ComposeFrames => animation::compose_error(term.state, cmd) is None
                ==> after.state == animation::frames_composed(term.state, cmd),
            Action::AnimationControl => after.state == animation::animation_controlled(
                term.state,
                cmd,
            ),
            Action::Query => after == term,
        },
{
    match (cmd.action, decoded) {
        (Action::TransmitAndDisplay, Ok(data)) => {
            let id = placement::assigned_id(term.state, cmd);
            let kept = choose|kept: StateView| #[trigger]
                kitty::transmitted(term.state, cmd, data, kept) && after
                    == placement::after_placing(TermView { state: kept, ..term }, id, cmd);
            law_transmission_keeps_the_rest(term.state, cmd, data, kept);
        },
        _ => {},
    }
}

/// A graphic that is inserted is the image shown, pixel for pixel and side for side,
/// and opaque exactly where it has no alpha.
pub proof fn law_insertion_is_the_image_shown(
    insertion: Insertion,
    image: Raster,
    bytes: int,
    cmd: KittyCommand,
    cursor: Point,
)
    requires
        insertion.shows(image, bytes, cmd, cursor),
    ensures
        insertion.pixels@ == image.pixels,
        insertion.width == image.width,
        insertion.height == image.height,
        insertion.color_type == image.color_type,
        insertion.is_opaque <==> image.color_type == ColorType::Rgb,
        insertion.saved_cursor is Some <==> cmd.cursor_movement == 1,
        insertion.saved_cursor is Some ==> insertion.saved_cursor->0 == cursor,
{
}

/// Pixels are needed by transmissions of images and frames, and by queries that come
/// with some; nothing else waits for them.
pub proof fn law_pixels_are_needed_to_transmit(cmd: KittyCommand)
    ensures
        cmd.action == Action::Transmit || cmd.action == Action::TransmitAndDisplay || cmd.action
            == Action::TransmitFrame ==> kitty::needs_decoding(cmd),
        cmd.action == Action::Query ==> kitty::needs_decoding(cmd) == (cmd.payload@.len() != 0),
        cmd.action == Action::Display || cmd.action == Action::Delete || cmd.action
            == Action::AnimationControl || cmd.action == Action::ComposeFrames
            ==> !kitty::needs_decoding(cmd),
{
}

/// Refusals say why: what is missing, and of which image or frame.
pub proof fn law_refusals_say_why(term: TermView, cmd: KittyCommand, data: GraphicData)
    ensures
        ({
            let s = term.state;
            let id = text::decimal(cmd.image_id as nat);
            let frames = s.animations[cmd.image_id].frames.len();
            let have = " out of range (have "@ + text::decimal(frames) + " frames)"@;
            let frame = animation::frame_error(s, cmd, Ok(data));
            let compose = animation::compose_error(s, cmd);
            &&& cmd.image_id == 0 ==> frame == Some("image_id is required for animation frames"@)
            &&& cmd.image_id != 0 && frame is Some ==> frame == Some(
                "image id="@ + id + " not found"@,
            )
            &&& cmd.image_id == 0 ==> compose == Some("image_id is required for compose"@)
            &&& cmd.image_id != 0 && cmd.columns == 0 ==> compose == Some(
                "source frame must be > 0"@,
            )
            &&& cmd.image_id != 0 && cmd.columns != 0 && cmd.rows == 0 ==> compose == Some(
                "target frame must be > 0"@,
            )
            &&& cmd.image_id != 0 && cmd.columns != 0 && cmd.rows != 0
                && !s.animations.contains_key(cmd.image_id) ==> compose == Some(
                "no animation for image id="@ + id,
            )
            &&& cmd.image_id != 0 && cmd.rows != 0 && s.animations.contains_key(cmd.image_id)
                && cmd.columns > frames ==> compose == Some(
                "source"@ + " frame "@ + text::decimal(cmd.columns as nat) + have,
            )
            &&& cmd.image_id != 0 && 0 < cmd.columns <= frames && s.animations.contains_key(
                cmd.image_id,
            ) && cmd.rows > frames ==> compose == Some(
                "target"@ + " frame "@ + text::decimal(cmd.rows as nat) + have,
            )
            &&& cmd.image_id != 0 && !s.images.contains_key(cmd.image_id) ==> kitty::displayed(
                term,
                cmd,
            ) == Err::<Raster, _>("image id="@ + id + " not found in storage"@)
            &&& cmd.image_id == 0 && cmd.image_number == 0 ==> kitty::displayed(term, cmd) == Err::<
                Raster,
                _,
            >("image not found"@)
        }),
{
    let frames = frame_count(term, cmd);
    assert("source"@ + " frame "@ + text::decimal(cmd.columns as nat) + " out of range (have "@
        + text::decimal(frames) + " frames)"@ =~= "source"@ + " frame "@ + text::decimal(
        cmd.columns as nat,
    ) + (" out of range (have "@ + text::decimal(frames) + " frames)"@));
    assert("target"@ + " frame "@ + text::decimal(cmd.rows as nat) + " out of range (have "@
        + text::decimal(frames) + " frames)"@ =~= "target"@ + " frame "@ + text::decimal(
        cmd.rows as nat,
    ) + (" out of range (have "@ + text::decimal(frames) + " frames)"@));
}

/// The number of frames of the image that a command names.
spec fn frame_count(term: TermView, cmd: KittyCommand) -> nat {
    term.state.animations[cmd.image_id].frames.len()
}

/// A command whose payload could not be decoded changes nothing, inserts nothing
/// and is answered with the error, unless it is a query that wants no answer.
pub proof fn law_undecodable_payload_is_refused(
    term: TermView,
    cmd: KittyCommand,
    e: String,
    after: TermView,
    outcome: Outcome,
)
    requires
        kitty::needs_decoding(cmd),
        kitty::finishes(term, cmd, Err(e), after, outcome),
    ensures
        after == term,
        outcome.insertion is None,
        told_error(outcome) == if cmd.action == Action::Query && cmd.quiet == Quiet::SuppressAll {
            None
        } else {
            Some(e@)
        },
{
}

/// A display or composition that is refused changes nothing and inserts nothing.
pub proof fn law_refused_command_changes_nothing(
    term: TermView,
    cmd: KittyCommand,
    after: TermView,
    outcome: Outcome,
)
    requires
        kitty::performs(term, cmd, after, outcome),
        told_error(outcome) is Some,
    ensures
        after == term,
        outcome.insertion is None,
{
}

/// A query changes nothing and inserts nothing. It is answered unless the quiet
/// mode holds the answer back: `q=1` a success, `q=2` everything.
pub proof fn law_query_only_answers(
    term: TermView,
    cmd: KittyCommand,
    decoded: Result<GraphicData, String>,
    after: TermView,
    outcome: Outcome,
)
    requires
        cmd.action == Action::Query,
        runs(term, cmd, decoded, after, outcome),
    ensures
        after == term,
        outcome.insertion is None,
        outcome.reply is Some <==> cmd.quiet == Quiet::Off || cmd.quiet == Quiet::SuppressOk
            && kitty::needs_decoding(cmd) && decoded is Err,
{
}

/// No command moves the cursor or touches bookmarks; where a graphic is inserted,
/// the cursor is to go back exactly when the command asks for that.
pub proof fn law_commands_leave_the_cursor(
    term: TermView,
    cmd: KittyCommand,
    decoded: Result<GraphicData, String>,
    after: TermView,
    outcome: Outcome,
)
    requires
        kitty::performs(term, cmd, after, outcome) || kitty::needs_decoding(cmd)
            && kitty::finishes(term, cmd, decoded, after, outcome),
    ensures
        after == (TermView { state: after.state, ..term }),
        outcome.insertion is Some ==> (outcome.insertion->0).saved_cursor == (
        if cmd.cursor_movement == 1 {
            Some(term.cursor)
        } else {
            None
        }),
{
}

// ── Invariants ─────────────────────────────────────────────────────────

/// Whether `after` is what a command makes of `term`.
pub open spec fn runs(
    term: TermView,
    cmd: KittyCommand,
    decoded: Result<GraphicData, String>,
    after: TermView,
    outcome: Outcome,
) -> bool {
    if kitty::needs_decoding(cmd) {
        kitty::can_finish(term, cmd, decoded) && kitty::finishes(
            term,
            cmd,
            decoded,
            after,
            outcome,
        )
    } else {
        kitty::can_perform(term, cmd) && kitty::performs(term, cmd, after, outcome)
    }
}

/// No command puts the books of the image storage out of balance.
pub proof fn law_commands_keep_books(
    term: TermView,
    cmd: KittyCommand,
    decoded: Result<GraphicData, String>,
    after: TermView,
    outcome: Outcome,
)
    requires
        state::books_balance(term.state),
        runs(term, cmd, decoded, after, outcome),
    ensures
        state::books_balance(after.state),
{
    let target = match cmd.delete {
        Some(target) => target,
        None => DeleteTarget::All,
    };
    state::law_deleting_keeps_books(
        term.state,
        target,
        cmd,
        term.cursor.column,
        term.cursor.line as usize,
    );
    match (cmd.action, decoded) {
        (Action::Transmit, Ok(data)) => {
            lemma_transmission_keeps_books(term.state, cmd, data, after.state);
        },
        (Action::TransmitAndDisplay, Ok(data)) => {
            let kept = choose|kept: StateView| #[trigger]
                kitty::transmitted(term.state, cmd, data, kept) && after
                    == placement::after_placing(
                    TermView { state: kept, ..term },
                    placement::assigned_id(term.state, cmd),
                    cmd,
                );
            lemma_transmission_keeps_books(term.state, cmd, data, kept);
            state::law_use_keeps_books(kept, placement::assigned_id(term.state, cmd));
        },
        (Action::Display, _) => {
            match placement::named_image(term.state, cmd) {
                Some(id) => {
                    state::law_use_keeps_books(term.state, id);
                },
                None => {},
            }
        },
        _ => {},
    }
}

proof fn lemma_transmission_keeps_books(
    s: StateView,
    cmd: KittyCommand,
    data: GraphicData,
    after: StateView,
)
    requires
        state::books_balance(s),
        kitty::can_store(s, cmd, data),
        kitty::transmitted(s, cmd, data, after),
    ensures
        state::books_balance(after),
{
    let assigned = placement::id_assigned(s, cmd);
    let id = placement::assigned_id(s, cmd);
    assert(assigned.free_of(id) == s.free_of(id));
    let kept = choose|kept: StateView| #[trigger]
        assigned.stored(id, data, kept) && after == placement::number_mapped(kept, cmd, id);
    state::law_storing_keeps_books(assigned, id, data, kept);
}

/// Whether an animation has a first frame, and frames that can be allocated.
pub open spec fn playable(anim: AnimationView) -> bool {
    &&& anim.frames.len() > 0
    &&& forall|i: int|
        0 <= i < anim.frames.len() ==> graphics::area_fits(
            (#[trigger] anim.frames[i]).width as int,
            anim.frames[i].height as int,
        )
}

/// Whether every image and every animation of a state can be drawn on.
pub open spec fn drawable(s: StateView) -> bool {
    &&& forall|id: u32| #[trigger]
        s.images.contains_key(id) ==> graphics::area_fits(
            s.images[id].data.width as int,
            s.images[id].data.height as int,
        )
    &&& forall|id: u32| #[trigger] s.animations.contains_key(id) ==> playable(s.animations[id])
}

/// In a state that can be drawn on, every frame can be loaded and every
/// composition carried out.
pub proof fn law_drawable_state_takeframe_count(
    term: TermView,
    cmd: KittyCommand,
    decoded: Result<GraphicData, String>,
)
    requires
        drawable(term.state),
    ensures
        cmd.action == Action::TransmitFrame ==> kitty::can_finish(term, cmd, decoded),
        cmd.action == Action::ComposeFrames ==> kitty::can_perform(term, cmd),
{
    if cmd.action == Action::TransmitFrame && animation::frame_error(term.state, cmd, decoded) is None {
        if term.state.animations.contains_key(cmd.image_id) {
            assert(playable(term.state.animations[cmd.image_id]));
        }
    }
    if cmd.action == Action::ComposeFrames && animation::compose_error(term.state, cmd) is None {
        let anim = term.state.animations[cmd.image_id];
        assert(playable(anim));
        let source = anim.frames[cmd.columns - 1];
        assert(graphics::area_fits(source.width as int, source.height as int));
    }
}

/// A state that can be drawn on stays one, whatever the commands, as long as
/// payloads decode to images that can be allocated.
pub proof fn law_commands_keep_state_drawable(
    term: TermView,
    cmd: KittyCommand,
    decoded: Result<GraphicData, String>,
    after: TermView,
    outcome: Outcome,
)
    requires
        drawable(term.state),
        decoded is Ok ==> graphics::area_fits(
            decoded->Ok_0.width as int,
            decoded->Ok_0.height as int,
        ),
        runs(term, cmd, decoded, after, outcome),
    ensures
        drawable(after.state),
{
    let s = term.state;
    match cmd.action {
        Action::TransmitFrame => {
            if animation::frame_error(s, cmd, decoded) is None {
                let anim = animation::animation_of(s, cmd.image_id);
                assert(playable(anim)) by {
                    if !s.animations.contains_key(cmd.image_id) {
                        assert(s.images.contains_key(cmd.image_id));
                    }
                }
                let frame = animation::new_frame(anim, cmd, decoded->Ok_0);
                let more = anim.with_frame(frame, animation::edited_frame(anim, cmd.rows));
                assert(graphics::area_fits(frame.width as int, frame.height as int)) by {
                    assert(graphics::area_fits(
                        anim.frames[0].width as int,
                        anim.frames[0].height as int,
                    ));
                }
                assert forall|i: int| 0 <= i < more.frames.len() implies graphics::area_fits(
                    (#[trigger] more.frames[i]).width as int,
                    more.frames[i].height as int,
                ) by {
                    if more.frames[i] != frame {
                        assert(more.frames[i] == anim.frames[i]);
                    }
                }
                assert(playable(more));
            }
        },
        Action::ComposeFrames => {
            if animation::compose_error(s, cmd) is None {
                let anim = s.animations[cmd.image_id];
                assert(playable(anim));
                let mode = animation::mode_of(cmd.offset_x);
                let result = anim.with_composed(cmd.columns - 1, cmd.rows - 1, mode);
                assert forall|i: int| 0 <= i < result.frames.len() implies graphics::area_fits(
                    (#[trigger] result.frames[i]).width as int,
                    result.frames[i].height as int,
                ) by {
                    assert(graphics::area_fits(
                        anim.frames[i].width as int,
                        anim.frames[i].height as int,
                    ));
                }
                assert(playable(result));
            }
        },
        Action::AnimationControl => {
            if cmd.image_id != 0 && s.animations.contains_key(cmd.image_id) {
                let anim = s.animations[cmd.image_id];
                assert(playable(anim));
                let result = animation::controlled(anim, cmd);
                assert forall|i: int| 0 <= i < result.frames.len() implies graphics::area_fits(
                    (#[trigger] result.frames[i]).width as int,
                    result.frames[i].height as int,
                ) by {
                    assert(graphics::area_fits(
                        anim.frames[i].width as int,
                        anim.frames[i].height as int,
                    ));
                }
                assert(playable(result));
            }
        },
        Action::Delete => {
            assert forall|id: u32| #[trigger]
                after.state.animations.contains_key(id) implies playable(
                after.state.animations[id],
            ) by {
                assert(s.animations.contains_key(id));
            }
            assert forall|id: u32| #[trigger]
                after.state.images.contains_key(id) implies graphics::area_fits(
                after.state.images[id].data.width as int,
                after.state.images[id].data.height as int,
            ) by {
                assert(s.images.contains_key(id));
            }
        },
        _ => {},
    }
}

/// An empty state can be drawn on.
pub proof fn law_empty_state_is_drawable()
    ensures
        drawable(StateView::empty()),
{
}

} // verus!
