//! Kitty graphics protocol implementation.
//!
//! - `state`: Image storage, quota management, chunked transfer state
//! - `placement`: Image placement on the terminal grid, cropping, ID resolution
//! - `animation`: Animation frames, their composition and playback
//!
//! Decoding a payload may read files, and replies go to the terminal's client:
//! both are left to the host. `dispatch_command` takes a command as far as it
//! gets without pixels, `dispatch_decoded` finishes it, and both say in an
//! `Outcome` what the host is to insert and to reply.
//!
//! See: <https://sw.kovidgoyal.net/kitty/graphics-protocol/>
use base64::Engine;
use vstd::prelude::*;
use vstd::slice::slice_to_vec;

use crate::graphics::GraphicData;
use crate::kitty_parser;
use crate::kitty_parser::{
    Action, Compression, DeleteTarget, Format, KittyCommand, Medium, Quiet,
};
use crate::term::{Term, TermView};
use crate::text;
use crate::text::push_decimal;

pub mod animation;
pub mod placement;
pub mod state;

pub use self::state::{KittyImage, KittyLoadingImage, KittyPlacement, KittyState};

use self::placement::{
    can_place_data, can_place_image, place_image, resolve_image_id, resolve_or_assign_id, Insertion,
    Raster,
};
use self::state::{LoadingView, StateView};

verus! {

// ── Chunked Transfer ───────────────────────────────────────────────────

/// Why base64 text could not be decoded.
#[verifier::external_type_specification]
#[verifier::external_body]
pub struct ExDecodeError(base64::DecodeError);

/// The bytes that base64 text stands for, by the standard alphabet and with or
/// without padding; nothing where it is no such text.
pub uninterp spec fn base64_decoded(text: Seq<u8>) -> Option<Seq<u8>>;

/// Decodes base64 text.
///
/// Calls `base64::Engine::decode` of a `base64::engine::GeneralPurpose` with the
/// standard alphabet, for which padding is optional. Whether it succeeds, and
/// with which bytes, depends on the text alone; which bytes they are is left to
/// the name `base64_decoded`.
#[verifier::external_body]
fn decode_base64(text: &[u8]) -> (r: Result<Vec<u8>, base64::DecodeError>)
    ensures
        match r {
            Ok(bytes) => base64_decoded(text@) == Some(bytes@),
            Err(_) => base64_decoded(text@) is None,
        },
{
    let config = base64::engine::GeneralPurposeConfig::new().with_decode_padding_mode(
        base64::engine::DecodePaddingMode::Indifferent,
    );
    base64::engine::GeneralPurpose::new(&base64::alphabet::STANDARD, config).decode(text)
}

/// The raw bytes of a chunk: decoded base64 for direct transmission, nothing
/// where that fails; the payload itself for the other media.
pub open spec fn chunk_bytes(medium: Medium, payload: Seq<u8>) -> Seq<u8> {
    if payload.len() == 0 || medium != Medium::Direct {
        payload
    } else {
        match base64_decoded(payload) {
            Some(bytes) => bytes,
            None => Seq::empty(),
        }
    }
}

/// Decode a single chunk's base64 payload into raw bytes.
///
/// For `Medium::Direct`, this decodes base64 immediately. For file/shm
/// mediums the payload is a path, so we pass it through unchanged (it
/// will only appear in single-shot transfers, not chunked).
pub fn decode_chunk_payload(medium: Medium, payload: &[u8]) -> (r: Vec<u8>)
    ensures
        r@ == chunk_bytes(medium, payload@),
{
    if payload.len() == 0 {
        return Vec::new();
    }
    if medium != Medium::Direct {
        // File/shm mediums: payload is a base64 path — keep as-is.
        return slice_to_vec(payload);
    }
    // Decode this chunk's base64 independently. This handles clients
    // like chafa that base64-encode each chunk separately (with padding)
    // rather than splitting one big base64 string across chunks.
    match decode_base64(payload) {
        Ok(bytes) => bytes,
        Err(_) => Vec::new(),
    }
}

/// Whether a key of the value `key` says nothing new beside one of the value
/// `first`: it is left out, which gives it the value `absent`, or repeated.
pub open spec fn repeats<T>(key: T, first: T, absent: T) -> bool {
    key == absent || key == first
}

/// Whether `cmd` gives no key a value of its own, `m=` and `q=` apart: each is left
/// out, or as in `first`.
pub open spec fn repeats_keys(first: KittyCommand, cmd: KittyCommand) -> bool {
    let absent = kitty_parser::blank(cmd.payload);
    &&& repeats(cmd.action, first.action, absent.action)
    &&& repeats(cmd.image_id, first.image_id, absent.image_id)
    &&& repeats(cmd.image_number, first.image_number, absent.image_number)
    &&& repeats(cmd.placement_id, first.placement_id, absent.placement_id)
    &&& repeats(cmd.format, first.format, absent.format)
    &&& repeats(cmd.medium, first.medium, absent.medium)
    &&& repeats(cmd.compression, first.compression, absent.compression)
    &&& repeats(cmd.width, first.width, absent.width)
    &&& repeats(cmd.height, first.height, absent.height)
    &&& repeats(cmd.data_size, first.data_size, absent.data_size)
    &&& repeats(cmd.data_offset, first.data_offset, absent.data_offset)
    &&& repeats(cmd.src_x, first.src_x, absent.src_x)
    &&& repeats(cmd.src_y, first.src_y, absent.src_y)
    &&& repeats(cmd.src_w, first.src_w, absent.src_w)
    &&& repeats(cmd.src_h, first.src_h, absent.src_h)
    &&& repeats(cmd.offset_x, first.offset_x, absent.offset_x)
    &&& repeats(cmd.offset_y, first.offset_y, absent.offset_y)
    &&& repeats(cmd.columns, first.columns, absent.columns)
    &&& repeats(cmd.rows, first.rows, absent.rows)
    &&& repeats(cmd.z_index, first.z_index, absent.z_index)
    &&& repeats(cmd.cursor_movement, first.cursor_movement, absent.cursor_movement)
    &&& repeats(cmd.virtual_placement, first.virtual_placement, absent.virtual_placement)
    &&& repeats(cmd.parent_id, first.parent_id, absent.parent_id)
    &&& repeats(cmd.parent_placement_id, first.parent_placement_id, absent.parent_placement_id)
    &&& repeats(cmd.horizontal_offset, first.horizontal_offset, absent.horizontal_offset)
    &&& repeats(cmd.vertical_offset, first.vertical_offset, absent.vertical_offset)
    &&& repeats(cmd.delete, first.delete, absent.delete)
    &&& repeats(cmd.anim_state, first.anim_state, absent.anim_state)
    &&& repeats(cmd.gap_ms, first.gap_ms, absent.gap_ms)
    &&& repeats(cmd.compose_mode, first.compose_mode, absent.compose_mode)
    &&& repeats(cmd.background, first.background, absent.background)
    &&& repeats(cmd.loops, first.loops, absent.loops)
}

/// Whether a command transmits an image or a frame.
pub open spec fn transmits(cmd: KittyCommand) -> bool {
    match cmd.action {
        Action::Transmit | Action::TransmitAndDisplay | Action::TransmitFrame => true,
        _ => false,
    }
}

/// Whether `cmd` continues a transfer that `first` began: it is no new
/// transmission, for which it would have to give a key another value.
pub open spec fn continues(first: KittyCommand, cmd: KittyCommand) -> bool {
    transmits(cmd) ==> repeats_keys(first, cmd)
}

/// The transfer after a chunk of `bytes`: appended to the transfer under way
/// where the command continues it, else the start of one for the command `cmd`,
/// which cancels the one under way.
pub open spec fn with_chunk(
    loading: Option<LoadingView>,
    cmd: KittyCommand,
    bytes: Seq<u8>,
) -> LoadingView {
    match loading {
        Some(l) if continues(l.command, cmd) => LoadingView { data: l.data + bytes, ..l },
        _ => LoadingView { command: cmd, data: bytes },
    }
}

fn is_repeated(key: u32, first: u32) -> (r: bool)
    ensures
        r == repeats(key, first, 0),
{
    key == 0 || key == first
}

fn is_repeated_signed(key: i32, first: i32) -> (r: bool)
    ensures
        r == repeats(key, first, 0),
{
    key == 0 || key == first
}

fn is_delete_repeated(key: Option<DeleteTarget>, first: Option<DeleteTarget>) -> (r: bool)
    ensures
        r == repeats(key, first, None),
{
    match (key, first) {
        (Some(k), Some(f)) => k == f,
        (Some(_), None) => false,
        _ => true,
    }
}

fn is_continuation(first: &KittyCommand, cmd: &KittyCommand) -> (r: bool)
    ensures
        r == continues(*first, *cmd),
{
    match cmd.action {
        Action::Transmit | Action::TransmitAndDisplay | Action::TransmitFrame => {},
        _ => {
            return true;
        },
    }
    let image_keys: bool = is_repeated(cmd.image_id, first.image_id) && is_repeated(
        cmd.image_number,
        first.image_number,
    ) && is_repeated(cmd.placement_id, first.placement_id);
    let data_keys: bool = (cmd.format == Format::Rgba || cmd.format == first.format) && (cmd.medium
        == Medium::Direct || cmd.medium == first.medium) && (cmd.compression == Compression::Off
        || cmd.compression == first.compression) && is_repeated(cmd.width, first.width)
        && is_repeated(cmd.height, first.height) && is_repeated(cmd.data_size, first.data_size)
        && is_repeated(cmd.data_offset, first.data_offset);
    let rect_keys: bool = is_repeated(cmd.src_x, first.src_x) && is_repeated(cmd.src_y, first.src_y)
        && is_repeated(cmd.src_w, first.src_w) && is_repeated(cmd.src_h, first.src_h)
        && is_repeated(cmd.offset_x, first.offset_x) && is_repeated(cmd.offset_y, first.offset_y)
        && is_repeated(cmd.columns, first.columns) && is_repeated(cmd.rows, first.rows);
    let display_keys: bool = is_repeated_signed(cmd.z_index, first.z_index) && is_repeated(
        cmd.cursor_movement,
        first.cursor_movement,
    ) && is_repeated(cmd.virtual_placement, first.virtual_placement) && is_repeated(
        cmd.parent_id,
        first.parent_id,
    ) && is_repeated(cmd.parent_placement_id, first.parent_placement_id) && is_repeated_signed(
        cmd.horizontal_offset,
        first.horizontal_offset,
    ) && is_repeated_signed(cmd.vertical_offset, first.vertical_offset) && is_delete_repeated(
        cmd.delete,
        first.delete,
    );
    let frame_keys: bool = is_repeated(cmd.anim_state, first.anim_state) && is_repeated_signed(
        cmd.gap_ms,
        first.gap_ms,
    ) && is_repeated(cmd.compose_mode, first.compose_mode) && is_repeated(
        cmd.background,
        first.background,
    ) && is_repeated(cmd.loops, first.loops);
    let action: bool = cmd.action == Action::Transmit || cmd.action == first.action;
    action && image_keys && data_keys && rect_keys && display_keys && frame_keys
}

/// Takes in the decoded bytes of a chunk that is not the last.
pub fn append_chunk(state: &mut KittyState, cmd: KittyCommand, decoded: Vec<u8>)
    ensures
        final(state)@ == (StateView {
            loading: Some(with_chunk(old(state)@.loading, cmd, decoded@)),
            ..old(state)@
        }),
{
    match state.loading.take() {
        Some(mut loading) if is_continuation(&loading.command, &cmd) => {
            loading.data.extend_from_slice(decoded.as_slice());
            state.loading = Some(loading);
        },
        _ => {
            state.loading = Some(KittyLoadingImage { command: cmd, data: decoded });
        },
    }
    assert(state@.loading->0 =~= with_chunk(old(state)@.loading, cmd, decoded@));
}

/// The terminal after a chunk that is not the last.
pub open spec fn chunk_received(term: TermView, cmd: KittyCommand) -> TermView {
    TermView {
        state: StateView {
            loading: Some(
                with_chunk(term.state.loading, cmd, chunk_bytes(cmd.medium, cmd.payload@)),
            ),
            ..term.state
        },
        ..term
    }
}

/// Start or continue a chunked transfer (m=1).
pub fn handle_chunk_start(term: &mut Term, cmd: KittyCommand)
    ensures
        final(term)@ == chunk_received(old(term)@, cmd),
{
    let decoded: Vec<u8> = decode_chunk_payload(cmd.medium, cmd.payload.as_slice());
    append_chunk(&mut term.graphics.kitty_state, cmd, decoded);
}

/// Whether `cmd` is the command of a transfer whose last chunk is `bytes`: that
/// of the first chunk, with all the decoded bytes as its payload.
pub open spec fn merges_to(loading: LoadingView, bytes: Seq<u8>, cmd: KittyCommand) -> bool {
    &&& cmd.payload@ == loading.data + bytes
    &&& cmd == (KittyCommand {
        payload: cmd.payload,
        more_chunks: false,
        pre_decoded: true,
        ..loading.command
    })
}

/// Completes a transfer with the decoded bytes of its last chunk.
pub fn merge_chunk(loading: KittyLoadingImage, decoded: Vec<u8>) -> (r: KittyCommand)
    ensures
        merges_to(loading@, decoded@, r),
{
    let mut data = loading.data;
    data.extend_from_slice(decoded.as_slice());
    assert(data@ =~= loading@.data + decoded@);
    let mut cmd = loading.command;
    cmd.payload = data;
    cmd.more_chunks = false;
    cmd.pre_decoded = true;
    cmd
}

/// Finalize a chunked transfer by merging the last chunk.
///
/// Returns a command whose `payload` contains the fully decoded raw bytes
/// and whose `pre_decoded` flag is set so that decoding skips base64.
pub fn finalize_chunked(loading: KittyLoadingImage, final_cmd: KittyCommand) -> (r: KittyCommand)
    ensures
        merges_to(
            loading@,
            chunk_bytes(loading.command.medium, final_cmd.payload@),
            r,
        ),
{
    let decoded: Vec<u8> = decode_chunk_payload(
        loading.command.medium,
        final_cmd.payload.as_slice(),
    );
    merge_chunk(loading, decoded)
}

// ── Replies ────────────────────────────────────────────────────────────

/// A reply to the client.
#[derive(Debug)]
pub enum Reply {
    /// The result of a command, to be sent unless the quiet mode holds it back.
    Send {
        /// Quiet mode of the command.
        quiet: Quiet,
        /// Image ID to reply with.
        image_id: u32,
        /// The result.
        result: Result<(), String>,
    },
    /// A query succeeded.
    QueryOk {
        /// Image ID to reply with.
        image_id: u32,
    },
    /// A query failed.
    QueryError {
        /// Image ID to reply with.
        image_id: u32,
        /// Error code.
        code: String,
        /// Error message.
        message: String,
    },
}

/// What a reply says.
pub enum ReplyView {
    Send { quiet: Quiet, image_id: u32, error: Option<Seq<char>> },
    QueryOk { image_id: u32 },
    QueryError { image_id: u32, code: Seq<char>, message: Seq<char> },
}

impl View for Reply {
    type V = ReplyView;

    open spec fn view(&self) -> ReplyView {
        match *self {
            Reply::Send { quiet, image_id, result } => ReplyView::Send {
                quiet,
                image_id,
                error: error_of(result),
            },
            Reply::QueryOk { image_id } => ReplyView::QueryOk { image_id },
            Reply::QueryError { image_id, code, message } => ReplyView::QueryError {
                image_id,
                code: code@,
                message: message@,
            },
        }
    }
}

/// The error message of a result, if it is an error.
pub open spec fn error_of<T>(r: Result<T, String>) -> Option<Seq<char>> {
    match r {
        Ok(_) => None,
        Err(e) => Some(e@),
    }
}

/// What the host is to do for a command.
#[derive(Debug)]
pub struct Outcome {
    /// A graphic to insert at the cursor.
    pub insertion: Option<Insertion>,
    /// A reply to send.
    pub reply: Option<Reply>,
}

impl Outcome {
    /// Whether there is nothing to insert, and to reply what `reply` says.
    pub open spec fn only_replies(self, reply: Option<ReplyView>) -> bool {
        &&& self.insertion is None
        &&& reply_view(self.reply) == reply
    }

    /// Whether `image`, of `bytes` bytes, is to be inserted as `cmd` asks, or nothing
    /// where there is an error, and the result to be replied for `image_id`.
    pub open spec fn answers(
        self,
        image: Result<Raster, Seq<char>>,
        bytes: int,
        term: TermView,
        cmd: KittyCommand,
        image_id: u32,
    ) -> bool {
        &&& match image {
            Ok(image) => self.insertion is Some && self.insertion->0.shows(
                image,
                bytes,
                cmd,
                term.cursor,
            ),
            Err(_) => self.insertion is None,
        }
        &&& self.reply is Some && self.reply->0@ == (ReplyView::Send {
            quiet: cmd.quiet,
            image_id,
            error: match image {
                Ok(_) => None,
                Err(e) => Some(e),
            },
        })
    }
}

// ── Action Handlers ────────────────────────────────────────────────────

/// Whether the bytes of an image can be counted with those of the others.
pub open spec fn can_store(s: StateView, cmd: KittyCommand, data: GraphicData) -> bool {
    s.free_of(placement::assigned_id(s, cmd)) + data.pixels.len() <= usize::MAX
}

/// Whether storing the image of a command may turn `s` into `after`: it gets its
/// ID, it is stored under it, and its number, if it has one, stands for it.
pub open spec fn transmitted(
    s: StateView,
    cmd: KittyCommand,
    data: GraphicData,
    after: StateView,
) -> bool {
    let id = placement::assigned_id(s, cmd);
    exists|kept: StateView| #[trigger]
        placement::id_assigned(s, cmd).stored(id, data, kept) && after == placement::number_mapped(
            kept,
            cmd,
            id,
        )
}

/// Stores the image of a command under the ID it gives or gets.
fn receive_image(term: &mut Term, cmd: &KittyCommand, data: GraphicData) -> (r: u32)
    requires
        can_store(old(term)@.state, *cmd, data),
    ensures
        r == placement::assigned_id(old(term)@.state, *cmd),
        transmitted(old(term)@.state, *cmd, data, final(term)@.state),
        final(term)@ == (TermView { state: final(term)@.state, ..old(term)@ }),
{
    let image_id: u32 = resolve_or_assign_id(term, cmd);
    term.graphics.kitty_state.store_image(image_id, data);
    let ghost kept = term@.state;
    // Making room may have dropped the number, for want of its image.
    if cmd.image_number != 0 {
        term.graphics.kitty_state.map_number(cmd.image_number, image_id);
    }
    assert(placement::id_assigned(old(term)@.state, *cmd).stored(image_id, data, kept));
    image_id
}

/// The image ID that a transmission is answered with: the one it gives, or the
/// one that was assigned to its image number.
pub open spec fn answered_id(
    s: StateView,
    cmd: KittyCommand,
    decoded: Result<GraphicData, String>,
) -> u32 {
    if cmd.image_id == 0 && cmd.image_number != 0 && decoded is Ok {
        placement::assigned_id(s, cmd)
    } else {
        cmd.image_id
    }
}

/// Handle `a=t` (transmit only, don't display).
///
/// Returns the image ID to answer with, and the result.
pub fn handle_transmit(
    term: &mut Term,
    cmd: &KittyCommand,
    decoded: Result<GraphicData, String>,
) -> (r: (u32, Result<(), String>))
    requires
        decoded is Ok ==> can_store(old(term)@.state, *cmd, decoded->Ok_0),
    ensures
        r.0 == answered_id(old(term)@.state, *cmd, decoded),
        match decoded {
            Ok(data) => r.1 is Ok && transmitted(
                old(term)@.state,
                *cmd,
                data,
                final(term)@.state,
            ) && final(term)@ == (TermView { state: final(term)@.state, ..old(term)@ }),
            Err(e) => r.1 == Err::<(), String>(e) && final(term)@ == old(term)@,
        },
{
    match decoded {
        Ok(data) => {
            let image_id: u32 = receive_image(term, cmd, data);
            (reply_id(cmd, image_id), Ok(()))
        },
        Err(e) => (cmd.image_id, Err(e)),
    }
}

/// The image ID to answer with, given the one that the image is stored under.
fn reply_id(cmd: &KittyCommand, image_id: u32) -> (r: u32)
    ensures
        r == if cmd.image_id == 0 && cmd.image_number != 0 {
            image_id
        } else {
            cmd.image_id
        },
{
    if cmd.image_id == 0 && cmd.image_number != 0 {
        image_id
    } else {
        cmd.image_id
    }
}

/// What `a=T` puts on the grid, or why it fails.
pub open spec fn displayed_on_arrival(
    term: TermView,
    cmd: KittyCommand,
    decoded: Result<GraphicData, String>,
) -> Result<Raster, Seq<char>> {
    match decoded {
        Ok(data) => placement::shown(data, cmd, term.cell_width, term.cell_height),
        Err(e) => Err(e@),
    }
}

/// The number of bytes of what `a=T` puts on the grid.
pub open spec fn bytes_on_arrival(
    term: TermView,
    cmd: KittyCommand,
    decoded: Result<GraphicData, String>,
) -> int {
    match decoded {
        Ok(data) => placement::shown_bytes(data, cmd, term.cell_width, term.cell_height),
        Err(_) => 0,
    }
}

/// Whether `a=T` may turn `term` into `after`: the image is stored, then placed
/// where it can be shown.
pub open spec fn shown_on_arrival(
    term: TermView,
    cmd: KittyCommand,
    decoded: Result<GraphicData, String>,
    after: TermView,
) -> bool {
    match decoded {
        Ok(data) => exists|kept: StateView| #[trigger]
            transmitted(term.state, cmd, data, kept) && after == placement::after_placing(
                TermView { state: kept, ..term },
                placement::assigned_id(term.state, cmd),
                cmd,
            ),
        Err(_) => after == term,
    }
}

/// The image ID that `a=T` is answered with: that of `a=t`, but the image number
/// where no ID was assigned to it.
pub open spec fn answered_id_on_arrival(
    s: StateView,
    cmd: KittyCommand,
    decoded: Result<GraphicData, String>,
) -> u32 {
    if cmd.image_id == 0 && decoded is Err {
        cmd.image_number
    } else {
        answered_id(s, cmd, decoded)
    }
}

/// Handle `a=T` (transmit and display).
///
/// Returns the image ID to answer with, and the result.
pub fn handle_transmit_and_display(
    term: &mut Term,
    cmd: &KittyCommand,
    decoded: Result<GraphicData, String>,
) -> (r: (u32, Result<Insertion, String>))
    requires
        decoded is Ok ==> can_store(old(term)@.state, *cmd, decoded->Ok_0)
            && placement::place_defined(
            decoded->Ok_0,
            *cmd,
            old(term)@.cell_width,
            old(term)@.cell_height,
        ),
    ensures
        r.0 == answered_id_on_arrival(old(term)@.state, *cmd, decoded),
        shown_on_arrival(old(term)@, *cmd, decoded, final(term)@),
        match r.1 {
            Ok(insertion) => displayed_on_arrival(old(term)@, *cmd, decoded) is Ok
                && insertion.shows(
                displayed_on_arrival(old(term)@, *cmd, decoded)->Ok_0,
                bytes_on_arrival(old(term)@, *cmd, decoded),
                *cmd,
                old(term)@.cursor,
            ),
            Err(e) => displayed_on_arrival(old(term)@, *cmd, decoded) == Err::<Raster, _>(e@),
        },
{
    match decoded {
        Ok(data) => {
            let image_id: u32 = receive_image(term, cmd, data);
            let ghost kept = term@;
            assert(transmitted(old(term)@.state, *cmd, data, kept.state));
            let result = place_image(term, image_id, cmd);
            (reply_id(cmd, image_id), result)
        },
        Err(e) => {
            let resolved_id: u32 = if cmd.image_id != 0 {
                cmd.image_id
            } else {
                cmd.image_number
            };
            (resolved_id, Err(e))
        },
    }
}

/// What a query is answered, given what its payload decoded to; a query without
/// a payload succeeds. The quiet mode holds back success, or everything.
pub open spec fn query_reply(
    cmd: KittyCommand,
    decoded: Option<Result<GraphicData, String>>,
) -> Option<ReplyView> {
    let image_id = if cmd.image_id != 0 {
        cmd.image_id
    } else {
        1
    };
    match decoded {
        Some(Err(e)) => if cmd.quiet == Quiet::SuppressAll {
            None
        } else {
            Some(ReplyView::QueryError { image_id, code: "EINVAL"@, message: e@ })
        },
        _ => if cmd.quiet == Quiet::Off {
            Some(ReplyView::QueryOk { image_id })
        } else {
            None
        },
    }
}

/// What a reply that may be held back says.
pub open spec fn reply_view(reply: Option<Reply>) -> Option<ReplyView> {
    match reply {
        Some(r) => Some(r@),
        None => None,
    }
}

/// Handle `a=q` (query).
pub fn handle_query(cmd: &KittyCommand, decoded: Option<Result<GraphicData, String>>) -> (r: Option<
    Reply,
>)
    ensures
        reply_view(r) == query_reply(*cmd, decoded),
{
    let image_id: u32 = if cmd.image_id != 0 {
        cmd.image_id
    } else {
        1
    };
    match decoded {
        Some(Err(e)) => {
            if cmd.quiet == Quiet::SuppressAll {
                None
            } else {
                Some(Reply::QueryError { image_id, code: "EINVAL".to_string(), message: e })
            }
        },
        _ => {
            if cmd.quiet == Quiet::Off {
                Some(Reply::QueryOk { image_id })
            } else {
                None
            }
        },
    }
}

/// What `a=p` puts on the grid, or why it fails.
pub open spec fn displayed(term: TermView, cmd: KittyCommand) -> Result<Raster, Seq<char>> {
    match placement::named_image(term.state, cmd) {
        None => Err("image not found"@),
        Some(id) => if term.state.images.contains_key(id) {
            placement::placed_image(term, id, cmd)
        } else {
            Err("image id="@ + text::decimal(id as nat) + " not found in storage"@)
        },
    }
}

/// The number of bytes of what `a=p` puts on the grid.
pub open spec fn displayed_bytes(term: TermView, cmd: KittyCommand) -> int {
    match placement::named_image(term.state, cmd) {
        None => 0,
        Some(id) => placement::placed_bytes(term, id, cmd),
    }
}

/// Whether the image that `a=p` names, if it is stored, can be placed.
pub open spec fn can_display(term: TermView, cmd: KittyCommand) -> bool {
    placement::named_image(term.state, cmd) is Some ==> placement::can_place(
        term,
        placement::named_image(term.state, cmd)->0,
        cmd,
    )
}

/// The terminal after `a=p`: with the placement of what is put on the grid, or
/// unchanged where it fails.
pub open spec fn after_display(term: TermView, cmd: KittyCommand) -> TermView {
    match placement::named_image(term.state, cmd) {
        Some(id) => placement::after_placing(term, id, cmd),
        None => term,
    }
}

/// Handle `a=p` (display a previously transmitted image).
pub fn handle_display(term: &mut Term, cmd: &KittyCommand) -> (r: Result<Insertion, String>)
    requires
        can_display(old(term)@, *cmd),
    ensures
        match r {
            Ok(insertion) => displayed(old(term)@, *cmd) is Ok && insertion.shows(
                displayed(old(term)@, *cmd)->Ok_0,
                displayed_bytes(old(term)@, *cmd),
                *cmd,
                old(term)@.cursor,
            ),
            Err(e) => displayed(old(term)@, *cmd) == Err::<Raster, _>(e@),
        },
        final(term)@ == after_display(old(term)@, *cmd),
{
    match resolve_image_id(&term.graphics.kitty_state, cmd) {
        None => Err("image not found".to_string()),
        Some(image_id) => {
            if term.graphics.kitty_state.get_image(image_id).is_none() {
                let mut e = "image id=".to_string();
                push_decimal(&mut e, image_id as u64);
                e.append(" not found in storage");
                return Err(e);
            }
            place_image(term, image_id, cmd)
        },
    }
}

/// The state after `a=d`; without a target everything goes.
pub open spec fn after_delete(term: TermView, cmd: KittyCommand) -> StateView {
    let target = match cmd.delete {
        Some(target) => target,
        None => DeleteTarget::All,
    };
    term.state.deleted(target, cmd, term.cursor.column, term.cursor.line as usize)
}

/// Handle `a=d` (delete).
pub fn handle_delete(term: &mut Term, cmd: &KittyCommand)
    ensures
        final(term)@ == (TermView { state: after_delete(old(term)@, *cmd), ..old(term)@ }),
{
    let target = match cmd.delete {
        Some(target) => target,
        None => DeleteTarget::All,
    };
    let cursor_col: usize = term.grid.cursor.point.column;
    let cursor_row: usize = term.grid.cursor.point.line as usize;
    term.graphics.kitty_state.delete(target, cmd, cursor_col, cursor_row);
}

// ── Dispatch ───────────────────────────────────────────────────────────

/// How far a command got.
#[derive(Debug)]
pub enum Step {
    /// The payload of this command is to be decoded, and the command finished
    /// with `dispatch_decoded`.
    Decode(KittyCommand),
    /// The command is done.
    Finish(Outcome),
}

/// Whether a command cannot be finished without its pixels.
pub open spec fn needs_decoding(cmd: KittyCommand) -> bool {
    match cmd.action {
        Action::Transmit | Action::TransmitAndDisplay | Action::TransmitFrame => true,
        Action::Query => cmd.payload@.len() > 0,
        _ => false,
    }
}

/// Whether `cmd` is the command that `received`, which has no more chunks
/// following, completes: that of the transfer under way, else `received` itself.
pub open spec fn completes(
    loading: Option<LoadingView>,
    received: KittyCommand,
    cmd: KittyCommand,
) -> bool {
    match loading {
        Some(l) => merges_to(l, chunk_bytes(l.command.medium, received.payload@), cmd),
        None => cmd == received,
    }
}

/// The terminal with no transfer under way.
pub open spec fn transfer_over(term: TermView) -> TermView {
    TermView { state: StateView { loading: None, ..term.state }, ..term }
}

/// What a command that needs no decoding does: what is in `after` and `outcome`.
pub open spec fn performs(
    term: TermView,
    cmd: KittyCommand,
    after: TermView,
    outcome: Outcome,
) -> bool {
    match cmd.action {
        Action::Query => after == term && outcome.only_replies(query_reply(cmd, None)),
        Action::Display => after == after_display(term, cmd) && outcome.answers(
            displayed(term, cmd),
            displayed_bytes(term, cmd),
            term,
            cmd,
            cmd.image_id,
        ),
        Action::Delete => after == (TermView { state: after_delete(term, cmd), ..term })
            && outcome.only_replies(None),
        Action::AnimationControl => after == (TermView {
            state: animation::animation_controlled(term.state, cmd),
            ..term
        }) && outcome.only_replies(None),
        Action::ComposeFrames => {
            let error = animation::compose_error(term.state, cmd);
            &&& after == match error {
                Some(_) => term,
                None => TermView { state: animation::frames_composed(term.state, cmd), ..term },
            }
            &&& outcome.only_replies(
                Some(ReplyView::Send { quiet: cmd.quiet, image_id: cmd.image_id, error }),
            )
        },
        _ => false,
    }
}

/// Whether a command that needs no decoding can be carried out.
pub open spec fn can_perform(term: TermView, cmd: KittyCommand) -> bool {
    match cmd.action {
        Action::Display => can_display(term, cmd),
        Action::ComposeFrames => animation::compose_error(term.state, cmd) is None
            ==> animation::source_fits(term.state, cmd),
        _ => true,
    }
}

/// Whether a received command can be carried out. Its payload does not matter.
pub open spec fn can_receive(term: TermView, received: KittyCommand) -> bool {
    !received.more_chunks ==> can_perform(
        transfer_over(term),
        match term.state.loading {
            Some(l) => l.command,
            None => received,
        },
    )
}

/// Carries out a command that needs no decoding.
fn perform(term: &mut Term, cmd: &KittyCommand) -> (r: Outcome)
    requires
        !needs_decoding(*cmd),
        can_perform(old(term)@, *cmd),
    ensures
        performs(old(term)@, *cmd, final(term)@, r),
{
    match cmd.action {
        Action::Display => {
            let result = handle_display(term, cmd);
            let (insertion, sent) = split_result(result);
            let reply = Reply::Send { quiet: cmd.quiet, image_id: cmd.image_id, result: sent };
            Outcome { insertion, reply: Some(reply) }
        },
        Action::Delete => {
            handle_delete(term, cmd);
            Outcome { insertion: None, reply: None }
        },
        Action::AnimationControl => {
            animation::control_animation(&mut term.graphics.kitty_state, cmd);
            Outcome { insertion: None, reply: None }
        },
        Action::ComposeFrames => {
            let result = animation::compose_frames(&mut term.graphics.kitty_state, cmd);
            let reply = Reply::Send { quiet: cmd.quiet, image_id: cmd.image_id, result };
            Outcome { insertion: None, reply: Some(reply) }
        },
        _ => Outcome { insertion: None, reply: handle_query(cmd, None) },
    }
}

/// Parts a result into what is inserted and what is replied.
fn split_result(result: Result<Insertion, String>) -> (r: (Option<Insertion>, Result<(), String>))
    ensures
        match result {
            Ok(insertion) => r.0 == Some(insertion) && r.1 is Ok,
            Err(e) => r.0 is None && r.1 == Err::<(), String>(e),
        },
{
    match result {
        Ok(insertion) => (Some(insertion), Ok(())),
        Err(e) => (None, Err(e)),
    }
}

/// Whether a received command may turn `term` into `after` and get as far as `step`:
/// a chunk is taken in; the last one, or a command of its own, is carried out or has to
/// be decoded first.
pub open spec fn dispatches(
    term: TermView,
    received: KittyCommand,
    after: TermView,
    step: Step,
) -> bool {
    if received.more_chunks {
        &&& step is Finish
        &&& step->Finish_0.only_replies(None)
        &&& after == chunk_received(term, received)
    } else {
        exists|whole: KittyCommand| #[trigger]
            completes(term.state.loading, received, whole) && match step {
                Step::Decode(c) => c == whole && needs_decoding(whole) && after == transfer_over(
                    term,
                ),
                Step::Finish(outcome) => !needs_decoding(whole) && performs(
                    transfer_over(term),
                    whole,
                    after,
                    outcome,
                ),
            }
    }
}

/// Process a fully parsed kitty graphics command.
pub fn dispatch_command(term: &mut Term, cmd: KittyCommand) -> (r: Step)
    requires
        can_receive(old(term)@, cmd),
    ensures
        dispatches(old(term)@, cmd, final(term)@, r),
{
    // Handle chunked transfer accumulation.
    if cmd.more_chunks {
        handle_chunk_start(term, cmd);
        return Step::Finish(Outcome { insertion: None, reply: None });
    }
    let ghost received = cmd;
    // Check if this is the final chunk of a multi-chunk transfer.
    let cmd = match term.graphics.kitty_state.loading.take() {
        Some(loading) => finalize_chunked(loading, cmd),
        None => cmd,
    };
    assert(completes(old(term)@.state.loading, received, cmd));
    assert(term@ == transfer_over(old(term)@));
    if is_decoding_needed(&cmd) {
        Step::Decode(cmd)
    } else {
        Step::Finish(perform(term, &cmd))
    }
}

fn is_decoding_needed(cmd: &KittyCommand) -> (r: bool)
    ensures
        r == needs_decoding(*cmd),
{
    match cmd.action {
        Action::Transmit | Action::TransmitAndDisplay | Action::TransmitFrame => true,
        Action::Query => cmd.payload.len() > 0,
        _ => false,
    }
}

/// Whether a command can be finished with what its payload decoded to.
pub open spec fn can_finish(
    term: TermView,
    cmd: KittyCommand,
    decoded: Result<GraphicData, String>,
) -> bool {
    match cmd.action {
        Action::Transmit => decoded is Ok ==> can_store(term.state, cmd, decoded->Ok_0),
        Action::TransmitAndDisplay => decoded is Ok ==> can_store(term.state, cmd, decoded->Ok_0)
            && placement::place_defined(decoded->Ok_0, cmd, term.cell_width, term.cell_height),
        Action::TransmitFrame => animation::frame_error(term.state, cmd, decoded) is None
            ==> animation::has_canvas(term.state, cmd.image_id),
        _ => true,
    }
}

/// What a command does with what its payload decoded to: what is in `after` and
/// `outcome`.
pub open spec fn finishes(
    term: TermView,
    cmd: KittyCommand,
    decoded: Result<GraphicData, String>,
    after: TermView,
    outcome: Outcome,
) -> bool {
    match cmd.action {
        Action::Transmit => {
            &&& match decoded {
                Ok(data) => transmitted(term.state, cmd, data, after.state) && after == (TermView {
                    state: after.state,
                    ..term
                }),
                Err(_) => after == term,
            }
            &&& outcome.only_replies(
                Some(
                    ReplyView::Send {
                        quiet: cmd.quiet,
                        image_id: answered_id(term.state, cmd, decoded),
                        error: error_of(decoded),
                    },
                ),
            )
        },
        Action::TransmitAndDisplay => shown_on_arrival(term, cmd, decoded, after)
            && outcome.answers(
            displayed_on_arrival(term, cmd, decoded),
            bytes_on_arrival(term, cmd, decoded),
            term,
            cmd,
            answered_id_on_arrival(term.state, cmd, decoded),
        ),
        Action::TransmitFrame => {
            let error = animation::frame_error(term.state, cmd, decoded);
            &&& after == match error {
                Some(_) => term,
                None => TermView {
                    state: animation::frame_loaded(term.state, cmd, decoded->Ok_0),
                    ..term
                },
            }
            &&& outcome.only_replies(
                Some(ReplyView::Send { quiet: cmd.quiet, image_id: cmd.image_id, error }),
            )
        },
        _ => after == term && outcome.only_replies(query_reply(cmd, Some(decoded))),
    }
}

/// Finishes a command with what its payload decoded to.
pub fn dispatch_decoded(
    term: &mut Term,
    cmd: &KittyCommand,
    decoded: Result<GraphicData, String>,
) -> (r: Outcome)
    requires
        needs_decoding(*cmd),
        can_finish(old(term)@, *cmd, decoded),
    ensures
        finishes(old(term)@, *cmd, decoded, final(term)@, r),
{
    match cmd.action {
        Action::Transmit => {
            let (image_id, result) = handle_transmit(term, cmd, decoded);
            let reply = Reply::Send { quiet: cmd.quiet, image_id, result };
            Outcome { insertion: None, reply: Some(reply) }
        },
        Action::TransmitAndDisplay => {
            let (image_id, result) = handle_transmit_and_display(term, cmd, decoded);
            let (insertion, sent) = split_result(result);
            let reply = Reply::Send { quiet: cmd.quiet, image_id, result: sent };
            Outcome { insertion, reply: Some(reply) }
        },
        Action::TransmitFrame => {
            let result = animation::load_animation_frame(
                &mut term.graphics.kitty_state,
                cmd,
                decoded,
            );
            let reply = Reply::Send { quiet: cmd.quiet, image_id: cmd.image_id, result };
            Outcome { insertion: None, reply: Some(reply) }
        },
        _ => Outcome { insertion: None, reply: handle_query(cmd, Some(decoded)) },
    }
}

// ── Checks for callers ─────────────────────────────────────────────────

/// What `dispatch_command` asks of its caller.
pub fn can_dispatch(term: &Term, cmd: &KittyCommand) -> (r: bool)
    ensures
        r == can_receive(term@, *cmd),
{
    if cmd.more_chunks {
        return true;
    }
    let governing = match &term.graphics.kitty_state.loading {
        Some(loading) => &loading.command,
        None => cmd,
    };
    match governing.action {
        Action::Display => match resolve_image_id(&term.graphics.kitty_state, governing) {
            Some(image_id) => can_place_image(term, image_id, governing),
            None => true,
        },
        Action::ComposeFrames => animation::can_compose(&term.graphics.kitty_state, governing),
        _ => true,
    }
}

/// Whether the bytes of an image can be counted with those of the others.
fn can_store_image(term: &Term, cmd: &KittyCommand, data: &GraphicData) -> (r: bool)
    ensures
        r == can_store(term@.state, *cmd, *data),
{
    let image_id: u32 = if cmd.image_id != 0 {
        cmd.image_id
    } else {
        term.graphics.kitty_state.peek_id()
    };
    let used: usize = term.graphics.kitty_state.used_memory;
    let free_of: usize = match term.graphics.kitty_state.get_image(image_id) {
        Some(img) => used.saturating_sub(img.total_bytes),
        None => used,
    };
    data.pixels.len() <= usize::MAX - free_of
}

/// What `dispatch_decoded` asks of its caller.
pub fn can_dispatch_decoded(
    term: &Term,
    cmd: &KittyCommand,
    decoded: &Result<GraphicData, String>,
) -> (r: bool)
    ensures
        r == (needs_decoding(*cmd) && can_finish(term@, *cmd, *decoded)),
{
    is_decoding_needed(cmd) && match cmd.action {
        Action::Transmit => match decoded {
            Ok(data) => can_store_image(term, cmd, data),
            Err(_) => true,
        },
        Action::TransmitAndDisplay => match decoded {
            Ok(data) => can_store_image(term, cmd, data) && can_place_data(
                data,
                cmd,
                term.graphics.cell_width,
                term.graphics.cell_height,
            ),
            Err(_) => true,
        },
        Action::TransmitFrame => animation::can_load_frame(
            &term.graphics.kitty_state,
            cmd,
            decoded,
        ),
        _ => true,
    }
}

} // verus!
