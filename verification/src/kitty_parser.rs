//! Kitty graphics protocol parser.
//!
//! Parses the `key=value` format used in kitty graphics APC sequences.
//! See: <https://sw.kovidgoyal.net/kitty/graphics-protocol/>
use vstd::prelude::*;
use vstd::slice::{slice_subrange, slice_to_vec};

use crate::text;
use crate::text::{parse_i32, parse_u32};

verus! {

/// Action type for the kitty graphics command.
#[derive(Debug, Clone, Copy, PartialEq, Eq, Structural)]
pub enum Action {
    /// `a=t` — Transmit image data (default).
    Transmit,
    /// `a=T` — Transmit and display.
    TransmitAndDisplay,
    /// `a=q` — Query terminal support.
    Query,
    /// `a=p` — Display a previously transmitted image.
    Display,
    /// `a=d` — Delete images/placements.
    Delete,
    /// `a=f` — Transmit animation frame.
    TransmitFrame,
    /// `a=a` — Control animation.
    AnimationControl,
    /// `a=c` — Compose animation frames.
    ComposeFrames,
}

impl Action {
    /// The action that the letter `b` names.
    pub open spec fn of_byte(b: u8) -> Option<Action> {
        match b as char {
            't' => Some(Action::Transmit),
            'T' => Some(Action::TransmitAndDisplay),
            'q' => Some(Action::Query),
            'p' => Some(Action::Display),
            'd' => Some(Action::Delete),
            'f' => Some(Action::TransmitFrame),
            'a' => Some(Action::AnimationControl),
            'c' => Some(Action::ComposeFrames),
            _ => None,
        }
    }

    /// The action that the letter `b` names.
    pub fn from_byte(b: u8) -> (r: Option<Self>)
        ensures
            r == Self::of_byte(b),
    {
        match b as char {
            't' => Some(Action::Transmit),
            'T' => Some(Action::TransmitAndDisplay),
            'q' => Some(Action::Query),
            'p' => Some(Action::Display),
            'd' => Some(Action::Delete),
            'f' => Some(Action::TransmitFrame),
            'a' => Some(Action::AnimationControl),
            'c' => Some(Action::ComposeFrames),
            _ => None,
        }
    }
}

/// Image data format.
#[derive(Debug, Clone, Copy, PartialEq, Eq, Structural)]
pub enum Format {
    /// `f=24` — 24-bit RGB.
    Rgb,
    /// `f=32` — 32-bit RGBA (default).
    Rgba,
    /// `f=100` — PNG.
    Png,
}

impl Format {
    /// The format that the number `v` names.
    pub open spec fn of_u32(v: u32) -> Option<Format> {
        match v {
            24 => Some(Format::Rgb),
            32 => Some(Format::Rgba),
            100 => Some(Format::Png),
            _ => None,
        }
    }

    /// The format that the number `v` names.
    pub fn from_u32(v: u32) -> (r: Option<Self>)
        ensures
            r == Self::of_u32(v),
    {
        match v {
            24 => Some(Format::Rgb),
            32 => Some(Format::Rgba),
            100 => Some(Format::Png),
            _ => None,
        }
    }
}

/// Transmission medium.
#[derive(Debug, Clone, Copy, PartialEq, Eq, Structural)]
pub enum Medium {
    /// `t=d` — Direct (inline base64, default).
    Direct,
    /// `t=f` — Regular file.
    File,
    /// `t=t` — Temporary file.
    TempFile,
    /// `t=s` — Shared memory.
    SharedMemory,
}

impl Medium {
    /// The medium that the letter `b` names.
    pub open spec fn of_byte(b: u8) -> Option<Medium> {
        match b as char {
            'd' => Some(Medium::Direct),
            'f' => Some(Medium::File),
            't' => Some(Medium::TempFile),
            's' => Some(Medium::SharedMemory),
            _ => None,
        }
    }

    /// The medium that the letter `b` names.
    pub fn from_byte(b: u8) -> (r: Option<Self>)
        ensures
            r == Self::of_byte(b),
    {
        match b as char {
            'd' => Some(Medium::Direct),
            'f' => Some(Medium::File),
            't' => Some(Medium::TempFile),
            's' => Some(Medium::SharedMemory),
            _ => None,
        }
    }
}

/// Compression type.
#[derive(Debug, Clone, Copy, PartialEq, Eq, Structural)]
pub enum Compression {
    /// No compression.
    Off,
    /// `o=z` — zlib/deflate.
    Zlib,
}

impl Compression {
    /// The compression that the letter `b` names.
    pub open spec fn of_byte(b: u8) -> Option<Compression> {
        match b as char {
            'z' => Some(Compression::Zlib),
            _ => None,
        }
    }

    /// The compression that the letter `b` names.
    pub fn from_byte(b: u8) -> (r: Option<Self>)
        ensures
            r == Self::of_byte(b),
    {
        match b as char {
            'z' => Some(Compression::Zlib),
            _ => None,
        }
    }
}

/// Quiet mode for response suppression.
#[derive(Debug, Clone, Copy, PartialEq, Eq, Structural)]
pub enum Quiet {
    /// `q=0` — Send all responses (default).
    Off,
    /// `q=1` — Suppress OK responses.
    SuppressOk,
    /// `q=2` — Suppress all responses.
    SuppressAll,
}

impl Quiet {
    /// The quiet mode that the number `v` names.
    pub open spec fn of_u32(v: u32) -> Option<Quiet> {
        match v {
            0 => Some(Quiet::Off),
            1 => Some(Quiet::SuppressOk),
            2 => Some(Quiet::SuppressAll),
            _ => None,
        }
    }

    /// The quiet mode that the number `v` names.
    pub fn from_u32(v: u32) -> (r: Option<Self>)
        ensures
            r == Self::of_u32(v),
    {
        match v {
            0 => Some(Quiet::Off),
            1 => Some(Quiet::SuppressOk),
            2 => Some(Quiet::SuppressAll),
            _ => None,
        }
    }
}

/// Delete target for `a=d` commands.
#[derive(Debug, Clone, Copy, PartialEq, Eq, Structural)]
pub enum DeleteTarget {
    /// `d=a` — All visible placements.
    All,
    /// `d=A` — All placements (visible and in scrollback).
    AllIncludingScrollback,
    /// `d=i` — By image ID (visible).
    ById,
    /// `d=I` — By image ID (including scrollback).
    ByIdIncludingScrollback,
    /// `d=n` — By image number (visible).
    ByNumber,
    /// `d=N` — By image number (including scrollback).
    ByNumberIncludingScrollback,
    /// `d=c` — At cursor position (visible).
    AtCursor,
    /// `d=C` — At cursor position (including scrollback).
    AtCursorIncludingScrollback,
    /// `d=f` — Animation frames by image ID.
    AnimationFrames,
    /// `d=F` — Animation frames by image ID (including scrollback).
    AnimationFramesIncludingScrollback,
    /// `d=p` — By placement ID (visible).
    ByPlacementId,
    /// `d=P` — By placement ID (including scrollback).
    ByPlacementIdIncludingScrollback,
    /// `d=q` — By column range (visible).
    ByColumn,
    /// `d=Q` — By column range (including scrollback).
    ByColumnIncludingScrollback,
    /// `d=r` — By row range (visible).
    ByRow,
    /// `d=R` — By row range (including scrollback).
    ByRowIncludingScrollback,
    /// `d=x` — By cell position (visible).
    ByCell,
    /// `d=X` — By cell position (including scrollback).
    ByCellIncludingScrollback,
    /// `d=y` — By cell position with z-index (visible).
    ByCellZ,
    /// `d=Y` — By cell position with z-index (including scrollback).
    ByCellZIncludingScrollback,
    /// `d=z` — By z-index (visible).
    ByZIndex,
    /// `d=Z` — By z-index (including scrollback).
    ByZIndexIncludingScrollback,
}

impl DeleteTarget {
    /// The target that the letter `b` names.
    pub open spec fn of_byte(b: u8) -> Option<DeleteTarget> {
        match b as char {
            'a' => Some(DeleteTarget::All),
            'A' => Some(DeleteTarget::AllIncludingScrollback),
            'i' => Some(DeleteTarget::ById),
            'I' => Some(DeleteTarget::ByIdIncludingScrollback),
            'n' => Some(DeleteTarget::ByNumber),
            'N' => Some(DeleteTarget::ByNumberIncludingScrollback),
            'c' => Some(DeleteTarget::AtCursor),
            'C' => Some(DeleteTarget::AtCursorIncludingScrollback),
            'f' => Some(DeleteTarget::AnimationFrames),
            'F' => Some(DeleteTarget::AnimationFramesIncludingScrollback),
            'p' => Some(DeleteTarget::ByPlacementId),
            'P' => Some(DeleteTarget::ByPlacementIdIncludingScrollback),
            'q' => Some(DeleteTarget::ByColumn),
            'Q' => Some(DeleteTarget::ByColumnIncludingScrollback),
            'r' => Some(DeleteTarget::ByRow),
            'R' => Some(DeleteTarget::ByRowIncludingScrollback),
            'x' => Some(DeleteTarget::ByCell),
            'X' => Some(DeleteTarget::ByCellIncludingScrollback),
            'y' => Some(DeleteTarget::ByCellZ),
            'Y' => Some(DeleteTarget::ByCellZIncludingScrollback),
            'z' => Some(DeleteTarget::ByZIndex),
            'Z' => Some(DeleteTarget::ByZIndexIncludingScrollback),
            _ => None,
        }
    }

    /// The target that the letter `b` names.
    pub fn from_byte(b: u8) -> (r: Option<Self>)
        ensures
            r == Self::of_byte(b),
    {
        match b as char {
            'a' => Some(DeleteTarget::All),
            'A' => Some(DeleteTarget::AllIncludingScrollback),
            'i' => Some(DeleteTarget::ById),
            'I' => Some(DeleteTarget::ByIdIncludingScrollback),
            'n' => Some(DeleteTarget::ByNumber),
            'N' => Some(DeleteTarget::ByNumberIncludingScrollback),
            'c' => Some(DeleteTarget::AtCursor),
            'C' => Some(DeleteTarget::AtCursorIncludingScrollback),
            'f' => Some(DeleteTarget::AnimationFrames),
            'F' => Some(DeleteTarget::AnimationFramesIncludingScrollback),
            'p' => Some(DeleteTarget::ByPlacementId),
            'P' => Some(DeleteTarget::ByPlacementIdIncludingScrollback),
            'q' => Some(DeleteTarget::ByColumn),
            'Q' => Some(DeleteTarget::ByColumnIncludingScrollback),
            'r' => Some(DeleteTarget::ByRow),
            'R' => Some(DeleteTarget::ByRowIncludingScrollback),
            'x' => Some(DeleteTarget::ByCell),
            'X' => Some(DeleteTarget::ByCellIncludingScrollback),
            'y' => Some(DeleteTarget::ByCellZ),
            'Y' => Some(DeleteTarget::ByCellZIncludingScrollback),
            'z' => Some(DeleteTarget::ByZIndex),
            'Z' => Some(DeleteTarget::ByZIndexIncludingScrollback),
            _ => None,
        }
    }
}

/// Parsed kitty graphics command.
///
/// Contains all the fields from a kitty graphics APC sequence. Not all fields
/// are meaningful for every action — they are overloaded based on context.
#[derive(Debug, Clone)]
pub struct KittyCommand {
    /// Action type (`a=`). Default: Transmit.
    pub action: Action,
    /// Quiet mode (`q=`). Default: Off.
    pub quiet: Quiet,
    /// Image ID (`i=`).
    pub image_id: u32,
    /// Image number (`I=`).
    pub image_number: u32,
    /// Placement ID (`p=`).
    pub placement_id: u32,
    /// Image data format (`f=`). Default: Rgba.
    pub format: Format,
    /// Transmission medium (`t=`). Default: Direct.
    pub medium: Medium,
    /// Compression (`o=`). Default: Off.
    pub compression: Compression,
    /// More chunks follow (`m=`). Default: false.
    pub more_chunks: bool,
    /// Pixel width of source data (`s=`).
    pub width: u32,
    /// Pixel height of source data (`v=`).
    pub height: u32,
    /// Data size in bytes (`S=`).
    pub data_size: u32,
    /// Data offset (`O=`).
    pub data_offset: u32,
    /// Source rect x (`x=`).
    pub src_x: u32,
    /// Source rect y (`y=`).
    pub src_y: u32,
    /// Source rect width (`w=`).
    pub src_w: u32,
    /// Source rect height (`h=`).
    pub src_h: u32,
    /// Cell pixel X offset (`X=`).
    pub offset_x: u32,
    /// Cell pixel Y offset (`Y=`).
    pub offset_y: u32,
    /// Display columns (`c=`).
    pub columns: u32,
    /// Display rows (`r=`).
    pub rows: u32,
    /// Z-index (`z=`), signed.
    pub z_index: i32,
    /// Cursor movement control (`C=`). 0=move (default), 1=don't move.
    pub cursor_movement: u32,
    /// Virtual placement (`U=`). 0=false, 1=true.
    pub virtual_placement: u32,
    /// Parent image ID for relative placement (`P=`).
    pub parent_id: u32,
    /// Parent placement ID for relative placement (`Q=`).
    pub parent_placement_id: u32,
    /// Horizontal offset for relative placement (`H=`), signed.
    pub horizontal_offset: i32,
    /// Vertical offset for relative placement (`V=`), signed.
    pub vertical_offset: i32,
    /// Delete target (`d=`).
    pub delete: Option<DeleteTarget>,
    /// Animation state for control (`s=` in animation context).
    pub anim_state: u32,
    /// Frame gap in ms (`z=` in animation frame context), signed.
    pub gap_ms: i32,
    /// Composition mode for animation frames (`X=` in frame context).
    pub compose_mode: u32,
    /// Background pixel color for animation (`Y=` in frame context).
    pub background: u32,
    /// Loop count for animation (`v=` in animation control context).
    pub loops: u32,
    /// The raw base64 payload bytes (after `;`), or pre-decoded raw bytes
    /// if `pre_decoded` is true (set by chunked transfer finalization).
    pub payload: Vec<u8>,
    /// When true, `payload` contains already-decoded raw bytes (not base64).
    /// Set by `finalize_chunked` after per-chunk base64 decoding.
    pub pre_decoded: bool,
}

/// The command without keys, carrying `payload`.
pub open spec fn blank(payload: Vec<u8>) -> KittyCommand {
    KittyCommand {
        action: Action::Transmit,
        quiet: Quiet::Off,
        image_id: 0,
        image_number: 0,
        placement_id: 0,
        format: Format::Rgba,
        medium: Medium::Direct,
        compression: Compression::Off,
        more_chunks: false,
        width: 0,
        height: 0,
        data_size: 0,
        data_offset: 0,
        src_x: 0,
        src_y: 0,
        src_w: 0,
        src_h: 0,
        offset_x: 0,
        offset_y: 0,
        columns: 0,
        rows: 0,
        z_index: 0,
        cursor_movement: 0,
        virtual_placement: 0,
        parent_id: 0,
        parent_placement_id: 0,
        horizontal_offset: 0,
        vertical_offset: 0,
        delete: None,
        anim_state: 0,
        gap_ms: 0,
        compose_mode: 0,
        background: 0,
        loops: 0,
        payload,
        pre_decoded: false,
    }
}

impl Default for KittyCommand {
    fn default() -> (r: Self)
        ensures
            r == blank(r.payload),
            r.payload@ == Seq::<u8>::empty(),
    {
        KittyCommand {
            action: Action::Transmit,
            quiet: Quiet::Off,
            image_id: 0,
            image_number: 0,
            placement_id: 0,
            format: Format::Rgba,
            medium: Medium::Direct,
            compression: Compression::Off,
            more_chunks: false,
            width: 0,
            height: 0,
            data_size: 0,
            data_offset: 0,
            src_x: 0,
            src_y: 0,
            src_w: 0,
            src_h: 0,
            offset_x: 0,
            offset_y: 0,
            columns: 0,
            rows: 0,
            z_index: 0,
            cursor_movement: 0,
            virtual_placement: 0,
            parent_id: 0,
            parent_placement_id: 0,
            horizontal_offset: 0,
            vertical_offset: 0,
            delete: None,
            anim_state: 0,
            gap_ms: 0,
            compose_mode: 0,
            background: 0,
            loops: 0,
            payload: Vec::new(),
            pre_decoded: false,
        }
    }
}

/// The `u32` that `value` writes, or `current` where it writes none.
pub open spec fn u32_or(value: Seq<u8>, current: u32) -> u32 {
    match text::parsed_u32(value) {
        Some(v) => v,
        None => current,
    }
}

/// The `i32` that `value` writes, or `current` where it writes none.
pub open spec fn i32_or(value: Seq<u8>, current: i32) -> i32 {
    match text::parsed_i32(value) {
        Some(v) => v,
        None => current,
    }
}

/// `cmd` with one key set. A value that does not fit its key, and an unknown
/// key, change nothing; only `d=` falls back to no target at an unknown letter.
pub open spec fn with_key(cmd: KittyCommand, key: u8, value: Seq<u8>) -> KittyCommand {
    match key as char {
        'a' => if value.len() > 0 {
            match Action::of_byte(value[0]) {
                Some(action) => KittyCommand { action, ..cmd },
                None => cmd,
            }
        } else {
            cmd
        },
        'q' => match text::parsed_u32(value) {
            Some(v) => match Quiet::of_u32(v) {
                Some(quiet) => KittyCommand { quiet, ..cmd },
                None => cmd,
            },
            None => cmd,
        },
        'f' => match text::parsed_u32(value) {
            Some(v) => match Format::of_u32(v) {
                Some(format) => KittyCommand { format, ..cmd },
                None => cmd,
            },
            None => cmd,
        },
        't' => if value.len() > 0 {
            match Medium::of_byte(value[0]) {
                Some(medium) => KittyCommand { medium, ..cmd },
                None => cmd,
            }
        } else {
            cmd
        },
        'o' => if value.len() > 0 {
            match Compression::of_byte(value[0]) {
                Some(compression) => KittyCommand { compression, ..cmd },
                None => cmd,
            }
        } else {
            cmd
        },
        'm' => match text::parsed_u32(value) {
            Some(v) => KittyCommand { more_chunks: v > 0, ..cmd },
            None => cmd,
        },
        'd' => if value.len() > 0 {
            KittyCommand { delete: DeleteTarget::of_byte(value[0]), ..cmd }
        } else {
            cmd
        },
        'i' => KittyCommand { image_id: u32_or(value, cmd.image_id), ..cmd },
        'I' => KittyCommand { image_number: u32_or(value, cmd.image_number), ..cmd },
        'p' => KittyCommand { placement_id: u32_or(value, cmd.placement_id), ..cmd },
        's' => KittyCommand { width: u32_or(value, cmd.width), ..cmd },
        'v' => KittyCommand { height: u32_or(value, cmd.height), ..cmd },
        'S' => KittyCommand { data_size: u32_or(value, cmd.data_size), ..cmd },
        'O' => KittyCommand { data_offset: u32_or(value, cmd.data_offset), ..cmd },
        'x' => KittyCommand { src_x: u32_or(value, cmd.src_x), ..cmd },
        'y' => KittyCommand { src_y: u32_or(value, cmd.src_y), ..cmd },
        'w' => KittyCommand { src_w: u32_or(value, cmd.src_w), ..cmd },
        'h' => KittyCommand { src_h: u32_or(value, cmd.src_h), ..cmd },
        'X' => KittyCommand { offset_x: u32_or(value, cmd.offset_x), ..cmd },
        'Y' => KittyCommand { offset_y: u32_or(value, cmd.offset_y), ..cmd },
        'c' => KittyCommand { columns: u32_or(value, cmd.columns), ..cmd },
        'r' => KittyCommand { rows: u32_or(value, cmd.rows), ..cmd },
        'z' => KittyCommand { z_index: i32_or(value, cmd.z_index), ..cmd },
        'C' => KittyCommand { cursor_movement: u32_or(value, cmd.cursor_movement), ..cmd },
        'U' => KittyCommand { virtual_placement: u32_or(value, cmd.virtual_placement), ..cmd },
        'P' => KittyCommand { parent_id: u32_or(value, cmd.parent_id), ..cmd },
        'Q' => KittyCommand { parent_placement_id: u32_or(value, cmd.parent_placement_id), ..cmd },
        'H' => KittyCommand { horizontal_offset: i32_or(value, cmd.horizontal_offset), ..cmd },
        'V' => KittyCommand { vertical_offset: i32_or(value, cmd.vertical_offset), ..cmd },
        _ => cmd,
    }
}

/// Applies a single `key=value` pair to the command.
pub fn apply_key_value(cmd: &mut KittyCommand, key: u8, value: &[u8])
    ensures
        *final(cmd) == with_key(*old(cmd), key, value@),
{
    match key as char {
        'a' => {
            if value.len() > 0 {
                if let Some(action) = Action::from_byte(value[0]) {
                    cmd.action = action;
                }
            }
        },
        'q' => {
            if let Some(v) = parse_u32(value) {
                if let Some(quiet) = Quiet::from_u32(v) {
                    cmd.quiet = quiet;
                }
            }
        },
        'f' => {
            if let Some(v) = parse_u32(value) {
                if let Some(format) = Format::from_u32(v) {
                    cmd.format = format;
                }
            }
        },
        't' => {
            if value.len() > 0 {
                if let Some(medium) = Medium::from_byte(value[0]) {
                    cmd.medium = medium;
                }
            }
        },
        'o' => {
            if value.len() > 0 {
                if let Some(compression) = Compression::from_byte(value[0]) {
                    cmd.compression = compression;
                }
            }
        },
        'm' => {
            if let Some(v) = parse_u32(value) {
                cmd.more_chunks = v > 0;
            }
        },
        'd' => {
            if value.len() > 0 {
                cmd.delete = DeleteTarget::from_byte(value[0]);
            }
        },
        'i' => {
            if let Some(v) = parse_u32(value) {
                cmd.image_id = v;
            }
        },
        'I' => {
            if let Some(v) = parse_u32(value) {
                cmd.image_number = v;
            }
        },
        'p' => {
            if let Some(v) = parse_u32(value) {
                cmd.placement_id = v;
            }
        },
        's' => {
            if let Some(v) = parse_u32(value) {
                cmd.width = v;
            }
        },
        'v' => {
            if let Some(v) = parse_u32(value) {
                cmd.height = v;
            }
        },
        'S' => {
            if let Some(v) = parse_u32(value) {
                cmd.data_size = v;
            }
        },
        'O' => {
            if let Some(v) = parse_u32(value) {
                cmd.data_offset = v;
            }
        },
        'x' => {
            if let Some(v) = parse_u32(value) {
                cmd.src_x = v;
            }
        },
        'y' => {
            if let Some(v) = parse_u32(value) {
                cmd.src_y = v;
            }
        },
        'w' => {
            if let Some(v) = parse_u32(value) {
                cmd.src_w = v;
            }
        },
        'h' => {
            if let Some(v) = parse_u32(value) {
                cmd.src_h = v;
            }
        },
        'X' => {
            if let Some(v) = parse_u32(value) {
                cmd.offset_x = v;
            }
        },
        'Y' => {
            if let Some(v) = parse_u32(value) {
                cmd.offset_y = v;
            }
        },
        'c' => {
            if let Some(v) = parse_u32(value) {
                cmd.columns = v;
            }
        },
        'r' => {
            if let Some(v) = parse_u32(value) {
                cmd.rows = v;
            }
        },
        'z' => {
            if let Some(v) = parse_i32(value) {
                cmd.z_index = v;
            }
        },
        'C' => {
            if let Some(v) = parse_u32(value) {
                cmd.cursor_movement = v;
            }
        },
        'U' => {
            if let Some(v) = parse_u32(value) {
                cmd.virtual_placement = v;
            }
        },
        'P' => {
            if let Some(v) = parse_u32(value) {
                cmd.parent_id = v;
            }
        },
        'Q' => {
            if let Some(v) = parse_u32(value) {
                cmd.parent_placement_id = v;
            }
        },
        'H' => {
            if let Some(v) = parse_i32(value) {
                cmd.horizontal_offset = v;
            }
        },
        'V' => {
            if let Some(v) = parse_i32(value) {
                cmd.vertical_offset = v;
            }
        },
        _ => {},
    }
}

/// Where `b` first stands in `s`, or the length of `s` where it does not.
pub open spec fn find(s: Seq<u8>, b: u8) -> nat
    decreases s.len(),
{
    if s.len() == 0 || s[0] == b {
        0
    } else {
        1 + find(s.skip(1), b)
    }
}

/// What precedes the first `b` in `s`; all of `s` where there is none.
pub open spec fn before(s: Seq<u8>, b: u8) -> Seq<u8> {
    s.take(find(s, b) as int)
}

/// What follows the first `b` in `s`; nothing where there is none.
pub open spec fn after(s: Seq<u8>, b: u8) -> Seq<u8> {
    if find(s, b) < s.len() {
        s.skip(find(s, b) as int + 1)
    } else {
        Seq::empty()
    }
}

/// The pieces of `s` between the bytes `b`.
pub open spec fn pieces(s: Seq<u8>, b: u8) -> Seq<Seq<u8>>
    decreases s.len(),
{
    if find(s, b) < s.len() {
        seq![before(s, b)] + pieces(after(s, b), b)
    } else {
        seq![s]
    }
}

/// `cmd` with the pair `pair` applied. A pair whose key is not one byte long
/// changes nothing.
pub open spec fn with_pair(cmd: KittyCommand, pair: Seq<u8>) -> KittyCommand {
    if before(pair, '=' as u8).len() == 1 {
        with_key(cmd, pair[0], after(pair, '=' as u8))
    } else {
        cmd
    }
}

/// `cmd` with `pairs` applied in order.
pub open spec fn with_pairs(cmd: KittyCommand, pairs: Seq<Seq<u8>>) -> KittyCommand
    decreases pairs.len(),
{
    if pairs.len() == 0 {
        cmd
    } else {
        with_pairs(with_pair(cmd, pairs[0]), pairs.skip(1))
    }
}

/// What parsing `data` gives: nothing where the part before the first `;` is
/// not UTF-8; else the blank command with the pairs of that part applied,
/// carrying what follows the `;`.
pub open spec fn parses_to(data: Seq<u8>, r: Option<KittyCommand>) -> bool {
    let keys = before(data, ';' as u8);
    match r {
        Some(cmd) => {
            &&& vstd::utf8::valid_utf8(keys)
            &&& cmd.payload@ == after(data, ';' as u8)
            &&& cmd == with_pairs(blank(cmd.payload), pieces(keys, ',' as u8))
        },
        None => !vstd::utf8::valid_utf8(keys),
    }
}

/// `find` is the only index with `b` at it and no `b` before it.
pub proof fn lemma_find(s: Seq<u8>, b: u8, i: int)
    requires
        0 <= i <= s.len(),
        forall|j: int| 0 <= j < i ==> s[j] != b,
        i < s.len() ==> s[i] == b,
    ensures
        find(s, b) == i,
    decreases s.len(),
{
    if i > 0 {
        assert(s[0] != b);
        assert forall|j: int| 0 <= j < i - 1 implies s.skip(1)[j] != b by {
            assert(s.skip(1)[j] == s[j + 1]);
        }
        lemma_find(s.skip(1), b, i - 1);
    }
}

/// `find` has no `b` before it, and `b` at it where there is one.
pub proof fn lemma_find_within(s: Seq<u8>, b: u8)
    ensures
        find(s, b) <= s.len(),
        find(s, b) < s.len() ==> s[find(s, b) as int] == b,
        forall|j: int| 0 <= j < find(s, b) ==> s[j] != b,
    decreases s.len(),
{
    if s.len() > 0 && s[0] != b {
        let rest = s.skip(1);
        lemma_find_within(rest, b);
        assert forall|j: int| 0 <= j < find(s, b) implies s[j] != b by {
            if j > 0 {
                assert(rest[j - 1] == s[j]);
            }
        }
    }
}

/// Where `b` first stands in `s`, or the length of `s` where it does not.
fn position(s: &[u8], b: u8) -> (r: usize)
    ensures
        r == find(s@, b),
        r <= s.len(),
{
    let mut i: usize = 0;
    while i < s.len()
        invariant_except_break
            i <= s.len(),
            forall|j: int| 0 <= j < i ==> s[j] != b,
        ensures
            i <= s.len(),
            forall|j: int| 0 <= j < i ==> s[j] != b,
            i < s.len() ==> s[i as int] == b,
        decreases s.len() - i,
    {
        if s[i] == b {
            break;
        }
        i = i + 1;
    }
    proof {
        lemma_find(s@, b, i as int);
    }
    i
}

/// What precedes and what follows the first `b` in `s`.
fn split_once(s: &[u8], b: u8) -> (r: (&[u8], &[u8]))
    ensures
        r.0@ == before(s@, b),
        r.1@ == after(s@, b),
        find(s@, b) <= s@.len(),
{
    let pos: usize = position(s, b);
    let first = slice_subrange(s, 0, pos);
    assert(first@ =~= before(s@, b));
    if pos < s.len() {
        let rest = slice_subrange(s, pos + 1, s.len());
        assert(rest@ =~= after(s@, b));
        (first, rest)
    } else {
        let rest = slice_subrange(s, pos, pos);
        assert(rest@ =~= after(s@, b));
        (first, rest)
    }
}

/// Whether `s` is valid UTF-8.
///
/// Calls `std::str::from_utf8`, which returns `Ok` exactly on valid UTF-8.
#[verifier::external_body]
fn is_utf8(s: &[u8]) -> (r: bool)
    ensures
        r == vstd::utf8::valid_utf8(s@),
{
    std::str::from_utf8(s).is_ok()
}

/// Applies one pair, `key=value` or a bare `key`.
fn apply_pair(cmd: &mut KittyCommand, pair: &[u8])
    ensures
        *final(cmd) == with_pair(*old(cmd), pair@),
{
    let (key, value) = split_once(pair, '=' as u8);
    // Keys must be single characters.
    if key.len() == 1 {
        assert(key@[0] == pair@[0]);
        apply_key_value(cmd, key[0], value);
    }
}

/// Parses a kitty graphics command from the APC payload (after the `G` prefix).
///
/// Format: `key=value[,key=value...][;base64_payload]`
pub fn parse_command(data: &[u8]) -> (r: Option<KittyCommand>)
    ensures
        parses_to(data@, r),
{
    let (keys, payload) = split_once(data, ';' as u8);
    let mut cmd = KittyCommand::default();
    cmd.payload = slice_to_vec(payload);
    let ghost start = cmd;

    if !is_utf8(keys) {
        return None;
    }
    let ghost all = pieces(keys@, ',' as u8);
    let mut rest = keys;
    let mut more: bool = true;
    while more
        invariant
            all == pieces(keys@, ',' as u8),
            with_pairs(cmd, if more {
                pieces(rest@, ',' as u8)
            } else {
                Seq::empty()
            }) == with_pairs(start, all),
            cmd.payload == start.payload,
        decreases
            if more {
                1int
            } else {
                0int
            },
            rest.len(),
    {
        let ghost whole = rest@;
        let last = position(rest, ',' as u8) == rest.len();
        let (pair, tail) = split_once(rest, ',' as u8);
        apply_pair(&mut cmd, pair);
        assert(last ==> pair@ =~= whole);
        assert(pieces(whole, ',' as u8)[0] == pair@);
        assert(pieces(whole, ',' as u8).skip(1) =~= if last {
            Seq::empty()
        } else {
            pieces(tail@, ',' as u8)
        });
        rest = tail;
        more = !last;
    }
    Some(cmd)
}

/// What an APC buffer has taken in: whether the sequence is a kitty graphics
/// sequence, once that is known, and its bytes after the `G`.
#[verifier::ext_equal]
pub struct ApcView {
    pub is_kitty: Option<bool>,
    pub bytes: Seq<u8>,
}

impl ApcView {
    /// A buffer before the first byte.
    pub open spec fn fresh() -> ApcView {
        ApcView { is_kitty: None, bytes: Seq::empty() }
    }

    /// The buffer after one more byte: the first tells whether the sequence is
    /// a kitty one, and only bytes of such a sequence are kept.
    pub open spec fn with_byte(self, byte: u8) -> ApcView {
        match self.is_kitty {
            None => ApcView { is_kitty: Some(byte == 'G' as u8), ..self },
            Some(true) => ApcView { bytes: self.bytes.push(byte), ..self },
            Some(false) => self,
        }
    }

    /// The buffer after the bytes `s`.
    pub open spec fn with_bytes(self, s: Seq<u8>) -> ApcView
        decreases s.len(),
    {
        if s.len() == 0 {
            self
        } else {
            self.with_bytes(s.drop_last()).with_byte(s.last())
        }
    }

    /// Whether the end of the sequence may give `r` and leave the buffer as `after`: a
    /// kitty sequence is parsed and the buffer cleared, another gives nothing.
    pub open spec fn finished(self, r: Option<KittyCommand>, after: ApcView) -> bool {
        match self.is_kitty {
            Some(true) => parses_to(self.bytes, r) && after == ApcView::fresh(),
            _ => r is None && after == self,
        }
    }
}

/// Accumulator for APC bytes. Collects bytes during apc_put and parses
/// at apc_end.
#[derive(Debug)]
pub struct KittyApcBuffer {
    /// Raw bytes accumulated during APC sequence.
    buf: Vec<u8>,
    /// Whether the first byte was 'G' (valid kitty graphics sequence).
    is_kitty: Option<bool>,
}

impl View for KittyApcBuffer {
    type V = ApcView;

    closed spec fn view(&self) -> ApcView {
        ApcView { is_kitty: self.is_kitty, bytes: self.buf@ }
    }
}

impl Default for KittyApcBuffer {
    fn default() -> (r: Self)
        ensures
            r@ == ApcView::fresh(),
    {
        KittyApcBuffer { buf: Vec::new(), is_kitty: None }
    }
}

impl KittyApcBuffer {
    /// Create a new empty APC buffer.
    #[must_use]
    pub fn new() -> (r: Self)
        ensures
            r@ == ApcView::fresh(),
    {
        KittyApcBuffer { buf: Vec::with_capacity(8192), is_kitty: None }
    }

    /// Reset the buffer for a new APC sequence.
    pub fn start(&mut self)
        ensures
            final(self)@ == ApcView::fresh(),
    {
        self.buf.clear();
        self.is_kitty = None;
    }

    /// Add a byte to the buffer. Returns false if this is definitely
    /// not a kitty graphics sequence.
    pub fn put(&mut self, byte: u8) -> (r: bool)
        ensures
            final(self)@ == old(self)@.with_byte(byte),
            r == (final(self)@.is_kitty == Some(true)),
    {
        match self.is_kitty {
            Some(false) => false,
            None => {
                // The first byte determines if this is a kitty graphics
                // sequence; the prefix itself is not stored.
                self.is_kitty = Some(byte == 'G' as u8);
                byte == 'G' as u8
            },
            Some(true) => {
                self.buf.push(byte);
                true
            },
        }
    }

    /// Finalize the buffer and parse the command. Returns None if this
    /// was not a kitty graphics sequence or if parsing failed.
    pub fn finish(&mut self) -> (r: Option<KittyCommand>)
        ensures
            old(self)@.finished(r, final(self)@),
    {
        match self.is_kitty {
            Some(true) => {
                let result = parse_command(self.buf.as_slice());
                self.buf.clear();
                self.is_kitty = None;
                result
            },
            _ => None,
        }
    }
}

/// A sequence that starts with `G` is taken in whole, without the `G`: what
/// `finish` then parses is every byte after the prefix. A sequence with another
/// first byte leaves a buffer for which `finish` returns nothing.
pub proof fn law_buffer_collects_sequence(s: Seq<u8>)
    requires
        s.len() > 0,
    ensures
        s[0] == 'G' as u8 ==> ApcView::fresh().with_bytes(s) == (ApcView {
            is_kitty: Some(true),
            bytes: s.skip(1),
        }),
        s[0] != 'G' as u8 ==> ApcView::fresh().with_bytes(s) == (ApcView {
            is_kitty: Some(false),
            bytes: Seq::empty(),
        }),
    decreases s.len(),
{
    if s.len() == 1 {
        assert(s.drop_last() =~= Seq::empty());
        assert(s.skip(1) =~= Seq::empty());
        reveal_with_fuel(ApcView::with_bytes, 2);
    } else {
        law_buffer_collects_sequence(s.drop_last());
        assert(s.skip(1) =~= s.drop_last().skip(1).push(s.last()));
    }
}

/// At its end a sequence that starts with `G` gives the command that its other bytes
/// write, and leaves the buffer ready for the next one. Any other sequence, and none at
/// all, gives no command.
pub proof fn law_sequence_gives_its_command(
    s: Seq<u8>,
    r: Option<KittyCommand>,
    after_end: ApcView,
)
    requires
        ApcView::fresh().with_bytes(s).finished(r, after_end),
    ensures
        s.len() > 0 && s[0] == 'G' as u8 ==> {
            &&& parses_to(s.subrange(1, s.len() as int), r)
            &&& after_end.is_kitty is None
            &&& after_end.bytes.len() == 0
        },
        s.len() == 0 || s[0] != 'G' as u8 ==> r is None,
{
    if s.len() > 0 {
        law_buffer_collects_sequence(s);
        assert(s.skip(1) =~= s.subrange(1, s.len() as int));
    }
}

/// A key outside the protocol changes nothing.
pub proof fn law_unknown_key_ignored(cmd: KittyCommand, key: u8, value: Seq<u8>)
    requires
        !seq![
            'a', 'q', 'i', 'I', 'p', 'f', 't', 'o', 'm', 's', 'v', 'S', 'O', 'x', 'y', 'w', 'h', 'X',
            'Y', 'c', 'r', 'z', 'C', 'U', 'P', 'Q', 'H', 'V', 'd',
        ].contains(key as char),
    ensures
        with_key(cmd, key, value) == cmd,
{
    let known = seq![
        'a', 'q', 'i', 'I', 'p', 'f', 't', 'o', 'm', 's', 'v', 'S', 'O', 'x', 'y', 'w', 'h', 'X', 'Y',
        'c', 'r', 'z', 'C', 'U', 'P', 'Q', 'H', 'V', 'd',
    ];
    assert forall|i: int| 0 <= i < known.len() implies #[trigger] known[i] != key as char by {}
    assert(known[0] == 'a' && known[28] == 'd');
}

/// No key touches the payload: a parsed command carries exactly what follows
/// the first `;`, and nothing in it stems from an earlier command.
pub proof fn law_keys_keep_payload(cmd: KittyCommand, pairs: Seq<Seq<u8>>)
    ensures
        with_pairs(cmd, pairs).payload == cmd.payload,
        with_pairs(cmd, pairs).pre_decoded == cmd.pre_decoded,
    decreases pairs.len(),
{
    if pairs.len() > 0 {
        law_keys_keep_payload(with_pair(cmd, pairs[0]), pairs.skip(1));
    }
}

} // verus!
