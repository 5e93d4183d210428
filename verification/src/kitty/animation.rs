//! Animation frame storage, composition, and control logic for the kitty graphics protocol.
//!
//! This module handles:
//! - `a=f` (TransmitFrame): adding/editing animation frames
//! - `a=a` (AnimationControl): controlling playback state
//! - `a=c` (ComposeFrames): compositing pixels between frames
//!
//! Key design: **lazy promotion** — single-frame images stay as plain `KittyImage`.
//! When a second frame arrives, the image is promoted to an `AnimationState`.
//!
//! See: <https://sw.kovidgoyal.net/kitty/graphics-protocol/#animation>
use vstd::prelude::*;
use vstd::slice::slice_to_vec;

use crate::graphics;
use crate::graphics::{product_within, rgb_to_rgba, ColorType, GraphicData};
use crate::kitty::state;
use crate::kitty::state::{KittyImage, KittyState, StateView};
use crate::kitty_parser::KittyCommand;
use crate::text;
use crate::text::push_decimal;

verus! {

/// Composition mode for animation frames.
#[derive(Debug, Clone, Copy, PartialEq, Eq, Structural)]
pub enum CompositionMode {
    /// Overwrite: new frame pixels replace old ones completely.
    Overwrite,
    /// AlphaBlend: composite new frame over old using standard alpha compositing.
    AlphaBlend,
}

/// A single animation frame.
#[derive(Debug, Clone)]
pub struct AnimationFrame {
    /// RGBA pixel data (always RGBA for animation).
    pub pixels: Vec<u8>,
    /// Frame width in pixels.
    pub width: usize,
    /// Frame height in pixels.
    pub height: usize,
    /// Frame duration in milliseconds (0 = use previous frame's duration).
    pub gap_ms: u32,
    /// How this frame composites over the previous.
    pub composition_mode: CompositionMode,
    /// Background color (RGBA packed as u32) to fill before compositing. 0 = transparent.
    pub background: u32,
}

/// What a frame holds.
#[verifier::ext_equal]
pub struct FrameView {
    pub pixels: Seq<u8>,
    pub width: usize,
    pub height: usize,
    pub gap_ms: u32,
    pub composition_mode: CompositionMode,
    pub background: u32,
}

impl View for AnimationFrame {
    type V = FrameView;

    open spec fn view(&self) -> FrameView {
        FrameView {
            pixels: self.pixels@,
            width: self.width,
            height: self.height,
            gap_ms: self.gap_ms,
            composition_mode: self.composition_mode,
            background: self.background,
        }
    }
}

/// Playback state for an animated image.
#[derive(Debug, Clone, Copy, PartialEq, Eq, Structural)]
pub enum PlaybackState {
    /// Animation is stopped.
    Stopped,
    /// Animation is running.
    Running,
    /// Animation is loading frames (not yet playing).
    Loading,
}

/// Animation state for a multi-frame kitty image.
#[derive(Debug)]
pub struct AnimationState {
    /// All frames in order.
    pub frames: Vec<AnimationFrame>,
    /// Currently displayed frame index.
    pub current_frame: usize,
    /// Playback state.
    pub state: PlaybackState,
    /// Number of loops (0 = infinite).
    pub loops: u32,
    /// Loops completed so far.
    pub loops_done: u32,
}

/// What an animation holds.
#[verifier::ext_equal]
pub struct AnimationView {
    pub frames: Seq<FrameView>,
    pub current_frame: usize,
    pub state: PlaybackState,
    pub loops: u32,
    pub loops_done: u32,
}

impl View for AnimationState {
    type V = AnimationView;

    open spec fn view(&self) -> AnimationView {
        AnimationView {
            frames: self.frames@.map_values(|f: AnimationFrame| f@),
            current_frame: self.current_frame,
            state: self.state,
            loops: self.loops,
            loops_done: self.loops_done,
        }
    }
}

impl AnimationView {
    /// An animation of one frame, still loading.
    pub open spec fn of_frame(frame: FrameView) -> AnimationView {
        AnimationView {
            frames: seq![frame],
            current_frame: 0,
            state: PlaybackState::Loading,
            loops: 0,
            loops_done: 0,
        }
    }

    /// The animation with `frame` in place of the one at `edit_index`, or behind
    /// the last one where that is no index of a frame.
    pub open spec fn with_frame(self, frame: FrameView, edit_index: Option<usize>) -> AnimationView {
        let frames = match edit_index {
            Some(idx) if idx < self.frames.len() => self.frames.update(idx as int, frame),
            _ => self.frames.push(frame),
        };
        AnimationView { frames, ..self }
    }

    /// The animation with the frame `source` composited onto the frame `target`.
    pub open spec fn with_composed(
        self,
        source: int,
        target: int,
        mode: CompositionMode,
    ) -> AnimationView {
        let pixels = blitted(
            self.frames[target].pixels,
            self.frames[source].pixels,
            self.frames[source].width as int,
            self.frames[source].height as int,
            mode,
            0,
        );
        AnimationView {
            frames: self.frames.update(target, FrameView { pixels, ..self.frames[target] }),
            ..self
        }
    }
}

impl AnimationState {
    /// Create a new animation from a single frame.
    pub fn new(first_frame: AnimationFrame) -> (r: Self)
        ensures
            r@ == AnimationView::of_frame(first_frame@),
    {
        let mut frames: Vec<AnimationFrame> = Vec::new();
        frames.push(first_frame);
        let r = AnimationState {
            frames,
            current_frame: 0,
            state: PlaybackState::Loading,
            loops: 0,
            loops_done: 0,
        };
        assert(r@.frames =~= seq![first_frame@]);
        r
    }

    /// Add a new frame or edit an existing one.
    ///
    /// If `edit_index` is `Some(idx)` and `idx` is within bounds, replace that frame.
    /// Otherwise, append the frame.
    pub fn add_frame(&mut self, frame: AnimationFrame, edit_index: Option<usize>)
        ensures
            final(self)@ == old(self)@.with_frame(frame@, edit_index),
    {
        match edit_index {
            Some(idx) if idx < self.frames.len() => {
                self.frames[idx] = frame;
            },
            _ => {
                self.frames.push(frame);
            },
        }
        assert(self@.frames =~= old(self)@.with_frame(frame@, edit_index).frames);
    }
}

// ── Core Pixel Composition ─────────────────────────────────────────────

/// Byte `c` of a background color packed as `0xRRGGBBAA`.
pub open spec fn background_byte(background: u32, c: int) -> u8 {
    if c == 0 {
        (background / 0x100_0000) as u8
    } else if c == 1 {
        (background / 0x1_0000 % 0x100) as u8
    } else if c == 2 {
        (background / 0x100 % 0x100) as u8
    } else {
        (background % 0x100) as u8
    }
}

/// `dst` with its first `pixels` pixels set to the background color; unchanged
/// where the background is 0.
pub open spec fn filled(dst: Seq<u8>, pixels: int, background: u32) -> Seq<u8> {
    if background == 0 {
        dst
    } else {
        Seq::new(
            dst.len(),
            |i: int|
                if i / 4 < pixels {
                    background_byte(background, i % 4)
                } else {
                    dst[i]
                },
        )
    }
}

/// Alpha of a pixel of alpha `sa` over one of alpha `da`:
/// `sa + da × (1 − sa/255)`, rounded down.
pub open spec fn alpha_over(sa: int, da: int) -> int {
    sa + da * (255 - sa) / 255
}

/// The weighted sum of two color channels, `sc × sa + dc × da × (1 − sa/255)`,
/// times 255.
pub open spec fn channel_sum(sc: int, sa: int, dc: int, da: int) -> int {
    sc * sa * 255 + dc * da * (255 - sa)
}

/// The sum of the weights, `sa + da × (1 − sa/255)`, times 255.
pub open spec fn channel_weight(sa: int, da: int) -> int {
    sa * 255 + da * (255 - sa)
}

/// A color channel of a pixel over another, neither premultiplied:
/// `(sc × sa + dc × da × (1 − sa/255)) / (sa + da × (1 − sa/255))`.
///
/// What is divided, the alpha that divides it and the quotient are each rounded
/// down. The smaller divisor can raise the quotient above the mean that the
/// formula gives, so it is held to that mean, rounded up.
pub open spec fn channel_over(sc: int, sa: int, dc: int, da: int) -> int {
    let weight = channel_weight(sa, da);
    min(
        (sc * sa + dc * da * (255 - sa) / 255) / alpha_over(sa, da),
        (channel_sum(sc, sa, dc, da) + weight - 1) / weight,
    )
}

/// Byte `c` of the pixel `src` composited over the pixel `dst`.
pub open spec fn byte_over(src: Seq<u8>, dst: Seq<u8>, c: int) -> u8 {
    let sa = src[3] as int;
    let da = dst[3] as int;
    if sa == 0 {
        dst[c]
    } else if sa == 255 {
        src[c]
    } else if c == 3 {
        alpha_over(sa, da) as u8
    } else {
        channel_over(src[c] as int, sa, dst[c] as int, da) as u8
    }
}

/// Pixel `p` of a buffer.
pub open spec fn pixel(s: Seq<u8>, p: int) -> Seq<u8> {
    s.subrange(4 * p, 4 * p + 4)
}

/// `dst` with its first `pixels` pixels composited with those of `src`.
pub open spec fn composed(
    dst: Seq<u8>,
    src: Seq<u8>,
    pixels: int,
    mode: CompositionMode,
) -> Seq<u8> {
    Seq::new(
        dst.len(),
        |i: int|
            if i / 4 < pixels {
                match mode {
                    CompositionMode::Overwrite => src[i],
                    CompositionMode::AlphaBlend => byte_over(
                        pixel(src, i / 4),
                        pixel(dst, i / 4),
                        i % 4,
                    ),
                }
            } else {
                dst[i]
            },
    )
}

/// The smaller of two numbers.
pub open spec fn min(a: int, b: int) -> int {
    if a <= b {
        a
    } else {
        b
    }
}

/// What `blit` makes of `dst`: the background fills the whole pixels of `dst`
/// that lie within the frame, then `src` is composited onto as many of them as
/// it has whole pixels.
pub open spec fn blitted(
    dst: Seq<u8>,
    src: Seq<u8>,
    width: int,
    height: int,
    mode: CompositionMode,
    background: u32,
) -> Seq<u8> {
    let pixels = min(dst.len() as int / 4, width * height);
    composed(filled(dst, pixels, background), src, min(pixels, src.len() as int / 4), mode)
}

/// Alpha-blend a single source pixel over a destination pixel (source-over compositing).
///
/// Formula (non-premultiplied):
///   out_a = src_a + dst_a × (1 − src_a/255)
///   out_c = (src_c × src_a + dst_c × dst_a × (1 − src_a/255)) / out_a
pub fn alpha_blend_pixel(dst: [u8; 4], src: [u8; 4]) -> (r: [u8; 4])
    ensures
        forall|c: int| 0 <= c < 4 ==> r[c] == #[trigger] byte_over(src@, dst@, c),
{
    let sa: u32 = src[3] as u32;
    if sa == 0 {
        return dst;  // Fully transparent source — no change.
    }
    if sa == 255 {
        return src;  // Fully opaque source — replace.
    }
    let da: u32 = dst[3] as u32;
    let r0: u8 = blend_channel(src[0] as u32, sa, dst[0] as u32, da);
    let r1: u8 = blend_channel(src[1] as u32, sa, dst[1] as u32, da);
    let r2: u8 = blend_channel(src[2] as u32, sa, dst[2] as u32, da);
    let r3: u8 = blend_alpha(sa, da) as u8;
    [r0, r1, r2, r3]
}

/// The bound that keeps a composited alpha within a byte.
proof fn lemma_alpha_over(sa: int, da: int)
    requires
        0 < sa < 255,
        0 <= da <= 255,
    ensures
        0 <= da * (255 - sa) <= 255 * (255 - sa),
        sa <= alpha_over(sa, da) <= 255,
{
    assert(0 <= da * (255 - sa) <= 255 * (255 - sa)) by (nonlinear_arith)
        requires
            0 < sa < 255,
            0 <= da <= 255,
    ;
}

fn blend_alpha(sa: u32, da: u32) -> (r: u32)
    requires
        0 < sa < 255,
        da <= 255,
    ensures
        r == alpha_over(sa as int, da as int),
        0 < r <= 255,
{
    proof {
        lemma_alpha_over(sa as int, da as int);
    }
    sa + da * (255 - sa) / 255
}

/// A channel of a blend is the weighted mean, rounded down or up, and so lies
/// between the two bytes.
pub proof fn lemma_channel_over(sc: int, sa: int, dc: int, da: int)
    requires
        0 <= sc <= 255,
        0 < sa <= 255,
        0 <= dc <= 255,
        0 <= da <= 255,
    ensures
        channel_weight(sa, da) > 0,
        alpha_over(sa, da) > 0,
        channel_sum(sc, sa, dc, da) / channel_weight(sa, da) <= channel_over(sc, sa, dc, da),
        channel_over(sc, sa, dc, da) <= (channel_sum(sc, sa, dc, da) + channel_weight(sa, da) - 1)
            / channel_weight(sa, da),
        sc <= dc ==> sc <= channel_over(sc, sa, dc, da) <= dc,
        dc <= sc ==> dc <= channel_over(sc, sa, dc, da) <= sc,
{
    let a = sa * 255;
    let b = da * (255 - sa);
    assert(b >= 0) by (nonlinear_arith)
        requires
            b == da * (255 - sa),
            da >= 0,
            sa <= 255,
    ;
    let n = channel_sum(sc, sa, dc, da);
    let d = channel_weight(sa, da);
    assert(n == sc * a + dc * b) by (nonlinear_arith)
        requires
            n == sc * sa * 255 + dc * da * (255 - sa),
            a == sa * 255,
            b == da * (255 - sa),
    ;
    let low = min(sc, dc);
    let high = if sc <= dc {
        dc
    } else {
        sc
    };
    assert(low * d <= n <= high * d) by (nonlinear_arith)
        requires
            n == sc * a + dc * b,
            d == a + b,
            a >= 0,
            b >= 0,
            low <= sc <= high,
            low <= dc <= high,
    ;
    let down = n / d;
    let up = (n + d - 1) / d;
    assert(low <= down) by (nonlinear_arith)
        requires
            low * d <= n,
            d > 0,
            down == n / d,
    ;
    assert(down <= up <= high) by (nonlinear_arith)
        requires
            n <= high * d,
            d > 0,
            down == n / d,
            up == (n + d - 1) / d,
    ;

    // Rounded operands give no less than the mean rounded down.
    let part = dc * da * (255 - sa) / 255;
    let below = b / 255;
    let rest = b % 255;
    assert(dc * da * (255 - sa) == dc * b) by (nonlinear_arith)
        requires
            b == da * (255 - sa),
    ;
    assert(down * d <= n) by (nonlinear_arith)
        requires
            d > 0,
            down == n / d,
    ;
    assert(down >= 0);
    assert(255 * (down * (sa + below) - sc * sa) <= dc * b) by (nonlinear_arith)
        requires
            down * d <= n,
            n == sc * a + dc * b,
            d == a + b,
            a == sa * 255,
            b == 255 * below + rest,
            rest >= 0,
            down >= 0,
    ;
    let alpha = alpha_over(sa, da);
    assert(down * alpha <= sc * sa + part);
    assert(down <= (sc * sa + part) / alpha) by (nonlinear_arith)
        requires
            down * alpha <= sc * sa + part,
            alpha > 0,
    ;
}

fn blend_channel(sc: u32, sa: u32, dc: u32, da: u32) -> (r: u8)
    requires
        sc <= 255,
        0 < sa < 255,
        dc <= 255,
        da <= 255,
    ensures
        r == channel_over(sc as int, sa as int, dc as int, da as int),
{
    let inv: u32 = 255 - sa;
    assert(0 <= sc * sa <= 255 * 255) by (nonlinear_arith)
        requires
            0 <= sc <= 255,
            0 < sa < 255,
    ;
    assert(0 <= dc * da <= 255 * 255) by (nonlinear_arith)
        requires
            0 <= dc <= 255,
            0 <= da <= 255,
    ;
    assert(0 <= da * inv <= 255 * 255) by (nonlinear_arith)
        requires
            0 <= da <= 255,
            0 <= inv <= 255,
    ;
    let below: u32 = dc * da;
    assert(0 <= below * inv <= 255 * 255 * 255) by (nonlinear_arith)
        requires
            0 <= below <= 255 * 255,
            0 <= inv <= 255,
    ;
    proof {
        lemma_channel_over(sc as int, sa as int, dc as int, da as int);
    }
    let quotient: u32 = (sc * sa + below * inv / 255) / blend_alpha(sa, da);
    let weight: u32 = sa * 255 + da * inv;
    let mean: u32 = (sc * sa * 255 + below * inv + weight - 1) / weight;
    if quotient <= mean {
        quotient as u8
    } else {
        mean as u8
    }
}

/// Unpack a u32 background color to RGBA bytes.
///
/// Byte order matches WezTerm: `0xRRGGBBAA`.
pub fn background_to_rgba(bg: u32) -> (r: [u8; 4])
    ensures
        forall|c: int| 0 <= c < 4 ==> r[c] == #[trigger] background_byte(bg, c),
{
    assert((bg >> 24) & 0xff == bg / 0x100_0000) by (bit_vector);
    assert((bg >> 16) & 0xff == bg / 0x1_0000 % 0x100) by (bit_vector);
    assert((bg >> 8) & 0xff == bg / 0x100 % 0x100) by (bit_vector);
    assert(bg & 0xff == bg % 0x100) by (bit_vector);
    [
        ((bg >> 24) & 0xff) as u8,
        ((bg >> 16) & 0xff) as u8,
        ((bg >> 8) & 0xff) as u8,
        (bg & 0xff) as u8,
    ]
}

/// Sets the first `pixels` pixels of `dst` to the color `bg`.
fn fill_pixels(dst: &mut [u8], pixels: usize, background: u32)
    requires
        background != 0,
        pixels <= old(dst)@.len() / 4,
    ensures
        final(dst)@ == filled(old(dst)@, pixels as int, background),
{
    let bg = background_to_rgba(background);
    let ghost before = dst@;
    assert(before.len() <= usize::MAX) by {
        let n = dst.len();
    }
    let mut p: usize = 0;
    while p < pixels
        invariant
            p <= pixels <= before.len() / 4,
            before.len() <= usize::MAX,
            background != 0,
            forall|c: int| 0 <= c < 4 ==> bg[c] == #[trigger] background_byte(background, c),
            dst@ == filled(before, p as int, background),
        decreases pixels - p,
    {
        let off: usize = p * 4;
        dst[off] = bg[0];
        dst[off + 1] = bg[1];
        dst[off + 2] = bg[2];
        dst[off + 3] = bg[3];
        p = p + 1;
        assert(dst@ =~= filled(before, p as int, background));
    }
}

/// Core pixel composition function.
///
/// Composites `src` pixels over `dst` pixels for a frame of the given dimensions.
/// Both `dst` and `src` are RGBA pixel data (4 bytes per pixel).
///
/// - If `background != 0`, fills `dst` with the background color first.
/// - `Overwrite` mode: source pixels completely replace destination pixels.
/// - `AlphaBlend` mode: standard "source over" alpha compositing.
pub fn blit(
    dst: &mut [u8],
    src: &[u8],
    width: usize,
    height: usize,
    mode: CompositionMode,
    background: u32,
)
    requires
        width * height * 4 <= usize::MAX,
    ensures
        final(dst)@ == blitted(
            old(dst)@,
            src@,
            width as int,
            height as int,
            mode,
            background,
        ),
{
    assert(width * height >= 0) by (nonlinear_arith);
    let ghost given = dst@;
    let frame_bytes: usize = width * height * 4;
    let dst_len: usize = if dst.len() < frame_bytes {
        dst.len()
    } else {
        frame_bytes
    };
    let dst_pixels: usize = dst_len / 4;
    assert(dst_pixels == min(given.len() as int / 4, width * height));

    // Fill with background color if specified.
    if background != 0 {
        fill_pixels(dst, dst_pixels, background);
    }
    let ghost base = dst@;
    assert(base == filled(given, dst_pixels as int, background));

    let pixel_count: usize = if dst_pixels < src.len() / 4 {
        dst_pixels
    } else {
        src.len() / 4
    };

    match mode {
        CompositionMode::Overwrite => {
            let mut i: usize = 0;
            while i < pixel_count * 4
                invariant
                    pixel_count * 4 <= base.len(),
                    pixel_count * 4 <= src.len(),
                    i <= pixel_count * 4,
                    dst@.len() == base.len(),
                    forall|j: int| 0 <= j < i ==> dst@[j] == src[j],
                    forall|j: int| i <= j < base.len() ==> dst@[j] == base[j],
                decreases pixel_count * 4 - i,
            {
                dst[i] = src[i];
                i = i + 1;
            }
        },
        CompositionMode::AlphaBlend => {
            let mut p: usize = 0;
            while p < pixel_count
                invariant
                    pixel_count * 4 <= base.len(),
                    pixel_count * 4 <= src.len(),
                    p <= pixel_count,
                    dst@ == composed(base, src@, p as int, mode),
                    mode == CompositionMode::AlphaBlend,
                decreases pixel_count - p,
            {
                let off: usize = p * 4;
                let under = [dst[off], dst[off + 1], dst[off + 2], dst[off + 3]];
                let over = [src[off], src[off + 1], src[off + 2], src[off + 3]];
                assert(under@ =~= pixel(base, p as int));
                assert(over@ =~= pixel(src@, p as int));
                let out = alpha_blend_pixel(under, over);
                dst[off] = out[0];
                dst[off + 1] = out[1];
                dst[off + 2] = out[2];
                dst[off + 3] = out[3];
                p = p + 1;
                assert(dst@ =~= composed(base, src@, p as int, mode));
            }
        },
    }
    assert(dst@ =~= composed(base, src@, pixel_count as int, mode));
}

// ── Helpers ────────────────────────────────────────────────────────────

/// Ensure pixel data is RGBA (convert from RGB if needed).
pub fn ensure_rgba(pixels: &[u8], color_type: ColorType) -> (r: Vec<u8>)
    ensures
        r@ == graphics::as_rgba(pixels@, color_type),
{
    match color_type {
        ColorType::Rgba => slice_to_vec(pixels),
        ColorType::Rgb => rgb_to_rgba(pixels),
    }
}

/// A canvas of `pixels` pixels of the background color; transparent where that
/// is 0.
pub open spec fn background_canvas(pixels: int, background: u32) -> Seq<u8> {
    filled(Seq::new((pixels * 4) as nat, |i: int| 0u8), pixels, background)
}

/// Create a background-filled canvas of the given dimensions.
pub fn make_background_canvas(width: usize, height: usize, background: u32) -> (r: Vec<u8>)
    requires
        graphics::area_fits(width as int, height as int),
    ensures
        r@ == background_canvas(width * height, background),
{
    assert(width * height >= 0) by (nonlinear_arith);
    let total: usize = width * height * 4;
    let mut canvas: Vec<u8> = vec![0u8; total];
    assert(canvas@ =~= Seq::new((width * height * 4) as nat, |i: int| 0u8));
    if background != 0 {
        fill_pixels(canvas.as_mut_slice(), total / 4, background);
    }
    canvas
}

/// Whether `src` reaches as far as `columns` pixels into its row `row`.
pub open spec fn row_present(src: Seq<u8>, src_width: int, row: int, columns: int) -> bool {
    (row * src_width + columns) * 4 <= src.len()
}

/// A transparent canvas with the pixels of `src` at position (`x`, `y`), clipped
/// to the canvas. A row of `src` that is cut short before the part to copy ends
/// is left out.
pub open spec fn placed(
    canvas_width: int,
    canvas_height: int,
    src: Seq<u8>,
    src_width: int,
    src_height: int,
    x: int,
    y: int,
) -> Seq<u8> {
    Seq::new(
        (canvas_width * canvas_height * 4) as nat,
        |i: int|
            {
                let row = i / 4 / canvas_width;
                let col = i / 4 % canvas_width;
                if x <= col < x + src_width && y <= row < y + src_height && row_present(
                    src,
                    src_width,
                    row - y,
                    min(src_width, canvas_width - x),
                ) {
                    src[((row - y) * src_width + (col - x)) * 4 + i % 4]
                } else {
                    0u8
                }
            },
    )
}

/// Index of the first pixel of a source row, if `columns` pixels of that row are
/// there.
fn row_start(row: usize, src_width: usize, columns: usize, src: &[u8]) -> (r: Option<usize>)
    ensures
        match r {
            Some(start) => start == row * src_width && row_present(
                src@,
                src_width as int,
                row as int,
                columns as int,
            ),
            None => !row_present(src@, src_width as int, row as int, columns as int),
        },
{
    assert(row * src_width >= 0) by (nonlinear_arith);
    let pixels: usize = src.len() / 4;
    match row.checked_mul(src_width) {
        Some(start) => {
            if start <= pixels && columns <= pixels - start {
                Some(start)
            } else {
                None
            }
        },
        None => None,
    }
}

/// Place source pixels onto a full-canvas-sized transparent buffer at position (x, y).
pub fn place_on_canvas(
    canvas_width: usize,
    canvas_height: usize,
    src: &[u8],
    src_width: usize,
    src_height: usize,
    x: usize,
    y: usize,
) -> (r: Vec<u8>)
    requires
        graphics::area_fits(canvas_width as int, canvas_height as int),
    ensures
        r@ == placed(
            canvas_width as int,
            canvas_height as int,
            src@,
            src_width as int,
            src_height as int,
            x as int,
            y as int,
        ),
{
    let ghost result = placed(
        canvas_width as int,
        canvas_height as int,
        src@,
        src_width as int,
        src_height as int,
        x as int,
        y as int,
    );
    let room: usize = canvas_width.saturating_sub(x);
    let copy_cols: usize = if src_width < room {
        src_width
    } else {
        room
    };
    let src_len: usize = src.len();
    let mut canvas: Vec<u8> = Vec::new();
    let mut row: usize = 0;
    while row < canvas_height
        invariant
            src_len == src@.len(),
            row <= canvas_height,
            room == if canvas_width >= x {
                canvas_width - x
            } else {
                0
            },
            copy_cols == min(src_width as int, room as int),
            canvas.len() == row * canvas_width * 4,
            result == placed(
                canvas_width as int,
                canvas_height as int,
                src@,
                src_width as int,
                src_height as int,
                x as int,
                y as int,
            ),
            forall|i: int| 0 <= i < canvas.len() ==> canvas[i] == result[i],
        decreases canvas_height - row,
    {
        let start: Option<usize> = if row >= y && row - y < src_height && copy_cols > 0 {
            row_start(row - y, src_width, copy_cols, src)
        } else {
            None
        };
        proof {
            graphics::lemma_rows(row as int, canvas_height as int, canvas_width as int);
            graphics::lemma_rows(row + 1, canvas_height as int, canvas_width as int);
        }
        let mut col: usize = 0;
        while col < canvas_width
            invariant
                src_len == src@.len(),
                row < canvas_height,
                (row + 1) * canvas_width <= canvas_height * canvas_width,
                (row + 1) * canvas_width == row * canvas_width + canvas_width,
                col <= canvas_width,
                room == if canvas_width >= x {
                    canvas_width - x
                } else {
                    0
                },
                copy_cols == min(src_width as int, room as int),
                start is Some ==> row >= y && row - y < src_height && start->0 == (row - y)
                    * src_width && row_present(
                    src@,
                    src_width as int,
                    row - y,
                    copy_cols as int,
                ),
                start is None ==> !(row >= y && row - y < src_height && copy_cols > 0
                    && row_present(src@, src_width as int, row - y, copy_cols as int)),
                canvas.len() == (row * canvas_width + col) * 4,
                result == placed(
                    canvas_width as int,
                    canvas_height as int,
                    src@,
                    src_width as int,
                    src_height as int,
                    x as int,
                    y as int,
                ),
                forall|i: int| 0 <= i < canvas.len() ==> canvas[i] == result[i],
            decreases canvas_width - col,
        {
            let ghost at = row * canvas_width + col;
            proof {
                graphics::lemma_cell(row as int, col as int, canvas_width as int);
                assert(canvas_height * canvas_width == canvas_width * canvas_height)
                    by (nonlinear_arith);
                assert(result.len() == canvas_width * canvas_height * 4);
            }
            match start {
                Some(first) if col >= x && col - x < copy_cols => {
                    let off: usize = (first + (col - x)) * 4;
                    canvas.push(src[off]);
                    canvas.push(src[off + 1]);
                    canvas.push(src[off + 2]);
                    canvas.push(src[off + 3]);
                },
                _ => {
                    canvas.push(0);
                    canvas.push(0);
                    canvas.push(0);
                    canvas.push(0);
                },
            }
            assert(canvas[4 * at] == result[4 * at]);
            assert(canvas[4 * at + 1] == result[4 * at + 1]);
            assert(canvas[4 * at + 2] == result[4 * at + 2]);
            assert(canvas[4 * at + 3] == result[4 * at + 3]);
            col = col + 1;
        }
        row = row + 1;
    }
    assert(canvas_height * canvas_width == canvas_width * canvas_height) by (nonlinear_arith);
    assert(canvas@ =~= result);
    canvas
}

// ── Action Handlers ────────────────────────────────────────────────────

/// The composition mode that `X=` asks for (0 = overwrite, 1 = alpha blend).
pub open spec fn mode_of(offset_x: u32) -> CompositionMode {
    if offset_x == 1 {
        CompositionMode::AlphaBlend
    } else {
        CompositionMode::Overwrite
    }
}

fn compose_mode(offset_x: u32) -> (r: CompositionMode)
    ensures
        r == mode_of(offset_x),
{
    if offset_x == 1 {
        CompositionMode::AlphaBlend
    } else {
        CompositionMode::Overwrite
    }
}

/// The first frame of an animation made from a stored image.
pub open spec fn first_frame(image: KittyImage) -> FrameView {
    FrameView {
        pixels: graphics::as_rgba(image.data.pixels@, image.data.color_type),
        width: image.data.width,
        height: image.data.height,
        gap_ms: 0,
        composition_mode: CompositionMode::Overwrite,
        background: 0,
    }
}

/// Why a frame is refused, if it is.
pub open spec fn frame_error(
    s: StateView,
    cmd: KittyCommand,
    decoded: Result<GraphicData, String>,
) -> Option<Seq<char>> {
    if decoded is Err {
        Some(decoded->Err_0@)
    } else if cmd.image_id == 0 {
        Some("image_id is required for animation frames"@)
    } else if !s.animations.contains_key(cmd.image_id) && !s.images.contains_key(cmd.image_id) {
        Some("image id="@ + text::decimal(cmd.image_id as nat) + " not found"@)
    } else {
        None
    }
}

/// The animation that a frame is added to: that of the image, or a new one made
/// from the image itself.
pub open spec fn animation_of(s: StateView, id: u32) -> AnimationView {
    if s.animations.contains_key(id) {
        s.animations[id]
    } else {
        AnimationView::of_frame(first_frame(s.images[id]))
    }
}

/// Whether the animation that a frame is added to has a canvas, and one that can
/// be allocated.
pub open spec fn has_canvas(s: StateView, id: u32) -> bool {
    let anim = animation_of(s, id);
    anim.frames.len() > 0 && graphics::area_fits(
        anim.frames[0].width as int,
        anim.frames[0].height as int,
    )
}

/// The frame that `r=` edits (1-based); none where there is no such frame.
pub open spec fn edited_frame(anim: AnimationView, rows: u32) -> Option<usize> {
    if 0 < rows <= anim.frames.len() {
        Some((rows - 1) as usize)
    } else {
        None
    }
}

/// The canvas a frame starts from: a copy of the base frame that `c=` names
/// (1-based), else the frame being edited, else the background. A base frame
/// that does not exist counts as background.
pub open spec fn start_canvas(anim: AnimationView, cmd: KittyCommand) -> Seq<u8> {
    let background = background_canvas(
        anim.frames[0].width * anim.frames[0].height,
        cmd.offset_y,
    );
    if cmd.columns > 0 {
        if cmd.columns <= anim.frames.len() {
            anim.frames[cmd.columns - 1].pixels
        } else {
            background
        }
    } else {
        match edited_frame(anim, cmd.rows) {
            Some(idx) => anim.frames[idx as int].pixels,
            None => background,
        }
    }
}

/// The pixel of `src` that falls on the pixel `p` of a canvas `canvas_width` wide
/// when `src` lies at position (`x`, `y`), if one does. A row of `src` that is cut
/// short before the part on the canvas ends is left out.
pub open spec fn source_pixel(
    canvas_width: int,
    src: Seq<u8>,
    src_width: int,
    src_height: int,
    x: int,
    y: int,
    p: int,
) -> Option<int> {
    let row = p / canvas_width;
    let col = p % canvas_width;
    if x <= col < x + src_width && y <= row < y + src_height && row_present(
        src,
        src_width,
        row - y,
        min(src_width, canvas_width - x),
    ) {
        Some((row - y) * src_width + (col - x))
    } else {
        None
    }
}

/// `canvas` with the pixels of `src` composited onto it at position (`x`, `y`).
/// Where no pixel of `src` falls the canvas stays as it is.
pub open spec fn overlaid(
    canvas: Seq<u8>,
    canvas_width: int,
    canvas_height: int,
    src: Seq<u8>,
    src_width: int,
    src_height: int,
    x: int,
    y: int,
    mode: CompositionMode,
) -> Seq<u8> {
    let pixels = min(canvas.len() as int / 4, canvas_width * canvas_height);
    Seq::new(
        canvas.len(),
        |i: int|
            match source_pixel(canvas_width, src, src_width, src_height, x, y, i / 4) {
                Some(k) if i / 4 < pixels => match mode {
                    CompositionMode::Overwrite => src[4 * k + i % 4],
                    CompositionMode::AlphaBlend => byte_over(
                        pixel(src, k),
                        pixel(canvas, i / 4),
                        i % 4,
                    ),
                },
                _ => canvas[i],
            },
    )
}

/// The index of the source pixel that falls on the canvas pixel `p`.
fn source_index(
    canvas_width: usize,
    src: &[u8],
    src_width: usize,
    src_height: usize,
    x: usize,
    y: usize,
    p: usize,
) -> (r: Option<usize>)
    requires
        canvas_width > 0,
    ensures
        match r {
            Some(k) => source_pixel(
                canvas_width as int,
                src@,
                src_width as int,
                src_height as int,
                x as int,
                y as int,
                p as int,
            ) == Some(k as int) && 4 * k + 4 <= src.len(),
            None => source_pixel(
                canvas_width as int,
                src@,
                src_width as int,
                src_height as int,
                x as int,
                y as int,
                p as int,
            ) is None,
        },
{
    let row: usize = p / canvas_width;
    let col: usize = p % canvas_width;
    let src_len: usize = src.len();
    if col < x || col - x >= src_width || row < y || row - y >= src_height {
        return None;
    }
    let room: usize = canvas_width - x;
    let columns: usize = if src_width < room {
        src_width
    } else {
        room
    };
    match row_start(row - y, src_width, columns, src) {
        Some(start) => Some(start + (col - x)),
        None => None,
    }
}

/// Composites `src` pixels onto a canvas at position (x, y).
pub fn overlay(
    canvas: &mut [u8],
    canvas_width: usize,
    canvas_height: usize,
    src: &[u8],
    src_width: usize,
    src_height: usize,
    x: usize,
    y: usize,
    mode: CompositionMode,
)
    requires
        canvas_width * canvas_height <= usize::MAX,
    ensures
        final(canvas)@ == overlaid(
            old(canvas)@,
            canvas_width as int,
            canvas_height as int,
            src@,
            src_width as int,
            src_height as int,
            x as int,
            y as int,
            mode,
        ),
{
    assert(canvas_width * canvas_height >= 0) by (nonlinear_arith);
    let ghost given = canvas@;
    let ghost result = overlaid(
        given,
        canvas_width as int,
        canvas_height as int,
        src@,
        src_width as int,
        src_height as int,
        x as int,
        y as int,
        mode,
    );
    let whole: usize = canvas.len() / 4;
    let area: usize = canvas_width * canvas_height;
    let pixels: usize = if whole < area {
        whole
    } else {
        area
    };
    if canvas_width == 0 {
        assert(canvas_width * canvas_height == 0) by (nonlinear_arith)
            requires
                canvas_width == 0,
        ;
        assert(canvas@ =~= result);
        return ;
    }
    let src_len: usize = src.len();
    let mut p: usize = 0;
    while p < pixels
        invariant
            p <= pixels,
            pixels == min(given.len() as int / 4, canvas_width * canvas_height),
            pixels * 4 <= given.len() <= usize::MAX,
            canvas_width > 0,
            src_len == src@.len(),
            canvas@.len() == given.len(),
            result == overlaid(
                given,
                canvas_width as int,
                canvas_height as int,
                src@,
                src_width as int,
                src_height as int,
                x as int,
                y as int,
                mode,
            ),
            forall|i: int| 0 <= i < 4 * p ==> canvas@[i] == result[i],
            forall|i: int| 4 * p <= i < given.len() ==> canvas@[i] == given[i],
        decreases pixels - p,
    {
        let off: usize = p * 4;
        if let Some(k) = source_index(canvas_width, src, src_width, src_height, x, y, p) {
            let at: usize = k * 4;
            let over = [src[at], src[at + 1], src[at + 2], src[at + 3]];
            let out = match mode {
                CompositionMode::Overwrite => over,
                CompositionMode::AlphaBlend => {
                    let under = [canvas[off], canvas[off + 1], canvas[off + 2], canvas[off + 3]];
                    assert(under@ =~= pixel(given, p as int));
                    assert(over@ =~= pixel(src@, k as int));
                    alpha_blend_pixel(under, over)
                },
            };
            canvas[off] = out[0];
            canvas[off + 1] = out[1];
            canvas[off + 2] = out[2];
            canvas[off + 3] = out[3];
        }
        assert(canvas@[4 * p] == result[4 * p]);
        assert(canvas@[4 * p + 1] == result[4 * p + 1]);
        assert(canvas@[4 * p + 2] == result[4 * p + 2]);
        assert(canvas@[4 * p + 3] == result[4 * p + 3]);
        p = p + 1;
    }
    assert(canvas@ =~= result);
}

/// The pixels of the frame that a command and its pixels make: those sent,
/// composited at (`x=`, `y=`) onto the canvas that the frame starts from.
pub open spec fn frame_content(anim: AnimationView, cmd: KittyCommand, data: GraphicData) -> Seq<
    u8,
> {
    let start = start_canvas(anim, cmd);
    let src = graphics::as_rgba(data.pixels@, data.color_type);
    let canvas = anim.frames[0];
    let width = canvas.width as int;
    let height = canvas.height as int;
    let mode = mode_of(cmd.offset_x);
    if cmd.src_x == 0 && cmd.src_y == 0 && data.width == width && data.height == height {
        blitted(start, src, width, height, mode, 0)
    } else {
        overlaid(
            start,
            width,
            height,
            src,
            data.width as int,
            data.height as int,
            cmd.src_x as int,
            cmd.src_y as int,
            mode,
        )
    }
}

/// The frame that a command and its pixels make.
pub open spec fn new_frame(anim: AnimationView, cmd: KittyCommand, data: GraphicData) -> FrameView {
    let canvas = anim.frames[0];
    FrameView {
        pixels: frame_content(anim, cmd, data),
        width: canvas.width,
        height: canvas.height,
        gap_ms: if cmd.z_index > 0 {
            cmd.z_index as u32
        } else {
            0
        },
        composition_mode: mode_of(cmd.offset_x),
        background: cmd.offset_y,
    }
}

/// The state with the frame that a command and its pixels make.
pub open spec fn frame_loaded(s: StateView, cmd: KittyCommand, data: GraphicData) -> StateView {
    let anim = animation_of(s, cmd.image_id);
    StateView {
        animations: s.animations.insert(
            cmd.image_id,
            anim.with_frame(new_frame(anim, cmd, data), edited_frame(anim, cmd.rows)),
        ),
        ..s
    }
}

/// Builds the pixels of a frame.
fn frame_pixels(anim: &AnimationState, cmd: &KittyCommand, data: &GraphicData) -> (r: Vec<u8>)
    requires
        anim@.frames.len() > 0,
        graphics::area_fits(anim@.frames[0].width as int, anim@.frames[0].height as int),
    ensures
        r@ == new_frame(anim@, *cmd, *data).pixels,
{
    let src_pixels: Vec<u8> = ensure_rgba(data.pixels.as_slice(), data.color_type);
    let canvas_width: usize = anim.frames[0].width;
    let canvas_height: usize = anim.frames[0].height;
    let dest_x: usize = cmd.src_x as usize;
    let dest_y: usize = cmd.src_y as usize;
    let mode: CompositionMode = compose_mode(cmd.offset_x);

    // Build the canvas for this frame.
    let base: usize = if cmd.columns > 0 {
        cmd.columns as usize
    } else {
        cmd.rows as usize
    };
    let mut canvas: Vec<u8> = if base > 0 && base <= anim.frames.len() {
        assert(anim@.frames[base - 1] == anim.frames@[base - 1]@);
        slice_to_vec(anim.frames[base - 1].pixels.as_slice())
    } else {
        make_background_canvas(canvas_width, canvas_height, cmd.offset_y)
    };
    assert(canvas@ == start_canvas(anim@, *cmd));

    // Blit the transmitted pixels onto the canvas.
    if dest_x == 0 && dest_y == 0 && data.width == canvas_width && data.height == canvas_height {
        // Fast path: full-frame blit (no positioning needed).
        blit(canvas.as_mut_slice(), src_pixels.as_slice(), canvas_width, canvas_height, mode, 0);
    } else {
        // Composite the pixels where they go; the rest of the canvas stays.
        assert(canvas_width * canvas_height >= 0) by (nonlinear_arith);
        overlay(
            canvas.as_mut_slice(),
            canvas_width,
            canvas_height,
            src_pixels.as_slice(),
            data.width,
            data.height,
            dest_x,
            dest_y,
            mode,
        );
    }
    canvas
}

/// Handle `a=f` (TransmitFrame) — add or edit an animation frame, given what the
/// payload decoded to.
///
/// Follows the lazy promotion pattern: single-frame images stay as plain `KittyImage`
/// until a second frame arrives, at which point an `AnimationState` is created.
///
/// Parser key overloading (action `f`):
/// - `r=` → frame number to edit (1-based, 0 = append)
/// - `z=` → frame duration in ms
/// - `X=` → composition mode (0 = overwrite, 1 = alpha blend)
/// - `Y=` → background pixel (RGBA packed u32)
/// - `c=` → base frame to copy from (1-based)
/// - `x=`, `y=` → blit position within the canvas
pub fn load_animation_frame(
    state: &mut KittyState,
    cmd: &KittyCommand,
    decoded: Result<GraphicData, String>,
) -> (r: Result<(), String>)
    requires
        frame_error(old(state)@, *cmd, decoded) is None ==> has_canvas(old(state)@, cmd.image_id),
    ensures
        match r {
            Ok(_) => frame_error(old(state)@, *cmd, decoded) is None && final(state)@
                == frame_loaded(old(state)@, *cmd, decoded->Ok_0),
            Err(e) => frame_error(old(state)@, *cmd, decoded) == Some(e@) && final(state)@ == old(
                state,
            )@,
        },
{
    let graphic_data = match decoded {
        Ok(data) => data,
        Err(e) => {
            return Err(e);
        },
    };
    let image_id: u32 = cmd.image_id;
    if image_id == 0 {
        return Err("image_id is required for animation frames".to_string());
    }
    let ghost anim0 = animation_of(old(state)@, image_id);

    // Lazy promotion: if no animation exists yet, create one from the existing image.
    if state.get_animation(image_id).is_none() {
        let first = match state.get_image(image_id) {
            Some(img) => AnimationFrame {
                width: img.data.width,
                height: img.data.height,
                pixels: ensure_rgba(img.data.pixels.as_slice(), img.data.color_type),
                gap_ms: 0,
                composition_mode: CompositionMode::Overwrite,
                background: 0,
            },
            None => {
                let mut e = "image id=".to_string();
                push_decimal(&mut e, image_id as u64);
                e.append(" not found");
                return Err(e);
            },
        };
        state.put_animation(image_id, AnimationState::new(first));
    }
    match state.get_animation_mut(image_id) {
        Some(anim) => {
            assert(anim@ == anim0);
            let frame_number: usize = cmd.rows as usize;
            // Determine whether to append or edit an existing frame (1-based → 0-based).
            let edit_index: Option<usize> = if frame_number > 0 && frame_number
                <= anim.frames.len() {
                Some(frame_number - 1)
            } else {
                None
            };
            let frame = AnimationFrame {
                pixels: frame_pixels(anim, cmd, &graphic_data),
                width: anim.frames[0].width,
                height: anim.frames[0].height,
                gap_ms: if cmd.z_index > 0 {
                    cmd.z_index as u32
                } else {
                    0
                },
                composition_mode: compose_mode(cmd.offset_x),
                background: cmd.offset_y,
            };
            anim.add_frame(frame, edit_index);
        },
        None => {},
    }
    assert(state@.animations =~= frame_loaded(old(state)@, *cmd, graphic_data).animations);
    Ok(())
}

/// A message on a frame number (1-based) that is out of range.
pub open spec fn out_of_range(what: Seq<char>, frame: nat, frames: nat) -> Seq<char> {
    what + " frame "@ + text::decimal(frame) + " out of range (have "@ + text::decimal(frames)
        + " frames)"@
}

/// Why a composition is refused, if it is.
pub open spec fn compose_error(s: StateView, cmd: KittyCommand) -> Option<Seq<char>> {
    let frames = s.animations[cmd.image_id].frames.len();
    if cmd.image_id == 0 {
        Some("image_id is required for compose"@)
    } else if cmd.columns == 0 {
        Some("source frame must be > 0"@)
    } else if cmd.rows == 0 {
        Some("target frame must be > 0"@)
    } else if !s.animations.contains_key(cmd.image_id) {
        Some("no animation for image id="@ + text::decimal(cmd.image_id as nat))
    } else if cmd.columns > frames {
        Some(out_of_range("source"@, cmd.columns as nat, frames))
    } else if cmd.rows > frames {
        Some(out_of_range("target"@, cmd.rows as nat, frames))
    } else {
        None
    }
}

/// The state with the source frame composited onto the target frame.
pub open spec fn frames_composed(s: StateView, cmd: KittyCommand) -> StateView {
    StateView {
        animations: s.animations.insert(
            cmd.image_id,
            s.animations[cmd.image_id].with_composed(
                cmd.columns - 1,
                cmd.rows - 1,
                mode_of(cmd.offset_x),
            ),
        ),
        ..s
    }
}

/// Whether the area of the source frame can be counted in bytes.
pub open spec fn source_fits(s: StateView, cmd: KittyCommand) -> bool {
    let source = s.animations[cmd.image_id].frames[cmd.columns - 1];
    source.width * source.height * 4 <= usize::MAX
}

fn out_of_range_text(what: &str, frame: usize, frames: usize) -> (r: String)
    ensures
        r@ == out_of_range(what@, frame as nat, frames as nat),
{
    let mut e = what.to_string();
    e.append(" frame ");
    push_decimal(&mut e, frame as u64);
    e.append(" out of range (have ");
    push_decimal(&mut e, frames as u64);
    e.append(" frames)");
    e
}

/// Handle `a=c` (ComposeFrames) — copy pixel data between frames.
///
/// Copies (composites) pixel data from the source frame to the target frame
/// within the same animation.
///
/// Parser key overloading (action `c`):
/// - `c=` → source frame (1-based)
/// - `r=` → target frame (1-based)
/// - `X=` → composition mode (0 = overwrite, 1 = alpha blend)
pub fn compose_frames(state: &mut KittyState, cmd: &KittyCommand) -> (r: Result<(), String>)
    requires
        compose_error(old(state)@, *cmd) is None ==> source_fits(old(state)@, *cmd),
    ensures
        match r {
            Ok(_) => compose_error(old(state)@, *cmd) is None && final(state)@ == frames_composed(
                old(state)@,
                *cmd,
            ),
            Err(e) => compose_error(old(state)@, *cmd) == Some(e@) && final(state)@ == old(state)@,
        },
{
    let image_id: u32 = cmd.image_id;
    if image_id == 0 {
        return Err("image_id is required for compose".to_string());
    }
    // c= → source frame (1-based), r= → target frame (1-based).
    let src_frame_no: usize = cmd.columns as usize;
    let target_frame_no: usize = cmd.rows as usize;
    if src_frame_no == 0 {
        return Err("source frame must be > 0".to_string());
    }
    if target_frame_no == 0 {
        return Err("target frame must be > 0".to_string());
    }
    let frame_count: usize = match state.get_animation(image_id) {
        Some(anim) => anim.frames.len(),
        None => {
            let mut e = "no animation for image id=".to_string();
            push_decimal(&mut e, image_id as u64);
            return Err(e);
        },
    };
    if src_frame_no > frame_count {
        return Err(out_of_range_text("source", src_frame_no, frame_count));
    }
    if target_frame_no > frame_count {
        return Err(out_of_range_text("target", target_frame_no, frame_count));
    }
    match state.get_animation_mut(image_id) {
        Some(anim) => {
            anim.compose(src_frame_no - 1, target_frame_no - 1, compose_mode(cmd.offset_x));
        },
        None => {},
    }
    assert(state@ =~= frames_composed(old(state)@, *cmd));
    Ok(())
}

impl AnimationState {
    /// Composites the frame `source` onto the frame `target`.
    fn compose(&mut self, source: usize, target: usize, mode: CompositionMode)
        requires
            source < old(self)@.frames.len(),
            target < old(self)@.frames.len(),
            old(self)@.frames[source as int].width * old(self)@.frames[source as int].height * 4
                <= usize::MAX,
        ensures
            final(self)@ == old(self)@.with_composed(source as int, target as int, mode),
    {
        let ghost start = self@;
        let src_pixels: Vec<u8> = slice_to_vec(self.frames[source].pixels.as_slice());
        let width: usize = self.frames[source].width;
        let height: usize = self.frames[source].height;
        blit(
            self.frames[target].pixels.as_mut_slice(),
            src_pixels.as_slice(),
            width,
            height,
            mode,
            0,
        );
        assert(self@.frames =~= start.with_composed(source as int, target as int, mode).frames);
    }

    /// Sets playback state, loops, current frame and its duration.
    fn control(&mut self, cmd: &KittyCommand)
        ensures
            final(self)@ == controlled(old(self)@, *cmd),
    {
        let ghost start = self@;
        // s= (parsed as cmd.width) → animation state.
        match cmd.width {
            1 => {
                self.state = PlaybackState::Stopped;
            },
            2 => {
                self.state = PlaybackState::Running;
            },
            3 => {
                self.state = PlaybackState::Loading;
            },
            _ => {},
        }
        // v= (parsed as cmd.height) → loop count (0 = infinite).
        if cmd.height > 0 {
            self.loops = cmd.height;
        }
        // r= (parsed as cmd.rows) → set current frame (1-based).
        if cmd.rows > 0 {
            let idx: usize = (cmd.rows as usize) - 1;
            if idx < self.frames.len() {
                self.current_frame = idx;
            }
        }
        // z= (parsed as cmd.z_index) → set gap_ms for current frame.
        if cmd.z_index > 0 {
            let current: usize = self.current_frame;
            if current < self.frames.len() {
                self.frames[current].gap_ms = cmd.z_index as u32;
            }
        }
        assert(self@.frames =~= controlled(start, *cmd).frames);
    }
}

/// The animation after a control command.
pub open spec fn controlled(anim: AnimationView, cmd: KittyCommand) -> AnimationView {
    let current = if 0 < cmd.rows <= anim.frames.len() {
        (cmd.rows - 1) as usize
    } else {
        anim.current_frame
    };
    AnimationView {
        state: if cmd.width == 1 {
            PlaybackState::Stopped
        } else if cmd.width == 2 {
            PlaybackState::Running
        } else if cmd.width == 3 {
            PlaybackState::Loading
        } else {
            anim.state
        },
        loops: if cmd.height > 0 {
            cmd.height
        } else {
            anim.loops
        },
        current_frame: current,
        frames: if cmd.z_index > 0 && current < anim.frames.len() {
            anim.frames.update(
                current as int,
                FrameView { gap_ms: cmd.z_index as u32, ..anim.frames[current as int] },
            )
        } else {
            anim.frames
        },
        ..anim
    }
}

/// The state after a control command; unchanged where there is no animation.
pub open spec fn animation_controlled(s: StateView, cmd: KittyCommand) -> StateView {
    let id = cmd.image_id;
    if id != 0 && s.animations.contains_key(id) {
        StateView { animations: s.animations.insert(id, controlled(s.animations[id], cmd)), ..s }
    } else {
        s
    }
}

/// Handle `a=a` (AnimationControl) — control playback state, loops, and current frame.
///
/// Parser key overloading (action `a`):
/// - `s=` (parsed as `cmd.width`) → animation state: 1=stop, 2=running, 3=loading
/// - `v=` (parsed as `cmd.height`) → loop count (0 = infinite)
/// - `r=` (parsed as `cmd.rows`) → set current frame (1-based)
/// - `z=` (parsed as `cmd.z_index`) → set gap_ms for current frame
pub fn control_animation(state: &mut KittyState, cmd: &KittyCommand)
    ensures
        final(state)@ == animation_controlled(old(state)@, *cmd),
{
    if cmd.image_id == 0 {
        return;
    }
    match state.get_animation_mut(cmd.image_id) {
        Some(anim) => {
            anim.control(cmd);
        },
        None => {},
    }
}

// ── Checks for callers ─────────────────────────────────────────────────

/// What `load_animation_frame` asks of its caller.
pub fn can_load_frame(
    state: &KittyState,
    cmd: &KittyCommand,
    decoded: &Result<GraphicData, String>,
) -> (r: bool)
    ensures
        r == (frame_error(state@, *cmd, *decoded) is None ==> has_canvas(state@, cmd.image_id)),
{
    if decoded.is_err() || cmd.image_id == 0 {
        return true;
    }
    let limit: usize = isize::MAX as usize / 4;
    match state.get_animation(cmd.image_id) {
        Some(anim) => {
            anim.frames.len() > 0 && {
                let frame = &anim.frames[0];
                assert(anim@.frames[0] == frame@);
                product_within(frame.width, frame.height, limit)
            }
        },
        None => match state.get_image(cmd.image_id) {
            Some(img) => product_within(img.data.width, img.data.height, limit),
            None => true,
        },
    }
}

/// What `compose_frames` asks of its caller.
pub fn can_compose(state: &KittyState, cmd: &KittyCommand) -> (r: bool)
    ensures
        r == (compose_error(state@, *cmd) is None ==> source_fits(state@, *cmd)),
{
    match state.get_animation(cmd.image_id) {
        Some(anim) => {
            let source: usize = cmd.columns as usize;
            let target: usize = cmd.rows as usize;
            let frames: usize = anim.frames.len();
            if cmd.image_id == 0 || source == 0 || target == 0 || source > frames || target
                > frames {
                return true;
            }
            let frame = &anim.frames[source - 1];
            assert(anim@.frames[source - 1] == frame@);
            product_within(frame.width, frame.height, usize::MAX / 4)
        },
        None => true,
    }
}

} // verus!
