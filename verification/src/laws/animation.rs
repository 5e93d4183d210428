//! Laws of frames and their composition.
use vstd::prelude::*;

use crate::graphics;
use crate::graphics::{ColorType, GraphicData};
use crate::kitty::animation;
use crate::kitty::animation::{AnimationView, CompositionMode, FrameView, PlaybackState};
use crate::kitty::state::StateView;
use crate::kitty_parser::KittyCommand;

verus! {

// ── Pixels ─────────────────────────────────────────────────────────────

/// A transparent pixel over another changes nothing; an opaque one replaces it.
pub proof fn law_blend_extremes(src: Seq<u8>, dst: Seq<u8>, c: int)
    requires
        0 <= c < 4,
    ensures
        src[3] == 0 ==> animation::byte_over(src, dst, c) == dst[c],
        src[3] == 255 ==> animation::byte_over(src, dst, c) == src[c],
{
}

/// Over a transparent pixel a pixel comes out as it is; a transparent one leaves
/// the transparent pixel as it was.
pub proof fn law_blend_over_transparent(src: Seq<u8>, dst: Seq<u8>, c: int)
    requires
        0 <= c < 4,
        src[3] != 0,
        dst[3] == 0,
    ensures
        animation::byte_over(src, dst, c) == src[c],
{
    let sa = src[3] as int;
    if sa != 255 && c != 3 {
        let sc = src[c] as int;
        let dc = dst[c] as int;
        assert(dc * 0 * (255 - sa) == 0) by (nonlinear_arith);
        assert(0 * (255 - sa) == 0) by (nonlinear_arith);
        assert(sc * sa / sa == sc) by (nonlinear_arith)
            requires
                sa > 0,
        ;
        assert((sc * sa * 255 + sa * 255 - 1) / (sa * 255) == sc) by (nonlinear_arith)
            requires
                sa > 0,
        ;
    }
}

/// A color channel of a pixel over another lies between the two, whatever their
/// alphas: equal colors stay as they are.
pub proof fn law_blend_lies_between(src: Seq<u8>, dst: Seq<u8>, c: int)
    requires
        0 <= c < 3,
    ensures
        src[c] <= dst[c] ==> src[c] <= animation::byte_over(src, dst, c) <= dst[c],
        dst[c] <= src[c] ==> dst[c] <= animation::byte_over(src, dst, c) <= src[c],
{
    if src[3] != 0 {
        animation::lemma_channel_over(
            src[c] as int,
            src[3] as int,
            dst[c] as int,
            dst[3] as int,
        );
    }
}

/// The alpha of a blend is `sa + da × (1 − sa/255)`, rounded down. Each color
/// channel is the mean of the two, weighted by `sa` and `da × (1 − sa/255)`, rounded
/// down or up: no more than what the sum of the weighted channels divided by the
/// alpha gives, and less only where that lies above the mean.
pub proof fn law_blend_is_the_weighted_mean(src: Seq<u8>, dst: Seq<u8>, c: int)
    requires
        0 <= c < 3,
        0 < src[3] < 255,
    ensures
        ({
            let sa = src[3] as int;
            let rest = dst[3] * (255 - sa);
            let weight = 255 * sa + rest;
            let sum = src[c] * (255 * sa) + dst[c] * rest;
            let alpha = animation::byte_over(src, dst, 3) as int;
            let r = animation::byte_over(src, dst, c) as int;
            &&& 255 * alpha <= weight < 255 * (alpha + 1)
            &&& sum - weight < r * weight < sum + weight
            &&& 255 * (r * alpha) <= sum
            &&& 255 * ((r + 1) * alpha) > sum || r * weight >= sum
        }),
{
    let sc = src[c] as int;
    let sa = src[3] as int;
    let dc = dst[c] as int;
    let da = dst[3] as int;
    let rest = da * (255 - sa);
    let sum = animation::channel_sum(sc, sa, dc, da);
    let weight = animation::channel_weight(sa, da);
    let alpha = animation::alpha_over(sa, da);
    let r = animation::channel_over(sc, sa, dc, da);
    animation::lemma_channel_over(sc, sa, dc, da);
    assert(sum == sc * (255 * sa) + dc * rest) by (nonlinear_arith)
        requires
            sum == sc * sa * 255 + dc * da * (255 - sa),
            rest == da * (255 - sa),
    ;
    assert(0 <= rest <= 255 * (255 - sa)) by (nonlinear_arith)
        requires
            rest == da * (255 - sa),
            0 <= da <= 255,
            0 < sa < 255,
    ;
    assert(sum - weight < r * weight < sum + weight) by (nonlinear_arith)
        requires
            sum / weight <= r <= (sum + weight - 1) / weight,
            weight > 0,
    ;
    let part = dc * da * (255 - sa) / 255;
    let quotient = (sc * sa + part) / alpha;
    assert(dc * da * (255 - sa) == dc * rest) by (nonlinear_arith)
        requires
            rest == da * (255 - sa),
    ;
    assert(sc * (255 * sa) == 255 * (sc * sa)) by (nonlinear_arith);
    assert(r * alpha <= sc * sa + part) by (nonlinear_arith)
        requires
            r <= quotient,
            quotient == (sc * sa + part) / alpha,
            alpha > 0,
    ;
    if r == quotient {
        assert((r + 1) * alpha > sc * sa + part) by (nonlinear_arith)
            requires
                r == (sc * sa + part) / alpha,
                alpha > 0,
        ;
    } else {
        assert(r * weight >= sum) by (nonlinear_arith)
            requires
                r == (sum + weight - 1) / weight,
                weight > 0,
        ;
    }
}

/// Over an opaque pixel the result is opaque, and each color channel is the mean
/// of the two, weighted by the alpha, rounded down.
pub proof fn law_blend_over_opaque(src: Seq<u8>, dst: Seq<u8>, c: int)
    requires
        0 <= c < 3,
        dst[3] == 255,
    ensures
        animation::byte_over(src, dst, 3) == 255,
        animation::byte_over(src, dst, c) == (src[c] * src[3] + dst[c] * (255 - src[3])) / 255,
{
    let sa = src[3] as int;
    let sc = src[c] as int;
    let dc = dst[c] as int;
    let inv = 255 - sa;
    let sum = sc * sa + dc * inv;
    assert(255 * inv / 255 == inv);
    if sa == 0 {
        assert(sc * sa == 0) by (nonlinear_arith)
            requires
                sa == 0,
        ;
        assert(dc * inv == dc * 255);
    } else if sa == 255 {
        assert(dc * inv == 0) by (nonlinear_arith)
            requires
                inv == 0,
        ;
        assert(sc * sa == sc * 255);
    } else {
        animation::lemma_channel_over(sc, sa, dc, 255);
        assert(sc * sa * 255 + dc * 255 * inv == sum * 255) by (nonlinear_arith)
            requires
                sum == sc * sa + dc * inv,
        ;
        assert(dc * 255 * inv / 255 == dc * inv) by (nonlinear_arith);
        assert(sum / 255 <= (sum * 255 + 65025 - 1) / 65025);
    }
}

/// Composition changes no length, and nothing behind the frame.
pub proof fn law_blit_keeps_the_rest(
    dst: Seq<u8>,
    src: Seq<u8>,
    width: int,
    height: int,
    mode: CompositionMode,
    background: u32,
)
    ensures
        animation::blitted(dst, src, width, height, mode, background).len() == dst.len(),
        forall|i: int|
            0 <= i < dst.len() && i >= width * height * 4 ==> #[trigger] animation::blitted(
                dst,
                src,
                width,
                height,
                mode,
                background,
            )[i] == dst[i],
{
}

/// Overwriting a frame with pixels of its own size gives those pixels, whatever
/// was there and whatever the background.
pub proof fn law_overwrite_replaces(
    dst: Seq<u8>,
    src: Seq<u8>,
    width: int,
    height: int,
    background: u32,
)
    requires
        dst.len() == width * height * 4,
        src.len() == dst.len(),
    ensures
        animation::blitted(dst, src, width, height, CompositionMode::Overwrite, background) == src,
{
    assert(animation::blitted(dst, src, width, height, CompositionMode::Overwrite, background)
        =~= src);
}

/// A background color is made of its red, green, blue and alpha, from the highest
/// byte to the lowest.
pub proof fn law_background_is_its_bytes(background: u32)
    ensures
        background == animation::background_byte(background, 0) * 0x100_0000
            + animation::background_byte(background, 1) * 0x1_0000 + animation::background_byte(
            background,
            2,
        ) * 0x100 + animation::background_byte(background, 3),
{
}

/// Composition works pixel by pixel. A background fills the frame first. Then each
/// pixel that the source has replaces the one below it, or is blended over it.
pub proof fn law_blit_is_pixelwise(
    dst: Seq<u8>,
    src: Seq<u8>,
    width: int,
    height: int,
    mode: CompositionMode,
    background: u32,
    p: int,
    c: int,
)
    requires
        0 <= p < width * height,
        4 * p + 4 <= dst.len(),
        0 <= c < 4,
    ensures
        ({
            let below = if background == 0 {
                dst.subrange(4 * p, 4 * p + 4)
            } else {
                Seq::new(4, |k: int| animation::background_byte(background, k))
            };
            let r = animation::blitted(dst, src, width, height, mode, background)[4 * p + c];
            if 4 * p + 4 > src.len() {
                r == below[c]
            } else if mode == CompositionMode::Overwrite {
                r == src[4 * p + c]
            } else {
                r == animation::byte_over(src.subrange(4 * p, 4 * p + 4), below, c)
            }
        }),
{
    let i = 4 * p + c;
    assert(i / 4 == p && i % 4 == c);
    let base = animation::filled(
        dst,
        animation::min(dst.len() as int / 4, width * height),
        background,
    );
    let below = if background == 0 {
        dst.subrange(4 * p, 4 * p + 4)
    } else {
        Seq::new(4, |k: int| animation::background_byte(background, k))
    };
    assert(animation::pixel(base, p) =~= below) by {
        assert forall|k: int| 0 <= k < 4 implies animation::pixel(base, p)[k] == below[k] by {
            assert((4 * p + k) / 4 == p && (4 * p + k) % 4 == k);
        }
    }
}

/// Blending a frame of transparent pixels onto a background shows the background
/// alone.
pub proof fn law_background_shows_through(
    dst: Seq<u8>,
    src: Seq<u8>,
    width: int,
    height: int,
    background: u32,
)
    requires
        dst.len() == width * height * 4,
        src.len() == dst.len(),
        forall|p: int| 0 <= p < width * height ==> (#[trigger] animation::pixel(src, p))[3] == 0,
        background != 0,
    ensures
        animation::blitted(dst, src, width, height, CompositionMode::AlphaBlend, background)
            == animation::background_canvas(width * height, background),
{
    let result = animation::blitted(
        dst,
        src,
        width,
        height,
        CompositionMode::AlphaBlend,
        background,
    );
    let base = animation::filled(dst, width * height, background);
    assert forall|i: int| 0 <= i < dst.len() implies #[trigger] result[i]
        == animation::background_byte(background, i % 4) by {
        assert(animation::pixel(src, i / 4)[3] == 0);
        assert(animation::pixel(base, i / 4)[i % 4] == base[i]);
    }
    assert(result =~= animation::background_canvas(width * height, background));
}

// ── Frames ─────────────────────────────────────────────────────────────

/// A frame goes in place of the one it edits or behind the last; the other frames
/// and the playback stay as they are.
pub proof fn law_adding_keeps_other_frames(
    anim: AnimationView,
    frame: FrameView,
    edit_index: Option<usize>,
)
    ensures
        ({
            let after = anim.with_frame(frame, edit_index);
            let at = match edit_index {
                Some(idx) if idx < anim.frames.len() => idx as int,
                _ => anim.frames.len() as int,
            };
            &&& after == (AnimationView { frames: after.frames, ..anim })
            &&& after.frames.len() == if at == anim.frames.len() {
                anim.frames.len() + 1
            } else {
                anim.frames.len()
            }
            &&& after.frames[at] == frame
            &&& forall|i: int|
                0 <= i < anim.frames.len() && i != at ==> #[trigger] after.frames[i]
                    == anim.frames[i]
        }),
{
}

/// The first frame sent for a plain image promotes it: the image becomes frame 0,
/// the new frame follows it, and the stored image stays as it is. (A frame that
/// edits frame 1 takes the place of the image's own.)
pub proof fn law_promotion_keeps_image(s: StateView, cmd: KittyCommand, data: GraphicData)
    requires
        !s.animations.contains_key(cmd.image_id),
        s.images.contains_key(cmd.image_id),
        cmd.rows != 1,
    ensures
        ({
            let after = animation::frame_loaded(s, cmd, data);
            let anim = after.animations[cmd.image_id];
            &&& after.images == s.images
            &&& after.animations.contains_key(cmd.image_id)
            &&& anim.frames.len() == 2
            &&& anim.frames[0] == animation::first_frame(s.images[cmd.image_id])
            &&& anim.frames[1] == animation::new_frame(
                animation::animation_of(s, cmd.image_id),
                cmd,
                data,
            )
        }),
{
}

/// A frame that covers only a part of the canvas changes only that part: outside
/// the rectangle that is sent the frame is the canvas it starts from, inside it
/// the pixels sent replace that canvas or are blended onto it.
pub proof fn law_delta_frame_keeps_the_rest(
    anim: AnimationView,
    cmd: KittyCommand,
    data: GraphicData,
    col: int,
    row: int,
    c: int,
)
    requires
        uniform(anim),
        data.pixels.len() == data.width * data.height * data.color_type.bytes_per_pixel(),
        cmd.src_x != 0 || cmd.src_y != 0 || data.width != anim.frames[0].width || data.height
            != anim.frames[0].height,
        0 <= col < anim.frames[0].width,
        0 <= row < anim.frames[0].height,
        0 <= c < 4,
    ensures
        ({
            let start = animation::start_canvas(anim, cmd);
            let src = graphics::as_rgba(data.pixels@, data.color_type);
            let p = row * anim.frames[0].width + col;
            let sent = cmd.src_x <= col < cmd.src_x + data.width && cmd.src_y <= row < cmd.src_y
                + data.height;
            let k = (row - cmd.src_y) * data.width + (col - cmd.src_x);
            animation::new_frame(anim, cmd, data).pixels[4 * p + c] == if !sent {
                start[4 * p + c]
            } else if cmd.offset_x == 1 {
                animation::byte_over(animation::pixel(src, k), animation::pixel(start, p), c)
            } else {
                src[4 * k + c]
            }
        }),
{
    let w = anim.frames[0].width as int;
    let h = anim.frames[0].height as int;
    let p = row * w + col;
    let i = 4 * p + c;
    let src = graphics::as_rgba(data.pixels@, data.color_type);
    graphics::lemma_cell(row, col, w);
    assert(i / 4 == p && i % 4 == c);
    assert(p < w * h) by (nonlinear_arith)
        requires
            p == row * w + col,
            0 <= col < w,
            row < h,
    ;
    assert(w * h >= 0) by (nonlinear_arith)
        requires
            w >= 0,
            h >= 0,
    ;
    let base = animation::start_canvas(anim, cmd);
    assert(base.len() == w * h * 4);
    let sw = data.width as int;
    let sh = data.height as int;
    assert(sw * sh * 3 / 3 * 4 == sw * sh * 4);
    assert(src.len() == sw * sh * 4);
    if cmd.src_x <= col < cmd.src_x + sw && cmd.src_y <= row < cmd.src_y + sh {
        let r = row - cmd.src_y;
        let columns = animation::min(sw, w - cmd.src_x);
        assert(r * sw + columns <= sw * sh) by (nonlinear_arith)
            requires
                0 <= r < sh,
                0 <= sw,
                columns <= sw,
        ;
        assert(animation::row_present(src, sw, r, columns));
    }
}

/// Byte `c` of pixel `k` of an image, in RGBA.
pub open spec fn rgba_byte(data: GraphicData, k: int, c: int) -> u8 {
    match data.color_type {
        ColorType::Rgba => data.pixels@[4 * k + c],
        ColorType::Rgb => if c == 3 {
            255
        } else {
            data.pixels@[3 * k + c]
        },
    }
}

/// A frame that is loaded takes the place of the one that `r=` names (1-based) or
/// follows the last. It starts as a copy of the frame that `c=` names (1-based), else
/// of the one it replaces, else as the background. Where a pixel is sent, it replaces
/// the one there, or is blended over it for `X=1`; every other pixel stays. Of pixels
/// that do not fill the size they are sent with, those that cover the canvas count as
/// far as they go, others row by row as far as the rows are whole on the canvas.
pub proof fn law_frame_is_sent_pixels_on_its_base(
    s: StateView,
    cmd: KittyCommand,
    data: GraphicData,
    col: int,
    row: int,
    c: int,
)
    requires
        s.animations.contains_key(cmd.image_id),
        ({
            let before = s.animations[cmd.image_id];
            let n = before.frames.len();
            let p = row * before.frames[0].width + col;
            &&& n > 0
            &&& 0 <= col < before.frames[0].width
            &&& 0 <= row < before.frames[0].height
            &&& 1 <= cmd.columns <= n ==> 4 * p + 4 <= before.frames[cmd.columns
                - 1].pixels.len()
            &&& cmd.columns == 0 && 1 <= cmd.rows <= n ==> 4 * p + 4 <= before.frames[cmd.rows
                - 1].pixels.len()
        }),
        0 <= c < 4,
    ensures
        ({
            let before = s.animations[cmd.image_id];
            let after = animation::frame_loaded(s, cmd, data).animations[cmd.image_id];
            let n = before.frames.len();
            let w = before.frames[0].width;
            let h = before.frames[0].height;
            let edits = 1 <= cmd.rows <= n;
            let at = if edits {
                cmd.rows - 1
            } else {
                n as int
            };
            let p = row * w + col;
            let below = Seq::new(
                4,
                |b: int|
                    if 1 <= cmd.columns <= n {
                        before.frames[cmd.columns - 1].pixels[4 * p + b]
                    } else if cmd.columns == 0 && edits {
                        before.frames[cmd.rows - 1].pixels[4 * p + b]
                    } else {
                        animation::background_byte(cmd.offset_y, b)
                    },
            );
            let x = col - cmd.src_x;
            let y = row - cmd.src_y;
            let have = data.pixels.len() as int / data.color_type.bytes_per_pixel();
            let covers = cmd.src_x == 0 && cmd.src_y == 0 && data.width == w && data.height == h;
            let there = if covers {
                p < have
            } else if data.width <= w - cmd.src_x {
                y * data.width + data.width <= have
            } else {
                y * data.width + (w - cmd.src_x) <= have
            };
            let sent = Seq::new(4, |b: int| rgba_byte(data, y * data.width + x, b));
            let r = after.frames[at].pixels[4 * p + c];
            &&& after.frames[at].pixels.len() == if 1 <= cmd.columns <= n {
                before.frames[cmd.columns - 1].pixels.len() as int
            } else if cmd.columns == 0 && edits {
                before.frames[cmd.rows - 1].pixels.len() as int
            } else {
                w * h * 4
            }
            &&& if 0 <= x < data.width && 0 <= y < data.height && there {
                if cmd.offset_x == 1 {
                    r == animation::byte_over(sent, below, c)
                } else {
                    r == sent[c]
                }
            } else {
                r == below[c]
            }
        }),
{
    let anim = s.animations[cmd.image_id];
    let w = anim.frames[0].width as int;
    let h = anim.frames[0].height as int;
    let p = row * w + col;
    let i = 4 * p + c;
    let x = col - cmd.src_x;
    let y = row - cmd.src_y;
    let sw = data.width as int;
    let sh = data.height as int;
    let k = y * sw + x;
    let start = animation::start_canvas(anim, cmd);
    let src = graphics::as_rgba(data.pixels@, data.color_type);
    let bpp = data.color_type.bytes_per_pixel();
    let have = data.pixels.len() as int / bpp;
    graphics::lemma_cell(row, col, w);
    assert(p < w * h) by (nonlinear_arith)
        requires
            p == row * w + col,
            0 <= col < w,
            row < h,
    ;
    assert(i / 4 == p && i % 4 == c);
    assert(4 * have <= src.len() < 4 * have + 4);
    assert(4 * p + 4 <= start.len());
    if 0 <= x < sw && 0 <= y < sh && k < have {
        assert(0 <= k) by (nonlinear_arith)
            requires
                k == y * sw + x,
                0 <= x < sw,
                0 <= y,
        ;
        assert forall|b: int| 0 <= b < 4 implies #[trigger] src[4 * k + b] == rgba_byte(
            data,
            k,
            b,
        ) by {
            assert((4 * k + b) / 4 == k && (4 * k + b) % 4 == b);
        }
        assert(animation::pixel(src, k) =~= Seq::new(4, |b: int| rgba_byte(data, k, b)));
    }
    if cmd.src_x == 0 && cmd.src_y == 0 && sw == w && sh == h {
        assert(k == p);
        law_blit_is_pixelwise(start, src, w, h, animation::mode_of(cmd.offset_x), 0, p, c);
    }
    let below = Seq::new(4, |b: int| start[4 * p + b]);
    assert(animation::pixel(start, p) =~= below);
    assert forall|b: int| 0 <= b < 4 implies start[4 * p + b] == (if 1 <= cmd.columns
        <= anim.frames.len() {
        anim.frames[cmd.columns - 1].pixels[4 * p + b]
    } else if cmd.columns == 0 && 1 <= cmd.rows <= anim.frames.len() {
        anim.frames[cmd.rows - 1].pixels[4 * p + b]
    } else {
        animation::background_byte(cmd.offset_y, b)
    }) by {
        assert((4 * p + b) / 4 == p && (4 * p + b) % 4 == b);
    }
    assert(below =~= Seq::new(
        4,
        |b: int|
            if 1 <= cmd.columns <= anim.frames.len() {
                anim.frames[cmd.columns - 1].pixels[4 * p + b]
            } else if cmd.columns == 0 && 1 <= cmd.rows <= anim.frames.len() {
                anim.frames[cmd.rows - 1].pixels[4 * p + b]
            } else {
                animation::background_byte(cmd.offset_y, b)
            },
    ));
}

/// A frame of transparent pixels that is blended onto another frame is a copy of
/// that frame.
pub proof fn law_transparent_frame_copies_its_base(
    s: StateView,
    cmd: KittyCommand,
    data: GraphicData,
)
    requires
        s.animations.contains_key(cmd.image_id),
        uniform(s.animations[cmd.image_id]),
        1 <= cmd.columns <= s.animations[cmd.image_id].frames.len(),
        cmd.offset_x == 1,
        data.color_type == ColorType::Rgba,
        data.pixels.len() == data.width * data.height * 4,
        forall|k: int|
            0 <= k < data.width * data.height ==> #[trigger] data.pixels@[4 * k + 3] == 0,
    ensures
        ({
            let before = s.animations[cmd.image_id];
            let after = animation::frame_loaded(s, cmd, data).animations[cmd.image_id];
            let at = if 1 <= cmd.rows <= before.frames.len() {
                cmd.rows - 1
            } else {
                before.frames.len() as int
            };
            after.frames[at].pixels == before.frames[cmd.columns - 1].pixels
        }),
{
    let before = s.animations[cmd.image_id];
    let after = animation::frame_loaded(s, cmd, data).animations[cmd.image_id];
    let at = if 1 <= cmd.rows <= before.frames.len() {
        cmd.rows - 1
    } else {
        before.frames.len() as int
    };
    let w = before.frames[0].width as int;
    let h = before.frames[0].height as int;
    let result = after.frames[at].pixels;
    let base = before.frames[cmd.columns - 1].pixels;
    law_loading_keeps_frames_uniform(before, cmd, data);
    assert(result.len() == w * h * 4);
    assert(base.len() == w * h * 4);
    assert forall|i: int| 0 <= i < w * h * 4 implies result[i] == base[i] by {
        let p = i / 4;
        assert(0 <= p < w * h);
        assert(w > 0) by (nonlinear_arith)
            requires
                0 <= p < w * h,
                w >= 0,
                h >= 0,
        ;
        let row = p / w;
        let col = p % w;
        vstd::arithmetic::div_mod::lemma_fundamental_div_mod(p, w);
        assert(row * w == w * row) by (nonlinear_arith);
        assert(0 <= row < h) by (nonlinear_arith)
            requires
                p == w * row + col,
                0 <= p < w * h,
                0 <= col < w,
        ;
        law_frame_is_sent_pixels_on_its_base(s, cmd, data, col, row, i % 4);
        let x = col - cmd.src_x;
        let y = row - cmd.src_y;
        let sw = data.width as int;
        let sh = data.height as int;
        if 0 <= x < sw && 0 <= y < sh {
            let k = y * sw + x;
            assert(0 <= k < sw * sh) by (nonlinear_arith)
                requires
                    k == y * sw + x,
                    0 <= x < sw,
                    0 <= y < sh,
            ;
            assert(data.pixels@[4 * k + 3] == 0);
        }
    }
    assert(result =~= base);
}

/// What a frame carries beside its pixels: the size of the canvas, its duration (a
/// negative one counts as none), its composition mode and its background. The other
/// frames and the playback stay as they are, and so do the image and all else.
pub proof fn law_frame_carries_its_keys(s: StateView, cmd: KittyCommand, data: GraphicData)
    requires
        s.animations.contains_key(cmd.image_id),
        s.animations[cmd.image_id].frames.len() > 0,
    ensures
        ({
            let loaded = animation::frame_loaded(s, cmd, data);
            let before = s.animations[cmd.image_id];
            let after = loaded.animations[cmd.image_id];
            let n = before.frames.len();
            let edits = 1 <= cmd.rows <= n;
            let at = if edits {
                cmd.rows - 1
            } else {
                n as int
            };
            let frame = after.frames[at];
            &&& after.frames.len() == if edits {
                n
            } else {
                n + 1
            }
            &&& frame.width == before.frames[0].width
            &&& frame.height == before.frames[0].height
            &&& frame.gap_ms == if cmd.z_index > 0 {
                cmd.z_index as int
            } else {
                0
            }
            &&& frame.composition_mode == if cmd.offset_x == 1 {
                CompositionMode::AlphaBlend
            } else {
                CompositionMode::Overwrite
            }
            &&& frame.background == cmd.offset_y
            &&& forall|i: int|
                0 <= i < n && i != at ==> #[trigger] after.frames[i] == before.frames[i]
            &&& after.current_frame == before.current_frame
            &&& after.state == before.state
            &&& after.loops == before.loops
            &&& after.loops_done == before.loops_done
            &&& loaded.animations.remove(cmd.image_id) == s.animations.remove(cmd.image_id)
        }),
{
    let loaded = animation::frame_loaded(s, cmd, data);
    assert(loaded.animations.remove(cmd.image_id) =~= s.animations.remove(cmd.image_id));
}

/// Loading a frame for a plain image does what it does for an animation that still
/// loads and whose only frame is the image.
pub proof fn law_plain_image_is_its_first_frame(
    s: StateView,
    animated: StateView,
    cmd: KittyCommand,
    data: GraphicData,
)
    requires
        !s.animations.contains_key(cmd.image_id),
        s.images.contains_key(cmd.image_id),
        ({
            let image = s.images[cmd.image_id].data;
            let anim = animated.animations[cmd.image_id];
            let frame = anim.frames[0];
            let pixels = image.pixels.len() / 3;
            &&& anim.frames.len() == 1
            &&& frame.width == image.width
            &&& frame.height == image.height
            &&& image.color_type == ColorType::Rgba ==> frame.pixels == image.pixels@
            &&& image.color_type == ColorType::Rgb ==> frame.pixels.len() == 4 * pixels && forall|
                k: int,
                c: int,
            |
                0 <= k < pixels && 0 <= c < 4 ==> #[trigger] frame.pixels[4 * k + c] == rgba_byte(
                    image,
                    k,
                    c,
                )
            &&& frame.gap_ms == 0
            &&& frame.composition_mode == CompositionMode::Overwrite
            &&& frame.background == 0
            &&& anim.current_frame == 0
            &&& anim.state == PlaybackState::Loading
            &&& anim.loops == 0
            &&& anim.loops_done == 0
            &&& animated == (StateView {
                animations: s.animations.insert(cmd.image_id, anim),
                ..s
            })
        }),
    ensures
        animation::frame_loaded(s, cmd, data) == animation::frame_loaded(animated, cmd, data),
{
    let image = s.images[cmd.image_id].data;
    let anim = animated.animations[cmd.image_id];
    let frame = anim.frames[0];
    let first = animation::first_frame(s.images[cmd.image_id]);
    if image.color_type == ColorType::Rgb {
        assert forall|i: int| 0 <= i < frame.pixels.len() implies frame.pixels[i]
            == first.pixels[i] by {
            let k = i / 4;
            let c = i % 4;
            assert(i == 4 * k + c);
            assert(frame.pixels[4 * k + c] == rgba_byte(image, k, c));
        }
        assert(frame.pixels =~= first.pixels);
    }
    assert(frame =~= first);
    assert(anim =~= AnimationView::of_frame(first)) by {
        assert(anim.frames =~= seq![first]);
    }
    assert(animation::frame_loaded(s, cmd, data).animations
        =~= animation::frame_loaded(animated, cmd, data).animations);
}

/// A frame is refused where its payload cannot be decoded, where no image ID is
/// given, or where there is neither an image nor an animation of that ID, and only
/// there.
pub proof fn law_frame_is_refused_without_image(
    s: StateView,
    cmd: KittyCommand,
    decoded: Result<GraphicData, String>,
)
    ensures
        animation::frame_error(s, cmd, decoded) is None <==> decoded is Ok && cmd.image_id != 0 && (
        s.images.contains_key(cmd.image_id) || s.animations.contains_key(cmd.image_id)),
        decoded is Err ==> animation::frame_error(s, cmd, decoded) == Some(decoded->Err_0@),
{
}

/// Composing frames works on the animation of the image: each pixel of the frame
/// that `c=` names replaces that of the frame that `r=` names, or for `X=1` is blended
/// over it, whatever the background of either frame. Where the source frame has no
/// pixel the target keeps its own. Nothing else changes.
pub proof fn law_composing_is_pixelwise(s: StateView, cmd: KittyCommand, p: int, c: int)
    requires
        s.animations.contains_key(cmd.image_id),
        1 <= cmd.columns <= s.animations[cmd.image_id].frames.len(),
        1 <= cmd.rows <= s.animations[cmd.image_id].frames.len(),
        0 <= p,
        4 * p + 4 <= s.animations[cmd.image_id].frames[cmd.rows - 1].pixels.len(),
        0 <= c < 4,
    ensures
        ({
            let composed = animation::frames_composed(s, cmd);
            let before = s.animations[cmd.image_id];
            let after = composed.animations[cmd.image_id];
            let source = before.frames[cmd.columns - 1];
            let target = before.frames[cmd.rows - 1];
            let from = source.pixels.subrange(4 * p, 4 * p + 4);
            let onto = target.pixels.subrange(4 * p, 4 * p + 4);
            let r = after.frames[cmd.rows - 1].pixels[4 * p + c];
            &&& after.frames.len() == before.frames.len()
            &&& if p >= source.width * source.height || 4 * p + 4 > source.pixels.len() {
                r == onto[c]
            } else if cmd.offset_x == 1 {
                r == animation::byte_over(from, onto, c)
            } else {
                r == from[c]
            }
            &&& after.frames[cmd.rows - 1] == (FrameView {
                pixels: after.frames[cmd.rows - 1].pixels,
                ..target
            })
            &&& after.frames[cmd.rows - 1].pixels.len() == target.pixels.len()
            &&& forall|i: int|
                0 <= i < before.frames.len() && i != cmd.rows - 1 ==> #[trigger] after.frames[i]
                    == before.frames[i]
            &&& after == (AnimationView { frames: after.frames, ..before })
            &&& composed.animations.remove(cmd.image_id) == s.animations.remove(cmd.image_id)
        }),
{
    let anim = s.animations[cmd.image_id];
    let source = anim.frames[cmd.columns - 1];
    let target = anim.frames[cmd.rows - 1];
    if p < source.width * source.height {
        law_blit_is_pixelwise(
            target.pixels,
            source.pixels,
            source.width as int,
            source.height as int,
            animation::mode_of(cmd.offset_x),
            0,
            p,
            c,
        );
    } else {
        law_blit_keeps_the_rest(
            target.pixels,
            source.pixels,
            source.width as int,
            source.height as int,
            animation::mode_of(cmd.offset_x),
            0,
        );
    }
    assert(animation::frames_composed(s, cmd).animations.remove(cmd.image_id)
        =~= s.animations.remove(cmd.image_id));
}

/// Blending a transparent frame onto another leaves it as it was.
pub proof fn law_transparent_frame_composes_to_nothing(s: StateView, cmd: KittyCommand)
    requires
        s.animations.contains_key(cmd.image_id),
        uniform(s.animations[cmd.image_id]),
        1 <= cmd.columns <= s.animations[cmd.image_id].frames.len(),
        1 <= cmd.rows <= s.animations[cmd.image_id].frames.len(),
        cmd.offset_x == 1,
        forall|p: int|
            0 <= p < s.animations[cmd.image_id].frames[0].width
                * s.animations[cmd.image_id].frames[0].height ==> #[trigger]
            s.animations[cmd.image_id].frames[cmd.columns - 1].pixels[4 * p + 3] == 0,
    ensures
        animation::frames_composed(s, cmd) == s,
{
    let before = s.animations[cmd.image_id];
    let after = animation::frames_composed(s, cmd).animations[cmd.image_id];
    let source = before.frames[cmd.columns - 1].pixels;
    let target = before.frames[cmd.rows - 1].pixels;
    let result = after.frames[cmd.rows - 1].pixels;
    let pixels = before.frames[0].width * before.frames[0].height;
    assert(source.len() == pixels * 4 && target.len() == pixels * 4);
    assert forall|i: int| 0 <= i < target.len() implies result[i] == target[i] by {
        let p = i / 4;
        law_composing_is_pixelwise(s, cmd, p, i % 4);
        assert(source[4 * p + 3] == 0);
    }
    assert(result =~= target);
    assert(after.frames =~= before.frames);
    assert(animation::frames_composed(s, cmd).animations =~= s.animations);
}

/// A composition is refused exactly where there is no animation of the image, or
/// where a frame is named that does not exist.
pub proof fn law_composition_needs_its_frames(s: StateView, cmd: KittyCommand)
    ensures
        animation::compose_error(s, cmd) is None <==> {
            &&& cmd.image_id != 0
            &&& s.animations.contains_key(cmd.image_id)
            &&& 1 <= cmd.columns <= s.animations[cmd.image_id].frames.len()
            &&& 1 <= cmd.rows <= s.animations[cmd.image_id].frames.len()
        },
{
}

/// A control command does what its keys say: `s=` 1, 2 and 3 stop the animation, run
/// it and set it loading, `v=` gives the loops, `r=` the frame shown (1-based) and
/// `z=` the duration of the frame shown then. A key that is 0 or names no frame
/// leaves things as they were.
pub proof fn law_control_does_what_its_keys_say(s: StateView, cmd: KittyCommand, i: int)
    requires
        cmd.image_id != 0,
        s.animations.contains_key(cmd.image_id),
        0 <= i < s.animations[cmd.image_id].frames.len(),
    ensures
        ({
            let before = s.animations[cmd.image_id];
            let after = animation::animation_controlled(s, cmd).animations[cmd.image_id];
            let n = before.frames.len();
            &&& cmd.width == 1 ==> after.state == PlaybackState::Stopped
            &&& cmd.width == 2 ==> after.state == PlaybackState::Running
            &&& cmd.width == 3 ==> after.state == PlaybackState::Loading
            &&& cmd.width == 0 || cmd.width > 3 ==> after.state == before.state
            &&& cmd.height != 0 ==> after.loops == cmd.height
            &&& cmd.height == 0 ==> after.loops == before.loops
            &&& 1 <= cmd.rows <= n ==> after.current_frame == cmd.rows - 1
            &&& cmd.rows == 0 || cmd.rows > n ==> after.current_frame == before.current_frame
            &&& after.loops_done == before.loops_done
            &&& after.frames.len() == n
            &&& after.frames[i].gap_ms == if cmd.z_index > 0 && i == after.current_frame {
                cmd.z_index as int
            } else {
                before.frames[i].gap_ms as int
            }
            &&& after.frames[i].pixels == before.frames[i].pixels
            &&& after.frames[i].background == before.frames[i].background
        }),
{
}

/// A control command for an image without animation changes nothing.
pub proof fn law_control_without_animation_is_noop(s: StateView, cmd: KittyCommand)
    requires
        cmd.image_id == 0 || !s.animations.contains_key(cmd.image_id),
    ensures
        animation::animation_controlled(s, cmd) == s,
{
}

/// Loading a frame, composing frames and controlling playback touch the
/// animation of one image and nothing else.
pub proof fn law_animation_touches_one_image(s: StateView, cmd: KittyCommand, data: GraphicData)
    ensures
        animation::frame_loaded(s, cmd, data) == (StateView {
            animations: animation::frame_loaded(s, cmd, data).animations,
            ..s
        }),
        animation::frames_composed(s, cmd) == (StateView {
            animations: animation::frames_composed(s, cmd).animations,
            ..s
        }),
        animation::animation_controlled(s, cmd) == (StateView {
            animations: animation::animation_controlled(s, cmd).animations,
            ..s
        }),
        forall|id: u32|
            id != cmd.image_id && s.animations.contains_key(id) ==> {
                &&& #[trigger] animation::frame_loaded(s, cmd, data).animations[id]
                    == s.animations[id]
                &&& animation::frames_composed(s, cmd).animations[id] == s.animations[id]
                &&& animation::animation_controlled(s, cmd).animations[id] == s.animations[id]
            },
{
}

/// Whether every frame of an animation covers the same canvas, pixel for pixel.
pub open spec fn uniform(anim: AnimationView) -> bool {
    &&& anim.frames.len() > 0
    &&& forall|i: int|
        0 <= i < anim.frames.len() ==> {
            &&& (#[trigger] anim.frames[i]).width == anim.frames[0].width
            &&& anim.frames[i].height == anim.frames[0].height
            &&& anim.frames[i].pixels.len() == anim.frames[0].width * anim.frames[0].height * 4
        }
}

/// An image with all its pixels makes a uniform animation.
pub proof fn law_promoted_image_is_uniform(s: StateView, id: u32)
    requires
        s.images.contains_key(id),
        s.images[id].data.pixels.len() == s.images[id].data.width * s.images[id].data.height
            * s.images[id].data.color_type.bytes_per_pixel(),
    ensures
        uniform(AnimationView::of_frame(animation::first_frame(s.images[id]))),
{
    let data = s.images[id].data;
    let pixels = data.width * data.height;
    assert(pixels * 3 / 3 * 4 == pixels * 4);
}

/// Every frame added to a uniform animation covers its canvas, whatever the size
/// and position of the pixels sent.
pub proof fn law_loading_keeps_frames_uniform(
    anim: AnimationView,
    cmd: KittyCommand,
    data: GraphicData,
)
    requires
        uniform(anim),
    ensures
        uniform(
            anim.with_frame(
                animation::new_frame(anim, cmd, data),
                animation::edited_frame(anim, cmd.rows),
            ),
        ),
{
    let after = anim.with_frame(
        animation::new_frame(anim, cmd, data),
        animation::edited_frame(anim, cmd.rows),
    );
    let w = anim.frames[0].width;
    let h = anim.frames[0].height;
    assert(w * h >= 0) by (nonlinear_arith);
    assert(animation::start_canvas(anim, cmd).len() == w * h * 4);
    assert forall|i: int| 0 <= i < after.frames.len() implies {
        &&& (#[trigger] after.frames[i]).width == after.frames[0].width
        &&& after.frames[i].height == after.frames[0].height
        &&& after.frames[i].pixels.len() == after.frames[0].width * after.frames[0].height * 4
    } by {
        assert(after.frames[0].width == w && after.frames[0].height == h);
    }
}

/// Composing frames of a uniform animation changes only the pixels of the target
/// frame, and the animation stays uniform. Overwriting copies the source frame.
pub proof fn law_composing_touches_target_only(
    anim: AnimationView,
    source: int,
    target: int,
    mode: CompositionMode,
)
    requires
        uniform(anim),
        0 <= source < anim.frames.len(),
        0 <= target < anim.frames.len(),
    ensures
        ({
            let after = anim.with_composed(source, target, mode);
            &&& uniform(after)
            &&& after == (AnimationView { frames: after.frames, ..anim })
            &&& after.frames.len() == anim.frames.len()
            &&& after.frames[target] == (FrameView {
                pixels: after.frames[target].pixels,
                ..anim.frames[target]
            })
            &&& forall|i: int|
                0 <= i < anim.frames.len() && i != target ==> #[trigger] after.frames[i]
                    == anim.frames[i]
            &&& mode == CompositionMode::Overwrite ==> after.frames[target].pixels
                == anim.frames[source].pixels
        }),
{
    let s = anim.frames[source];
    let t = anim.frames[target];
    let after = anim.with_composed(source, target, mode);
    assert(s.width == anim.frames[0].width && s.height == anim.frames[0].height);
    assert(t.width == anim.frames[0].width && t.height == anim.frames[0].height);
    law_overwrite_replaces(t.pixels, s.pixels, s.width as int, s.height as int, 0);
    assert forall|i: int| 0 <= i < after.frames.len() implies {
        &&& (#[trigger] after.frames[i]).width == after.frames[0].width
        &&& after.frames[i].height == after.frames[0].height
        &&& after.frames[i].pixels.len() == after.frames[0].width * after.frames[0].height * 4
    } by {
        assert(anim.frames[i].width == anim.frames[0].width);
    }
}

/// Control commands change no pixel and no frame's size, and point at a frame
/// that exists if one was pointed at before.
pub proof fn law_control_keeps_pixels(anim: AnimationView, cmd: KittyCommand)
    ensures
        ({
            let after = animation::controlled(anim, cmd);
            &&& after.frames.len() == anim.frames.len()
            &&& forall|i: int|
                0 <= i < anim.frames.len() ==> #[trigger] after.frames[i] == (FrameView {
                    gap_ms: after.frames[i].gap_ms,
                    ..anim.frames[i]
                })
            &&& anim.current_frame < anim.frames.len() ==> after.current_frame < after.frames.len()
            &&& after.loops_done == anim.loops_done
        }),
{
}

/// The canvas of an animation outlives every change: what loading a frame needs
/// still holds after loading one, composing frames or controlling playback.
pub proof fn law_canvas_stays(s: StateView, cmd: KittyCommand, data: GraphicData, id: u32)
    requires
        animation::has_canvas(s, id),
        animation::has_canvas(s, cmd.image_id),
    ensures
        animation::has_canvas(animation::frame_loaded(s, cmd, data), id),
        animation::compose_error(s, cmd) is None ==> animation::has_canvas(
            animation::frames_composed(s, cmd),
            id,
        ),
        animation::has_canvas(animation::animation_controlled(s, cmd), id),
{
}

} // verus!
