//! Frame compositing: per-item effects and placement, transitions between
//! two items, and blending of layers onto the output frame.
use vstd::prelude::*;

use crate::keyframe::{ease, ease_spec, floor_div, PROGRESS_ONE};
use crate::model::{BlendMode, EffectKind, TransitionKind, WipeDirection, UNIT};

verus! {

/// One pixel, straight (not premultiplied) alpha.
#[derive(Debug, Clone, Copy, PartialEq, Eq, Structural)]
pub struct Rgba {
    pub r: u8,
    pub g: u8,
    pub b: u8,
    pub a: u8,
}

/// A picture, row by row from the top left.
#[derive(Debug, Clone)]
pub struct Frame {
    pub width: u32,
    pub height: u32,
    pub pixels: Vec<Rgba>,
}

impl Frame {
    pub open spec fn wf(&self) -> bool {
        self.pixels.len() == self.width * self.height
    }
}

pub open spec fn clamp_u8(x: int) -> u8 {
    if x < 0 {
        0
    } else if x > 255 {
        255
    } else {
        x as u8
    }
}

/// Brightness `v` (thousandths, `UNIT` leaves the channel as it is) shifts a channel.
pub open spec fn brightness_ch(c: u8, v: int) -> u8 {
    clamp_u8(c + (v - UNIT) * 255 / (UNIT as int))
}

/// Contrast `v` scales a channel's distance from mid-grey.
pub open spec fn contrast_ch(c: u8, v: int) -> u8 {
    clamp_u8(128 + (c - 128) * v / (UNIT as int))
}

/// Saturation `v` scales a channel's distance from the pixel's grey level.
pub open spec fn saturation_ch(c: u8, grey: int, v: int) -> u8 {
    clamp_u8(grey + (c - grey) * v / (UNIT as int))
}

pub open spec fn grey_of(p: Rgba) -> int {
    (p.r + p.g + p.b) / 3
}

/// Offset of coordinate `x` from the middle of `0..w`, in thousandths of the half-width.
pub open spec fn centred(x: int, w: int) -> int {
    (2 * x + 1 - w) * 1000 / w
}

/// Vignette: the share (thousandths) of a pixel's light kept at `(x, y)`.
/// The squared distance from the centre (thousandths, corners near 2000)
/// beyond `radius` darkens by `intensity` per unit.
pub open spec fn vignette_keep(x: int, y: int, w: int, h: int, intensity: int, radius: int) -> int {
    let ex = centred(x, w);
    let ey = centred(y, h);
    let r2 = (ex * ex + ey * ey) / 1000;
    let fall = if r2 > radius {
        r2 - radius
    } else {
        0
    };
    let k = 1000 - intensity * fall / 1000;
    if k < 0 {
        0
    } else if k > 1000 {
        1000
    } else {
        k
    }
}

pub open spec fn max3(a: int, b: int, c: int) -> int {
    if a >= b && a >= c {
        a
    } else if b >= c {
        b
    } else {
        c
    }
}

pub open spec fn min3(a: int, b: int, c: int) -> int {
    if a <= b && a <= c {
        a
    } else if b <= c {
        b
    } else {
        c
    }
}

/// The hue of a pixel, in thousandths of a degree (`0..360000`), for a non-grey pixel.
pub open spec fn hue_of(r: int, g: int, b: int) -> int {
    let mx = max3(r, g, b);
    let d = mx - min3(r, g, b);
    if mx == r {
        ((g - b) * 60_000 / d + 360_000) % 360_000
    } else if mx == g {
        (b - r) * 60_000 / d + 120_000
    } else {
        (r - g) * 60_000 / d + 240_000
    }
}

/// The pixel with value and saturation kept and hue `h` (thousandths of a degree, `0..360000`).
pub open spec fn with_hue(mx: int, mn: int, h: int, a: u8) -> Rgba {
    let d = mx - mn;
    let f = h % 60_000;
    let up = (mn + d * f / 60_000) as u8;
    let down = (mx - d * f / 60_000) as u8;
    let (hi, lo) = (mx as u8, mn as u8);
    let sector = h / 60_000;
    if sector == 0 {
        Rgba { r: hi, g: up, b: lo, a }
    } else if sector == 1 {
        Rgba { r: down, g: hi, b: lo, a }
    } else if sector == 2 {
        Rgba { r: lo, g: hi, b: up, a }
    } else if sector == 3 {
        Rgba { r: lo, g: down, b: hi, a }
    } else if sector == 4 {
        Rgba { r: up, g: lo, b: hi, a }
    } else {
        Rgba { r: hi, g: lo, b: down, a }
    }
}

/// Hue rotation by `value` thousandths of a degree; grey pixels are kept.
pub open spec fn hue_px(p: Rgba, value: int) -> Rgba {
    let (r, g, b) = (p.r as int, p.g as int, p.b as int);
    let mx = max3(r, g, b);
    let mn = min3(r, g, b);
    if mx == mn {
        p
    } else {
        with_hue(mx, mn, (hue_of(r, g, b) + value) % 360_000, p.a)
    }
}

/// Grain: the strength (`0..=255`) for an intensity in thousandths.
pub open spec fn grain_amount(intensity: int) -> int {
    if intensity <= 0 {
        0
    } else if intensity * 50 / 1000 > 255 {
        255
    } else {
        intensity * 50 / 1000
    }
}

/// Grain: the offset added to pixel `i`, from a multiplicative hash of its index.
pub open spec fn grain_noise(i: int, s: int) -> int {
    ((i * 2_654_435_761) % 4_294_967_296) % (2 * s + 1) - s
}

/// The effect's image transform on pixel `p`, number `i` and at `(x, y)` of a
/// `w` by `h` frame. (Blur and sharpen read the neighbourhood: see `effect_spec`.)
pub open spec fn effect_px(kind: EffectKind, p: Rgba, i: int, x: int, y: int, w: int, h: int) -> Rgba {
    match kind {
        EffectKind::Hue { value } => hue_px(p, value as int),
        EffectKind::Vignette { intensity, radius } => {
            let k = vignette_keep(x, y, w, h, intensity as int, radius as int);
            Rgba { r: (p.r * k / 1000) as u8, g: (p.g * k / 1000) as u8, b: (p.b * k / 1000) as u8, a: p.a }
        },
        EffectKind::Grain { intensity } => {
            let n = grain_noise(i, grain_amount(intensity as int));
            Rgba { r: clamp_u8(p.r + n), g: clamp_u8(p.g + n), b: clamp_u8(p.b + n), a: p.a }
        },
        EffectKind::Brightness { value } => Rgba {
            r: brightness_ch(p.r, value as int),
            g: brightness_ch(p.g, value as int),
            b: brightness_ch(p.b, value as int),
            a: p.a,
        },
        EffectKind::Contrast { value } => Rgba {
            r: contrast_ch(p.r, value as int),
            g: contrast_ch(p.g, value as int),
            b: contrast_ch(p.b, value as int),
            a: p.a,
        },
        EffectKind::Saturation { value } => Rgba {
            r: saturation_ch(p.r, grey_of(p), value as int),
            g: saturation_ch(p.g, grey_of(p), value as int),
            b: saturation_ch(p.b, grey_of(p), value as int),
            a: p.a,
        },
        EffectKind::Gain { .. } | EffectKind::Blur { .. } | EffectKind::Sharpen { .. } => p,
    }
}

/// The largest blur reach, in pixels.
pub const MAX_REACH: u32 = 64;

/// How many pixels a blur of `radius` (thousandths of a pixel) reaches on each side.
pub open spec fn blur_reach(radius: int) -> int {
    if radius <= 0 {
        0
    } else if radius / 1000 > MAX_REACH {
        MAX_REACH as int
    } else {
        radius / 1000
    }
}

pub open spec fn channel(p: Rgba, c: int) -> int {
    if c == 0 {
        p.r as int
    } else if c == 1 {
        p.g as int
    } else {
        p.b as int
    }
}

/// Sum of channel `c` over columns `x0..x1` of row `y`.
pub open spec fn row_sum(px: Seq<Rgba>, w: int, y: int, x0: int, x1: int, c: int) -> int
    decreases x1 - x0,
{
    if x1 <= x0 {
        0
    } else {
        row_sum(px, w, y, x0, x1 - 1, c) + channel(px[y * w + x1 - 1], c)
    }
}

/// Sum of channel `c` over the rectangle `x0..x1` by `y0..y1`.
pub open spec fn box_sum(px: Seq<Rgba>, w: int, x0: int, x1: int, y0: int, y1: int, c: int) -> int
    decreases y1 - y0,
{
    if y1 <= y0 {
        0
    } else {
        box_sum(px, w, x0, x1, y0, y1 - 1, c) + row_sum(px, w, y1 - 1, x0, x1, c)
    }
}

pub open spec fn lo_edge(x: int, r: int) -> int {
    if x - r < 0 {
        0
    } else {
        x - r
    }
}

pub open spec fn hi_edge(x: int, r: int, w: int) -> int {
    if x + r + 1 > w {
        w
    } else {
        x + r + 1
    }
}

/// Mean of channel `c` over the pixels within `r` of `(x, y)` (a square, cut by the frame's edges).
pub open spec fn box_mean(px: Seq<Rgba>, w: int, h: int, x: int, y: int, r: int, c: int) -> int {
    let (x0, x1, y0, y1) = (lo_edge(x, r), hi_edge(x, r, w), lo_edge(y, r), hi_edge(y, r, h));
    box_sum(px, w, x0, x1, y0, y1, c) / ((x1 - x0) * (y1 - y0))
}

/// Box blur of reach `r` at `(x, y)`; alpha is kept.
pub open spec fn blur_px(px: Seq<Rgba>, w: int, h: int, x: int, y: int, r: int) -> Rgba {
    Rgba {
        r: box_mean(px, w, h, x, y, r, 0) as u8,
        g: box_mean(px, w, h, x, y, r, 1) as u8,
        b: box_mean(px, w, h, x, y, r, 2) as u8,
        a: px[y * w + x].a,
    }
}

/// Unsharp masking: each channel moves away from its 3 by 3 mean by `amount` (thousandths).
pub open spec fn sharpen_px(px: Seq<Rgba>, w: int, h: int, x: int, y: int, amount: int) -> Rgba {
    let p = px[y * w + x];
    let m = blur_px(px, w, h, x, y, 1);
    Rgba {
        r: clamp_u8(p.r + (p.r - m.r) * amount / 1000),
        g: clamp_u8(p.g + (p.g - m.g) * amount / 1000),
        b: clamp_u8(p.b + (p.b - m.b) * amount / 1000),
        a: p.a,
    }
}

/// The effect applied to every pixel of a `w` by `h` frame.
pub open spec fn effect_spec(kind: EffectKind, px: Seq<Rgba>, w: int, h: int) -> Seq<Rgba> {
    Seq::new(
        px.len(),
        |i: int|
            match kind {
                EffectKind::Blur { radius } => blur_px(px, w, h, i % w, i / w, blur_reach(radius as int)),
                EffectKind::Sharpen { amount } => sharpen_px(px, w, h, i % w, i / w, amount as int),
                _ => effect_px(kind, px[i], i, i % w, i / w, w, h),
            },
    )
}

/// Weighted mean of two channels, weight `w` (parts per million) on `b`.
pub open spec fn mix_ch(a: u8, b: u8, w: int) -> u8 {
    ((a * (PROGRESS_ONE - w) + b * w) / (PROGRESS_ONE as int)) as u8
}

pub open spec fn mix_px(a: Rgba, b: Rgba, w: int) -> Rgba {
    Rgba { r: mix_ch(a.r, b.r, w), g: mix_ch(a.g, b.g, w), b: mix_ch(a.b, b.b, w), a: mix_ch(a.a, b.a, w) }
}

/// Whether pixel `(x, y)` already shows the incoming frame, `w` of the way through a wipe.
pub open spec fn wiped(dir: WipeDirection, x: int, y: int, width: int, height: int, w: int) -> bool {
    match dir {
        WipeDirection::Left => x < w * width / (PROGRESS_ONE as int),
        WipeDirection::Right => x >= width - w * width / (PROGRESS_ONE as int),
        WipeDirection::Up => y < w * height / (PROGRESS_ONE as int),
        WipeDirection::Down => y >= height - w * height / (PROGRESS_ONE as int),
    }
}

/// The transition from `a` to `b` (two frames of one size), `w` of the way through.
pub open spec fn transition_spec(kind: TransitionKind, a: Seq<Rgba>, b: Seq<Rgba>, width: int, height: int, w: int) -> Seq<Rgba> {
    Seq::new(
        a.len(),
        |i: int|
            match kind {
                TransitionKind::CrossFade => mix_px(a[i], b[i], w),
                TransitionKind::Wipe { direction } => if wiped(
                    direction,
                    i % width,
                    i / width,
                    width,
                    height,
                    w,
                ) {
                    b[i]
                } else {
                    a[i]
                },
                TransitionKind::Slide { direction } => slide_px(
                    direction,
                    a,
                    b,
                    i % width,
                    i / width,
                    width,
                    height,
                    w,
                ),
            },
    )
}

/// A slide `w` of the way through: the incoming frame `b` enters from the
/// `dir` edge and pushes the outgoing frame `a` out of the opposite edge.
pub open spec fn slide_px(dir: WipeDirection, a: Seq<Rgba>, b: Seq<Rgba>, x: int, y: int, width: int, height: int, w: int) -> Rgba {
    let cw = w * width / (PROGRESS_ONE as int);
    let ch = w * height / (PROGRESS_ONE as int);
    match dir {
        WipeDirection::Left => if x < cw {
            b[y * width + (x - cw + width)]
        } else {
            a[y * width + (x - cw)]
        },
        WipeDirection::Right => if x >= width - cw {
            b[y * width + (x - (width - cw))]
        } else {
            a[y * width + (x + cw)]
        },
        WipeDirection::Up => if y < ch {
            b[(y - ch + height) * width + x]
        } else {
            a[(y - ch) * width + x]
        },
        WipeDirection::Down => if y >= height - ch {
            b[(y - (height - ch)) * width + x]
        } else {
            a[(y + ch) * width + x]
        },
    }
}

/// Fixed-point one for sines and cosines.
pub const TRIG_ONE: i64 = 1_000_000;

/// The sine of `a` thousandths of a degree, `a` in `0..=180000`, by Bhaskara's
/// rational approximation (exact at 0, 30, 90, 150 and 180 degrees), in
/// millionths.
pub open spec fn half_sine(a: int) -> int {
    let p = a * (180_000 - a);
    4 * p * TRIG_ONE / (40_500_000_000 - p)
}

/// The sine of an angle in thousandths of a degree, in millionths.
pub open spec fn sine(t: int) -> int {
    let a = t % 360_000;
    if a <= 180_000 {
        half_sine(a)
    } else {
        -half_sine(a - 180_000)
    }
}

pub open spec fn cosine(t: int) -> int {
    sine(t + 90_000)
}

/// Where a placement puts a picture: it is scaled about its anchor pixel
/// `(ax, ay)` by `kx` and `ky` (thousandths), turned clockwise by the angle
/// whose cosine and sine (millionths) are `cos` and `sin`, and its anchor
/// lands on `(px, py)`.
#[derive(Debug, Clone, Copy, PartialEq, Eq, Structural)]
pub struct Placement {
    pub px: i64,
    pub py: i64,
    pub ax: i64,
    pub ay: i64,
    pub kx: i64,
    pub ky: i64,
    pub cos: i64,
    pub sin: i64,
}

/// The source coordinates shown at output pixel `(x, y)`: the offset from the
/// anchor's landing point turned back and unscaled (nearest neighbour, rounded down).
pub open spec fn source_xy(x: int, y: int, pl: Placement) -> (int, int) {
    let (u, v) = (x - pl.px, y - pl.py);
    let a = u * pl.cos + v * pl.sin;
    let b = v * pl.cos - u * pl.sin;
    (pl.ax + unscaled(a, pl.kx as int), pl.ay + unscaled(b, pl.ky as int))
}

/// An offset (in millionths of a pixel) undone by scale `k` (thousandths),
/// rounded down; a negative scale mirrors about the anchor.
pub open spec fn unscaled(a: int, k: int) -> int {
    if k > 0 {
        a * 1000 / (k * TRIG_ONE)
    } else {
        -(a * 1000 / (-k * TRIG_ONE))
    }
}

/// The pixel of `src` that lands on `(x, y)`; transparent where `src` does
/// not reach, and everywhere when a scale is zero.
pub open spec fn placed_px(src: Seq<Rgba>, sw: int, sh: int, x: int, y: int, pl: Placement) -> Rgba {
    let (sx, sy) = source_xy(x, y, pl);
    if pl.kx != 0 && pl.ky != 0 && 0 <= sx < sw && 0 <= sy < sh {
        src[sy * sw + sx]
    } else {
        Rgba { r: 0, g: 0, b: 0, a: 0 }
    }
}

/// A `sw` by `sh` picture placed onto a transparent `width` by `height` frame.
pub open spec fn place_spec(src: Seq<Rgba>, sw: int, sh: int, width: int, height: int, pl: Placement) -> Seq<Rgba> {
    Seq::new((width * height) as nat, |i: int| placed_px(src, sw, sh, i % width, i / width, pl))
}

/// The blend mode's colour for a layer channel `s` over a canvas channel `d`.
pub open spec fn blend_ch(mode: BlendMode, s: u8, d: u8) -> int {
    match mode {
        BlendMode::Normal => s as int,
        BlendMode::Add => if s + d > 255 {
            255
        } else {
            s + d
        },
        BlendMode::Multiply => s * d / 255,
        BlendMode::Screen => 255 - (255 - s) * (255 - d) / 255,
    }
}

/// Paints channel `s` over `d` with coverage `k` out of 255.
pub open spec fn over_ch(mode: BlendMode, s: u8, d: u8, k: int) -> u8 {
    ((blend_ch(mode, s, d) * k + d * (255 - k)) / 255) as u8
}

/// Coverage of a layer pixel: its alpha scaled by the opacity (thousandths).
pub open spec fn coverage(p: Rgba, opacity: int) -> int {
    p.a * opacity / (UNIT as int)
}

pub open spec fn paint_px(mode: BlendMode, s: Rgba, d: Rgba, opacity: int) -> Rgba {
    let k = coverage(s, opacity);
    Rgba { r: over_ch(mode, s.r, d.r, k), g: over_ch(mode, s.g, d.g, k), b: over_ch(mode, s.b, d.b, k), a: d.a }
}

pub open spec fn paint_spec(mode: BlendMode, layer: Seq<Rgba>, canvas: Seq<Rgba>, opacity: int) -> Seq<Rgba> {
    Seq::new(canvas.len(), |i: int| paint_px(mode, layer[i], canvas[i], opacity))
}

fn clamp_to_u8(x: i128) -> (r: u8)
    ensures
        r == clamp_u8(x as int),
{
    if x < 0 {
        0
    } else if x > 255 {
        255
    } else {
        x as u8
    }
}

fn scaled_shift(c: u8, base: i128, v: i64) -> (r: u8)
    requires
        -256 <= base <= 256,
    ensures
        r == clamp_u8(base + (c - base) * v / (UNIT as int)),
{
    proof {
        assert(-0x1_0000_0000_0000_0000_0000 <= (c - base) * v <= 0x1_0000_0000_0000_0000_0000)
            by (nonlinear_arith)
            requires
                -512 <= c - base <= 512,
                -0x8000_0000_0000_0000 <= v < 0x8000_0000_0000_0000,
        ;
    }
    let q = floor_div((c as i128 - base) * (v as i128), UNIT as i128);
    proof {
        crate::keyframe::lemma_div_between(
            (c - base) * v,
            -0x1_0000_0000_0000_0000_0000,
            0x1_0000_0000_0000_0000_0000,
            UNIT as int,
        );
    }
    clamp_to_u8(base + q)
}

fn brightness_channel(c: u8, v: i64) -> (r: u8)
    ensures
        r == brightness_ch(c, v as int),
{
    proof {
        assert(-0x1_0000_0000_0000_0000_0000 <= (v - UNIT) * 255 <= 0x1_0000_0000_0000_0000_0000)
            by (nonlinear_arith)
            requires
                -0x8000_0000_0000_0000 <= v < 0x8000_0000_0000_0000,
        ;
    }
    let q = floor_div((v as i128 - UNIT as i128) * 255, UNIT as i128);
    proof {
        crate::keyframe::lemma_div_between(
            (v - UNIT) * 255,
            -0x1_0000_0000_0000_0000_0000,
            0x1_0000_0000_0000_0000_0000,
            UNIT as int,
        );
    }
    clamp_to_u8(c as i128 + q)
}

fn vignette_keep_exec(x: u32, y: u32, w: u32, h: u32, intensity: i64, radius: i64) -> (r: i128)
    requires
        x < w,
        y < h,
    ensures
        r == vignette_keep(x as int, y as int, w as int, h as int, intensity as int, radius as int),
        0 <= r <= 1000,
{
    let ex = floor_div((2 * (x as i128) + 1 - (w as i128)) * 1000, w as i128);
    let ey = floor_div((2 * (y as i128) + 1 - (h as i128)) * 1000, h as i128);
    proof {
        assert(-(w as int) * 1000 <= (2 * x + 1 - w) * 1000 <= (w as int) * 1000) by (nonlinear_arith)
            requires
                x < w,
        ;
        assert(-(h as int) * 1000 <= (2 * y + 1 - h) * 1000 <= (h as int) * 1000) by (nonlinear_arith)
            requires
                y < h,
        ;
        assert(-1000 * w <= (2 * x + 1 - w) * 1000 <= 1000 * w) by (nonlinear_arith)
            requires
                x < w,
        ;
        assert(-1000 * h <= (2 * y + 1 - h) * 1000 <= 1000 * h) by (nonlinear_arith)
            requires
                y < h,
        ;
        crate::keyframe::lemma_div_between((2 * x + 1 - w) * 1000, -1000, 1000, w as int);
        crate::keyframe::lemma_div_between((2 * y + 1 - h) * 1000, -1000, 1000, h as int);
        assert(0 <= ex * ex <= 1_000_000) by (nonlinear_arith)
            requires
                -1000 <= ex <= 1000,
        ;
        assert(0 <= ey * ey <= 1_000_000) by (nonlinear_arith)
            requires
                -1000 <= ey <= 1000,
        ;
        crate::keyframe::lemma_div_le(ex * ex + ey * ey, 2000, 1000);
    }
    let r2 = (ex * ex + ey * ey) / 1000;
    let fall: i128 = if r2 > radius as i128 {
        r2 - radius as i128
    } else {
        0
    };
    proof {
        assert(-0x8000_0000_0000_0000 * (0x8000_0000_0000_0000 + 2000) <= intensity * fall
            <= 0x8000_0000_0000_0000 * (0x8000_0000_0000_0000 + 2000)) by (nonlinear_arith)
            requires
                0 <= fall <= 0x8000_0000_0000_0000 + 2000,
                -0x8000_0000_0000_0000 <= intensity < 0x8000_0000_0000_0000,
        ;
    }
    let q = floor_div((intensity as i128) * fall, 1000);
    proof {
        crate::keyframe::lemma_div_between(
            intensity * fall,
            -0x8000_0000_0000_0000 * (0x8000_0000_0000_0000 + 2000),
            (0x8000_0000_0000_0000 * (0x8000_0000_0000_0000 + 2000)) as int,
            1000,
        );
    }
    let k = 1000 - q;
    if k < 0 {
        0
    } else if k > 1000 {
        1000
    } else {
        k
    }
}

fn grain_noise_exec(i: usize, intensity: i64) -> (r: i32)
    ensures
        r == grain_noise(i as int, grain_amount(intensity as int)),
        -255 <= r <= 255,
{
    let s: u64 = if intensity <= 0 {
        0
    } else if (intensity as u128) * 50 / 1000 > 255 {
        255
    } else {
        ((intensity as u128) * 50 / 1000) as u64
    };
    let hash = ((i as u128) * 2_654_435_761u128) % 4_294_967_296u128;
    let m = hash % (2 * (s as u128) + 1);
    proof {
        vstd::arithmetic::div_mod::lemma_mod_bound(hash as int, 2 * s + 1);
    }
    m as i32 - s as i32
}

fn scale_channel(c: u8, k: i128) -> (r: u8)
    requires
        0 <= k <= 1000,
    ensures
        r == (c * k / 1000) as u8,
        r == c * k / 1000,
{
    proof {
        assert(0 <= c * k <= 255 * 1000) by (nonlinear_arith)
            requires
                0 <= k <= 1000,
                c <= 255,
        ;
        crate::keyframe::lemma_div_le(c * k, 255, 1000);
    }
    ((c as i128) * k / 1000) as u8
}

fn hue_pixel(p: Rgba, value: i64) -> (out: Rgba)
    ensures
        out == hue_px(p, value as int),
{
    let (r, g, b) = (p.r as i128, p.g as i128, p.b as i128);
    let mx = if r >= g && r >= b {
        r
    } else if g >= b {
        g
    } else {
        b
    };
    let mn = if r <= g && r <= b {
        r
    } else if g <= b {
        g
    } else {
        b
    };
    if mx == mn {
        return p;
    }
    let d = mx - mn;
    let h: i128 = if mx == r {
        let q = floor_div((g - b) * 60_000, d);
        proof {
            crate::keyframe::lemma_div_between((g - b) * 60_000, -60_000, 60_000, d as int);
        }
        (q + 360_000) % 360_000
    } else if mx == g {
        let q = floor_div((b - r) * 60_000, d);
        proof {
            crate::keyframe::lemma_div_between((b - r) * 60_000, -60_000, 60_000, d as int);
        }
        q + 120_000
    } else {
        let q = floor_div((r - g) * 60_000, d);
        proof {
            crate::keyframe::lemma_div_between((r - g) * 60_000, -60_000, 60_000, d as int);
        }
        q + 240_000
    };
    let shifted = floor_mod(h + value as i128, 360_000);
    let f = shifted % 60_000;
    proof {
        assert(0 <= d * f <= d * 60_000) by (nonlinear_arith)
            requires
                0 < d,
                0 <= f < 60_000,
        ;
        crate::keyframe::lemma_div_le(d * f, d as int, 60_000);
    }
    let step = d * f / 60_000;
    let up = (mn + step) as u8;
    let down = (mx - step) as u8;
    let (hi, lo) = (mx as u8, mn as u8);
    let sector = shifted / 60_000;
    if sector == 0 {
        Rgba { r: hi, g: up, b: lo, a: p.a }
    } else if sector == 1 {
        Rgba { r: down, g: hi, b: lo, a: p.a }
    } else if sector == 2 {
        Rgba { r: lo, g: hi, b: up, a: p.a }
    } else if sector == 3 {
        Rgba { r: lo, g: down, b: hi, a: p.a }
    } else if sector == 4 {
        Rgba { r: up, g: lo, b: hi, a: p.a }
    } else {
        Rgba { r: hi, g: lo, b: down, a: p.a }
    }
}

/// Remainder of a division by a positive divisor, in `0..d`.
fn floor_mod(n: i128, d: i128) -> (r: i128)
    requires
        0 < d <= 0x1_0000_0000,
        -0x1_0000_0000_0000_0000_0000 <= n <= 0x1_0000_0000_0000_0000_0000,
    ensures
        r == n % d,
        0 <= r < d,
{
    let q = floor_div(n, d);
    proof {
        vstd::arithmetic::div_mod::lemma_fundamental_div_mod(n as int, d as int);
        vstd::arithmetic::div_mod::lemma_mod_bound(n as int, d as int);
        assert(q * d == d * q) by (nonlinear_arith);
        assert(n - q * d == n % d);
        assert(n - d < q * d <= n);
    }
    n - q * d
}

fn effect_pixel(kind: EffectKind, p: Rgba, i: usize, x: u32, y: u32, w: u32, h: u32) -> (r: Rgba)
    requires
        !(kind is Blur),
        !(kind is Sharpen),
        x < w,
        y < h,
    ensures
        r == effect_px(kind, p, i as int, x as int, y as int, w as int, h as int),
{
    match kind {
        EffectKind::Hue { value } => hue_pixel(p, value),
        EffectKind::Vignette { intensity, radius } => {
            let k = vignette_keep_exec(x, y, w, h, intensity, radius);
            Rgba { r: scale_channel(p.r, k), g: scale_channel(p.g, k), b: scale_channel(p.b, k), a: p.a }
        },
        EffectKind::Grain { intensity } => {
            let n = grain_noise_exec(i, intensity) as i128;
            Rgba {
                r: clamp_to_u8(p.r as i128 + n),
                g: clamp_to_u8(p.g as i128 + n),
                b: clamp_to_u8(p.b as i128 + n),
                a: p.a,
            }
        },
        EffectKind::Brightness { value } => Rgba {
            r: brightness_channel(p.r, value),
            g: brightness_channel(p.g, value),
            b: brightness_channel(p.b, value),
            a: p.a,
        },
        EffectKind::Contrast { value } => Rgba {
            r: scaled_shift(p.r, 128, value),
            g: scaled_shift(p.g, 128, value),
            b: scaled_shift(p.b, 128, value),
            a: p.a,
        },
        EffectKind::Saturation { value } => {
            let grey = ((p.r as u32 + p.g as u32 + p.b as u32) / 3) as i128;
            Rgba {
                r: scaled_shift(p.r, grey, value),
                g: scaled_shift(p.g, grey, value),
                b: scaled_shift(p.b, grey, value),
                a: p.a,
            }
        },
        _ => p,
    }
}

proof fn lemma_row_sum_bound(px: Seq<Rgba>, w: int, y: int, x0: int, x1: int, c: int)
    requires
        x0 <= x1,
    ensures
        0 <= row_sum(px, w, y, x0, x1, c) <= 255 * (x1 - x0),
    decreases x1 - x0,
{
    if x1 > x0 {
        lemma_row_sum_bound(px, w, y, x0, x1 - 1, c);
    }
}

proof fn lemma_box_sum_bound(px: Seq<Rgba>, w: int, x0: int, x1: int, y0: int, y1: int, c: int)
    requires
        x0 <= x1,
        y0 <= y1,
    ensures
        0 <= box_sum(px, w, x0, x1, y0, y1, c) <= 255 * (x1 - x0) * (y1 - y0),
    decreases y1 - y0,
{
    if y1 > y0 {
        lemma_box_sum_bound(px, w, x0, x1, y0, y1 - 1, c);
        lemma_row_sum_bound(px, w, y1 - 1, x0, x1, c);
        assert(255 * (x1 - x0) * (y1 - 1 - y0) + 255 * (x1 - x0) == 255 * (x1 - x0) * (y1 - y0))
            by (nonlinear_arith);
    }
}

fn reach_of(radius: i64) -> (r: u32)
    ensures
        r == blur_reach(radius as int),
        r <= MAX_REACH,
{
    if radius <= 0 {
        0
    } else if radius / 1000 > MAX_REACH as i64 {
        MAX_REACH
    } else {
        (radius / 1000) as u32
    }
}

/// Box blur of reach `r` at `(x, y)` (see `blur_px`).
fn blur_pixel(px: &Vec<Rgba>, w: u32, h: u32, x: u32, y: u32, r: u32) -> (out: Rgba)
    requires
        px.len() == w * h,
        x < w,
        y < h,
        r <= MAX_REACH,
    ensures
        out == blur_px(px@, w as int, h as int, x as int, y as int, r as int),
{
    let x0 = if x < r { 0 } else { x - r };
    let y0 = if y < r { 0 } else { y - r };
    let x1 = if x as u64 + r as u64 + 1 > w as u64 { w } else { x + r + 1 };
    let y1 = if y as u64 + r as u64 + 1 > h as u64 { h } else { y + r + 1 };
    let ghost gw = w as int;
    let mut sr: u64 = 0;
    let mut sg: u64 = 0;
    let mut sb: u64 = 0;
    let mut yy = y0;
    while yy < y1
        invariant
            gw == w as int,
            px.len() == w * h,
            x0 <= x1 <= w,
            y0 <= yy <= y1 <= h,
            x1 - x0 <= 129,
            y1 - y0 <= 129,
            sr == box_sum(px@, gw, x0 as int, x1 as int, y0 as int, yy as int, 0),
            sg == box_sum(px@, gw, x0 as int, x1 as int, y0 as int, yy as int, 1),
            sb == box_sum(px@, gw, x0 as int, x1 as int, y0 as int, yy as int, 2),
        decreases y1 - yy,
    {
        proof {
            lemma_box_sum_bound(px@, gw, x0 as int, x1 as int, y0 as int, yy as int, 0);
            lemma_box_sum_bound(px@, gw, x0 as int, x1 as int, y0 as int, yy as int, 1);
            lemma_box_sum_bound(px@, gw, x0 as int, x1 as int, y0 as int, yy as int, 2);
            assert(255 * (x1 - x0) * (yy - y0) <= 255 * 129 * 129) by (nonlinear_arith)
                requires
                    x1 - x0 <= 129,
                    yy - y0 <= 129,
                    x0 <= x1,
                    y0 <= yy,
            ;
        }
        let mut rr: u64 = 0;
        let mut rg: u64 = 0;
        let mut rb: u64 = 0;
        let mut xx = x0;
        while xx < x1
            invariant
                gw == w as int,
                px.len() == w * h,
                x0 <= xx <= x1 <= w,
                yy < h,
                x1 - x0 <= 129,
                rr == row_sum(px@, gw, yy as int, x0 as int, xx as int, 0),
                rg == row_sum(px@, gw, yy as int, x0 as int, xx as int, 1),
                rb == row_sum(px@, gw, yy as int, x0 as int, xx as int, 2),
            decreases x1 - xx,
        {
            proof {
                lemma_row_sum_bound(px@, gw, yy as int, x0 as int, xx as int, 0);
                lemma_row_sum_bound(px@, gw, yy as int, x0 as int, xx as int, 1);
                lemma_row_sum_bound(px@, gw, yy as int, x0 as int, xx as int, 2);
                assert(yy * w + xx < h * w) by (nonlinear_arith)
                    requires
                        yy < h,
                        xx < w,
                ;
                assert(h * w == w * h) by (nonlinear_arith);
            }
            let p = px[(yy as usize) * (w as usize) + (xx as usize)];
            proof {
                let k = yy as int * gw + xx as int;
                assert(p == px@[k]);
                assert(row_sum(px@, gw, yy as int, x0 as int, xx as int + 1, 0) == rr + p.r);
                assert(row_sum(px@, gw, yy as int, x0 as int, xx as int + 1, 1) == rg + p.g);
                assert(row_sum(px@, gw, yy as int, x0 as int, xx as int + 1, 2) == rb + p.b);
            }
            rr = rr + p.r as u64;
            rg = rg + p.g as u64;
            rb = rb + p.b as u64;
            xx = xx + 1;
        }
        proof {
            lemma_row_sum_bound(px@, gw, yy as int, x0 as int, x1 as int, 0);
            lemma_row_sum_bound(px@, gw, yy as int, x0 as int, x1 as int, 1);
            lemma_row_sum_bound(px@, gw, yy as int, x0 as int, x1 as int, 2);
            lemma_box_sum_bound(px@, gw, x0 as int, x1 as int, y0 as int, yy as int, 0);
            lemma_box_sum_bound(px@, gw, x0 as int, x1 as int, y0 as int, yy as int, 1);
            lemma_box_sum_bound(px@, gw, x0 as int, x1 as int, y0 as int, yy as int, 2);
            assert(255 * (x1 - x0) * (yy - y0) <= 255 * 129 * 129) by (nonlinear_arith)
                requires
                    x1 - x0 <= 129,
                    yy - y0 <= 129,
                    x0 <= x1,
                    y0 <= yy,
            ;
        }
        sr = sr + rr;
        sg = sg + rg;
        sb = sb + rb;
        yy = yy + 1;
    }
    proof {
        assert((x1 - x0) * (y1 - y0) <= 129 * 129) by (nonlinear_arith)
            requires
                x1 - x0 <= 129,
                y1 - y0 <= 129,
                x0 <= x1,
                y0 <= y1,
        ;
    }
    let count = ((x1 - x0) as u64) * ((y1 - y0) as u64);
    proof {
        let (a0, a1, b0, b1) = (x0 as int, x1 as int, y0 as int, y1 as int);
        lemma_box_sum_bound(px@, gw, a0, a1, b0, b1, 0);
        lemma_box_sum_bound(px@, gw, a0, a1, b0, b1, 1);
        lemma_box_sum_bound(px@, gw, a0, a1, b0, b1, 2);
        assert(x1 > x0 && y1 > y0);
        assert(count > 0) by (nonlinear_arith)
            requires
                count == (x1 - x0) * (y1 - y0),
                x1 > x0,
                y1 > y0,
        ;
        assert(255 * (a1 - a0) * (b1 - b0) == 255 * count) by (nonlinear_arith)
            requires
                count == (a1 - a0) * (b1 - b0),
        ;
        crate::keyframe::lemma_div_le(sr as int, 255, count as int);
        crate::keyframe::lemma_div_le(sg as int, 255, count as int);
        crate::keyframe::lemma_div_le(sb as int, 255, count as int);
        assert(y * w + x < h * w) by (nonlinear_arith)
            requires
                y < h,
                x < w,
        ;
        assert(h * w == w * h) by (nonlinear_arith);
    }
    Rgba {
        r: (sr / count) as u8,
        g: (sg / count) as u8,
        b: (sb / count) as u8,
        a: px[(y as usize) * (w as usize) + (x as usize)].a,
    }
}

fn sharpen_channel(c: u8, m: u8, amount: i64) -> (r: u8)
    ensures
        r == clamp_u8(c + (c - m) * amount / 1000),
{
    proof {
        assert(-255 * 0x8000_0000_0000_0000 <= (c - m) * amount <= 255 * 0x8000_0000_0000_0000)
            by (nonlinear_arith)
            requires
                -255 <= c - m <= 255,
                -0x8000_0000_0000_0000 <= amount < 0x8000_0000_0000_0000,
        ;
        crate::keyframe::lemma_div_between(
            (c - m) * amount,
            -255 * 0x8000_0000_0000_0000,
            (255 * 0x8000_0000_0000_0000) as int,
            1000,
        );
    }
    let q = floor_div((c as i128 - m as i128) * (amount as i128), 1000);
    clamp_to_u8(c as i128 + q)
}

/// Unsharp masking at `(x, y)` (see `sharpen_px`).
fn sharpen_pixel(px: &Vec<Rgba>, w: u32, h: u32, x: u32, y: u32, amount: i64) -> (out: Rgba)
    requires
        px.len() == w * h,
        x < w,
        y < h,
    ensures
        out == sharpen_px(px@, w as int, h as int, x as int, y as int, amount as int),
{
    let m = blur_pixel(px, w, h, x, y, 1);
    proof {
        assert(y * w + x < h * w) by (nonlinear_arith)
            requires
                y < h,
                x < w,
        ;
        assert(h * w == w * h) by (nonlinear_arith);
    }
    let p = px[(y as usize) * (w as usize) + (x as usize)];
    Rgba {
        r: sharpen_channel(p.r, m.r, amount),
        g: sharpen_channel(p.g, m.g, amount),
        b: sharpen_channel(p.b, m.b, amount),
        a: p.a,
    }
}

/// Applies an effect's image transform to a frame.
pub fn apply_effect(kind: EffectKind, frame: &Frame) -> (r: Frame)
    requires
        frame.wf(),
    ensures
        r.width == frame.width,
        r.height == frame.height,
        r.pixels@ == effect_spec(kind, frame.pixels@, frame.width as int, frame.height as int),
{
    let ghost spec_px = effect_spec(kind, frame.pixels@, frame.width as int, frame.height as int);
    let (w, h) = (frame.width, frame.height);
    let mut out: Vec<Rgba> = Vec::new();
    let mut y: u32 = 0;
    while y < h
        invariant
            frame.wf(),
            w == frame.width,
            h == frame.height,
            spec_px == effect_spec(kind, frame.pixels@, w as int, h as int),
            y <= h,
            out.len() == y * w,
            forall|j: int| 0 <= j < out.len() ==> out[j] == spec_px[j],
        decreases h - y,
    {
        let mut x: u32 = 0;
        while x < w
            invariant
                frame.wf(),
                w == frame.width,
                h == frame.height,
                spec_px == effect_spec(kind, frame.pixels@, w as int, h as int),
                y < h,
                x <= w,
                out.len() == y * w + x,
                forall|j: int| 0 <= j < out.len() ==> out[j] == spec_px[j],
            decreases w - x,
        {
            let ghost i = y * w + x;
            proof {
                assert(y * w + x < h * w) by (nonlinear_arith)
                    requires
                        y < h,
                        x < w,
                ;
                assert(h * w == w * h) by (nonlinear_arith);
                lemma_coords(i, w as int, x as int, y as int);
            }
            let idx = (y as usize) * (w as usize) + (x as usize);
            let px = match kind {
                EffectKind::Blur { radius } => blur_pixel(&frame.pixels, w, h, x, y, reach_of(radius)),
                EffectKind::Sharpen { amount } => sharpen_pixel(&frame.pixels, w, h, x, y, amount),
                _ => effect_pixel(kind, frame.pixels[idx], idx, x, y, w, h),
            };
            out.push(px);
            x = x + 1;
            proof {
                assert(out.len() == y * w + x) by (nonlinear_arith)
                    requires
                        out.len() == i + 1,
                        i == y * w + (x - 1),
                ;
            }
        }
        y = y + 1;
        proof {
            assert(out.len() == y * w) by (nonlinear_arith)
                requires
                    out.len() == (y - 1) * w + w,
            ;
        }
    }
    proof {
        assert(out.len() == w * h) by (nonlinear_arith)
            requires
                out.len() == h * w,
        ;
        assert(out@ =~= spec_px);
    }
    Frame { width: w, height: h, pixels: out }
}

fn mix_channel(a: u8, b: u8, w: u64) -> (r: u8)
    requires
        w <= PROGRESS_ONE,
    ensures
        r == mix_ch(a, b, w as int),
{
    proof {
        assert(a * (PROGRESS_ONE - w) <= 255 * PROGRESS_ONE) by (nonlinear_arith)
            requires
                a <= 255,
                w <= PROGRESS_ONE,
        ;
        assert(b * w <= 255 * PROGRESS_ONE) by (nonlinear_arith)
            requires
                b <= 255,
                w <= PROGRESS_ONE,
        ;
    }
    let n = (a as u64) * (PROGRESS_ONE - w) + (b as u64) * w;
    proof {
        assert(n <= 255 * PROGRESS_ONE) by (nonlinear_arith)
            requires
                n == a * (PROGRESS_ONE - w) + b * w,
                a <= 255,
                b <= 255,
                w <= PROGRESS_ONE,
        ;
        crate::keyframe::lemma_div_le(n as int, 255, PROGRESS_ONE as int);
    }
    (n / PROGRESS_ONE) as u8
}

fn wipe_covers(dir: WipeDirection, x: u32, y: u32, width: u32, height: u32, w: u64) -> (r: bool)
    requires
        w <= PROGRESS_ONE,
    ensures
        r == wiped(dir, x as int, y as int, width as int, height as int, w as int),
{
    proof {
        assert(w * width <= PROGRESS_ONE * u32::MAX) by (nonlinear_arith)
            requires
                w <= PROGRESS_ONE,
                width <= u32::MAX,
        ;
        assert(w * height <= PROGRESS_ONE * u32::MAX) by (nonlinear_arith)
            requires
                w <= PROGRESS_ONE,
                height <= u32::MAX,
        ;
        assert(w * width <= width * PROGRESS_ONE) by (nonlinear_arith)
            requires
                w <= PROGRESS_ONE,
        ;
        assert(w * height <= height * PROGRESS_ONE) by (nonlinear_arith)
            requires
                w <= PROGRESS_ONE,
        ;
        crate::keyframe::lemma_div_le(w * width, width as int, PROGRESS_ONE as int);
        crate::keyframe::lemma_div_le(w * height, height as int, PROGRESS_ONE as int);
    }
    let cw = (w * (width as u64) / PROGRESS_ONE) as u32;
    let ch = (w * (height as u64) / PROGRESS_ONE) as u32;
    match dir {
        WipeDirection::Left => x < cw,
        WipeDirection::Right => x >= width - cw,
        WipeDirection::Up => y < ch,
        WipeDirection::Down => y >= height - ch,
    }
}

/// The pixel at column `x`, row `y`.
fn pixel_at(f: &Frame, x: u32, y: u32) -> (r: Rgba)
    requires
        f.wf(),
        x < f.width,
        y < f.height,
    ensures
        r == f.pixels@[y * f.width + x],
{
    proof {
        assert(y * f.width + x < f.height * f.width) by (nonlinear_arith)
            requires
                y < f.height,
                x < f.width,
        ;
        assert(f.height * f.width == f.width * f.height) by (nonlinear_arith);
    }
    f.pixels[(y as usize) * (f.width as usize) + (x as usize)]
}

fn slide_pixel(dir: WipeDirection, a: &Frame, b: &Frame, x: u32, y: u32, w: u64) -> (r: Rgba)
    requires
        a.wf(),
        b.wf(),
        a.width == b.width,
        a.height == b.height,
        x < a.width,
        y < a.height,
        w <= PROGRESS_ONE,
    ensures
        r == slide_px(dir, a.pixels@, b.pixels@, x as int, y as int, a.width as int, a.height as int, w as int),
{
    let (width, height) = (a.width, a.height);
    proof {
        assert(w * width <= PROGRESS_ONE * u32::MAX) by (nonlinear_arith)
            requires
                w <= PROGRESS_ONE,
                width <= u32::MAX,
        ;
        assert(w * height <= PROGRESS_ONE * u32::MAX) by (nonlinear_arith)
            requires
                w <= PROGRESS_ONE,
                height <= u32::MAX,
        ;
        assert(w * width <= width * PROGRESS_ONE) by (nonlinear_arith)
            requires
                w <= PROGRESS_ONE,
        ;
        assert(w * height <= height * PROGRESS_ONE) by (nonlinear_arith)
            requires
                w <= PROGRESS_ONE,
        ;
        crate::keyframe::lemma_div_le(w * width, width as int, PROGRESS_ONE as int);
        crate::keyframe::lemma_div_le(w * height, height as int, PROGRESS_ONE as int);
    }
    let cw = (w * (width as u64) / PROGRESS_ONE) as u32;
    let ch = (w * (height as u64) / PROGRESS_ONE) as u32;
    match dir {
        WipeDirection::Left => if x < cw {
            pixel_at(b, x + (width - cw), y)
        } else {
            pixel_at(a, x - cw, y)
        },
        WipeDirection::Right => if x >= width - cw {
            pixel_at(b, x - (width - cw), y)
        } else {
            pixel_at(a, x + cw, y)
        },
        WipeDirection::Up => if y < ch {
            pixel_at(b, x, y + (height - ch))
        } else {
            pixel_at(a, x, y - ch)
        },
        WipeDirection::Down => if y >= height - ch {
            pixel_at(b, x, y - (height - ch))
        } else {
            pixel_at(a, x, y + ch)
        },
    }
}

proof fn lemma_coords(i: int, width: int, x: int, y: int)
    requires
        width > 0,
        0 <= x < width,
        0 <= y,
        i == y * width + x,
    ensures
        i % width == x,
        i / width == y,
{
    vstd::arithmetic::div_mod::lemma_fundamental_div_mod_converse(i, width, y, x);
}

/// The transition engine: blends the outgoing frame `a` into the incoming
/// frame `b`, after passing the linear progress `p` through `easing`.
pub fn transition(
    kind: TransitionKind,
    easing: crate::model::Easing,
    a: &Frame,
    b: &Frame,
    p: u64,
) -> (r: Frame)
    requires
        a.wf(),
        b.wf(),
        a.width == b.width,
        a.height == b.height,
        p <= PROGRESS_ONE,
    ensures
        r.width == a.width,
        r.height == a.height,
        r.pixels@ == transition_spec(
            kind,
            a.pixels@,
            b.pixels@,
            a.width as int,
            a.height as int,
            ease_spec(easing, p as int),
        ),
{
    let w = ease(easing, p);
    let ghost gw = ease_spec(easing, p as int);
    let mut out: Vec<Rgba> = Vec::new();
    let mut y: u32 = 0;
    while y < a.height
        invariant
            a.wf(),
            b.wf(),
            a.width == b.width,
            a.height == b.height,
            w == gw,
            w <= PROGRESS_ONE,
            y <= a.height,
            out.len() == y * a.width,
            forall|j: int|
                0 <= j < out.len() ==> out[j] == transition_spec(
                    kind,
                    a.pixels@,
                    b.pixels@,
                    a.width as int,
                    a.height as int,
                    gw,
                )[j],
        decreases a.height - y,
    {
        let mut x: u32 = 0;
        while x < a.width
            invariant
                a.wf(),
                b.wf(),
                a.width == b.width,
                a.height == b.height,
                w == gw,
                w <= PROGRESS_ONE,
                y < a.height,
                x <= a.width,
                out.len() == y * a.width + x,
                forall|j: int|
                    0 <= j < out.len() ==> out[j] == transition_spec(
                        kind,
                        a.pixels@,
                        b.pixels@,
                        a.width as int,
                        a.height as int,
                        gw,
                    )[j],
            decreases a.width - x,
        {
            let ghost i = y * a.width + x;
            proof {
                assert(y * a.width + x < a.height * a.width) by (nonlinear_arith)
                    requires
                        y < a.height,
                        x < a.width,
                ;
                assert(a.height * a.width == a.width * a.height) by (nonlinear_arith);
                lemma_coords(i, a.width as int, x as int, y as int);
            }
            let idx = (y as usize) * (a.width as usize) + (x as usize);
            let pa = a.pixels[idx];
            let pb = b.pixels[idx];
            let px = match kind {
                TransitionKind::CrossFade => Rgba {
                    r: mix_channel(pa.r, pb.r, w),
                    g: mix_channel(pa.g, pb.g, w),
                    b: mix_channel(pa.b, pb.b, w),
                    a: mix_channel(pa.a, pb.a, w),
                },
                TransitionKind::Wipe { direction } => if wipe_covers(
                    direction,
                    x,
                    y,
                    a.width,
                    a.height,
                    w,
                ) {
                    pb
                } else {
                    pa
                },
                TransitionKind::Slide { direction } => slide_pixel(direction, a, b, x, y, w),
            };
            out.push(px);
            x = x + 1;
            proof {
                assert(out.len() == y * a.width + x) by (nonlinear_arith)
                    requires
                        out.len() == i + 1,
                        i == y * a.width + (x - 1),
                ;
            }
        }
        y = y + 1;
        proof {
            assert(out.len() == y * a.width) by (nonlinear_arith)
                requires
                    out.len() == (y - 1) * a.width + a.width,
            ;
        }
    }
    proof {
        assert(out.len() == a.width * a.height) by (nonlinear_arith)
            requires
                out.len() == a.height * a.width,
        ;
        assert(out@ =~= transition_spec(
            kind,
            a.pixels@,
            b.pixels@,
            a.width as int,
            a.height as int,
            gw,
        ));
    }
    Frame { width: a.width, height: a.height, pixels: out }
}

fn blend_channel(mode: BlendMode, s: u8, d: u8) -> (r: u8)
    ensures
        r == blend_ch(mode, s, d),
{
    match mode {
        BlendMode::Normal => s,
        BlendMode::Add => if s as u16 + d as u16 > 255 {
            255
        } else {
            s + d
        },
        BlendMode::Multiply => {
            proof {
                assert(s * d <= 255 * 255) by (nonlinear_arith)
                    requires
                        s <= 255,
                        d <= 255,
                ;
                crate::keyframe::lemma_div_le(s * d, 255, 255);
            }
            ((s as u32) * (d as u32) / 255) as u8
        },
        BlendMode::Screen => {
            proof {
                assert((255 - s) * (255 - d) <= 255 * 255) by (nonlinear_arith)
                    requires
                        s <= 255,
                        d <= 255,
                ;
                assert(0 <= (255 - s) * (255 - d)) by (nonlinear_arith)
                    requires
                        s <= 255,
                        d <= 255,
                ;
                crate::keyframe::lemma_div_le((255 - s) * (255 - d), 255, 255);
            }
            (255 - (255 - s as u32) * (255 - d as u32) / 255) as u8
        },
    }
}

fn paint_pixel(mode: BlendMode, s: Rgba, d: Rgba, opacity: i64) -> (r: Rgba)
    requires
        0 <= opacity <= UNIT,
    ensures
        r == paint_px(mode, s, d, opacity as int),
{
    proof {
        assert(s.a * opacity <= 255 * UNIT) by (nonlinear_arith)
            requires
                s.a <= 255,
                opacity <= UNIT,
        ;
        assert(0 <= s.a * opacity) by (nonlinear_arith)
            requires
                0 <= opacity,
        ;
        crate::keyframe::lemma_div_le(s.a * opacity, 255, UNIT as int);
    }
    let k = ((s.a as u64) * (opacity as u64) / (UNIT as u64)) as u32;
    Rgba {
        r: over_channel(mode, s.r, d.r, k),
        g: over_channel(mode, s.g, d.g, k),
        b: over_channel(mode, s.b, d.b, k),
        a: d.a,
    }
}

fn over_channel(mode: BlendMode, s: u8, d: u8, k: u32) -> (r: u8)
    requires
        k <= 255,
    ensures
        r == over_ch(mode, s, d, k as int),
{
    let m = blend_channel(mode, s, d) as u32;
    proof {
        assert(m * k <= 255 * 255) by (nonlinear_arith)
            requires
                m <= 255,
                k <= 255,
        ;
        assert(d * (255 - k) <= 255 * 255) by (nonlinear_arith)
            requires
                d <= 255,
                k <= 255,
        ;
        assert(m * k + d * (255 - k) <= 255 * 255) by (nonlinear_arith)
            requires
                m <= 255,
                d <= 255,
                k <= 255,
        ;
    }
    let n = m * k + (d as u32) * (255 - k);
    proof {
        assert(m * k + d * (255 - k) <= 255 * 255) by (nonlinear_arith)
            requires
                m <= 255,
                d <= 255,
                k <= 255,
        ;
        crate::keyframe::lemma_div_le(n as int, 255, 255);
    }
    (n / 255) as u8
}

/// Paints `layer` over `canvas` (frames of one size) with the blend mode and
/// an opacity in thousandths.
pub fn paint(mode: BlendMode, layer: &Frame, canvas: &Frame, opacity: i64) -> (r: Frame)
    requires
        layer.pixels.len() == canvas.pixels.len(),
        0 <= opacity <= UNIT,
    ensures
        r.width == canvas.width,
        r.height == canvas.height,
        r.pixels@ == paint_spec(mode, layer.pixels@, canvas.pixels@, opacity as int),
{
    let mut out: Vec<Rgba> = Vec::new();
    let mut i: usize = 0;
    while i < canvas.pixels.len()
        invariant
            layer.pixels.len() == canvas.pixels.len(),
            0 <= opacity <= UNIT,
            i <= canvas.pixels.len(),
            out.len() == i,
            forall|j: int|
                0 <= j < i ==> out[j] == paint_px(mode, layer.pixels[j], canvas.pixels[j], opacity as int),
        decreases canvas.pixels.len() - i,
    {
        out.push(paint_pixel(mode, layer.pixels[i], canvas.pixels[i], opacity));
        i = i + 1;
    }
    proof {
        assert(out@ =~= paint_spec(mode, layer.pixels@, canvas.pixels@, opacity as int));
    }
    Frame { width: canvas.width, height: canvas.height, pixels: out }
}

fn half_sine_exec(a: i128) -> (r: i128)
    requires
        0 <= a <= 180_000,
    ensures
        r == half_sine(a as int),
        0 <= r <= TRIG_ONE,
{
    proof {
        assert(0 <= a * (180_000 - a) <= 8_100_000_000) by (nonlinear_arith)
            requires
                0 <= a <= 180_000,
        ;
    }
    let p = a * (180_000 - a);
    proof {
        assert(4 * p * TRIG_ONE <= TRIG_ONE * (40_500_000_000 - p)) by (nonlinear_arith)
            requires
                0 <= p <= 8_100_000_000,
        ;
        crate::keyframe::lemma_div_le(4 * p * TRIG_ONE, TRIG_ONE as int, 40_500_000_000 - p);
    }
    4 * p * (TRIG_ONE as i128) / (40_500_000_000 - p)
}

/// The sine of an angle in thousandths of a degree (see `sine`).
pub fn sine_of(t: i64) -> (r: i64)
    ensures
        r == sine(t as int),
        -TRIG_ONE <= r <= TRIG_ONE,
{
    let a = floor_mod(t as i128, 360_000);
    if a <= 180_000 {
        half_sine_exec(a) as i64
    } else {
        -(half_sine_exec(a - 180_000) as i64)
    }
}

/// The cosine of an angle in thousandths of a degree (see `cosine`).
pub fn cosine_of(t: i64) -> (r: i64)
    ensures
        r == cosine(t as int),
        -TRIG_ONE <= r <= TRIG_ONE,
{
    let a = floor_mod(t as i128 + 90_000, 360_000);
    if a <= 180_000 {
        half_sine_exec(a) as i64
    } else {
        -(half_sine_exec(a - 180_000) as i64)
    }
}

fn unscale(a: i128, k: i64) -> (r: i128)
    requires
        k != 0,
        -0x1_0000_0000_0000_0000_0000_0000 <= a <= 0x1_0000_0000_0000_0000_0000_0000,
    ensures
        r == unscaled(a as int, k as int),
        -0x1_0000_0000_0000_0000_0000_0000 * 1000 <= r <= 0x1_0000_0000_0000_0000_0000_0000 * 1000,
{
    let m: i128 = if k > 0 { k as i128 } else { -(k as i128) };
    proof {
        assert(m * TRIG_ONE <= 0x8000_0000_0000_0000 * 1_000_000) by (nonlinear_arith)
            requires
                0 < m <= 0x8000_0000_0000_0000,
                TRIG_ONE == 1_000_000,
        ;
    }
    let d = m * (TRIG_ONE as i128);
    proof {
        assert(d >= 1_000_000) by (nonlinear_arith)
            requires
                d == m * TRIG_ONE,
                m >= 1,
        ;
        assert(-0x1_0000_0000_0000_0000_0000_0000 * 1000 * d <= a * 1000
            <= 0x1_0000_0000_0000_0000_0000_0000 * 1000 * d) by (nonlinear_arith)
            requires
                -0x1_0000_0000_0000_0000_0000_0000 <= a <= 0x1_0000_0000_0000_0000_0000_0000,
                d >= 1,
        ;
        crate::keyframe::lemma_div_between(
            a * 1000,
            -0x1_0000_0000_0000_0000_0000_0000 * 1000,
            (0x1_0000_0000_0000_0000_0000_0000 * 1000) as int,
            d as int,
        );
    }
    let q = floor_div(a * 1000, d);
    if k > 0 {
        q
    } else {
        -q
    }
}

fn source_xy_exec(x: u32, y: u32, pl: Placement) -> (r: (i128, i128))
    requires
        pl.kx != 0,
        pl.ky != 0,
        -TRIG_ONE <= pl.cos <= TRIG_ONE,
        -TRIG_ONE <= pl.sin <= TRIG_ONE,
    ensures
        r.0 == source_xy(x as int, y as int, pl).0,
        r.1 == source_xy(x as int, y as int, pl).1,
{
    let u = x as i128 - pl.px as i128;
    let v = y as i128 - pl.py as i128;
    let (c, s) = (pl.cos as i128, pl.sin as i128);
    proof {
        assert(-0x1_0000_0000_0000_0000 * 1_000_000 <= u * c <= 0x1_0000_0000_0000_0000 * 1_000_000)
            by (nonlinear_arith)
            requires
                -0x1_0000_0000_0000_0000 <= u <= 0x1_0000_0000_0000_0000,
                -1_000_000 <= c <= 1_000_000,
        ;
        assert(-0x1_0000_0000_0000_0000 * 1_000_000 <= u * s <= 0x1_0000_0000_0000_0000 * 1_000_000)
            by (nonlinear_arith)
            requires
                -0x1_0000_0000_0000_0000 <= u <= 0x1_0000_0000_0000_0000,
                -1_000_000 <= s <= 1_000_000,
        ;
        assert(-0x1_0000_0000_0000_0000 * 1_000_000 <= v * c <= 0x1_0000_0000_0000_0000 * 1_000_000)
            by (nonlinear_arith)
            requires
                -0x1_0000_0000_0000_0000 <= v <= 0x1_0000_0000_0000_0000,
                -1_000_000 <= c <= 1_000_000,
        ;
        assert(-0x1_0000_0000_0000_0000 * 1_000_000 <= v * s <= 0x1_0000_0000_0000_0000 * 1_000_000)
            by (nonlinear_arith)
            requires
                -0x1_0000_0000_0000_0000 <= v <= 0x1_0000_0000_0000_0000,
                -1_000_000 <= s <= 1_000_000,
        ;
    }
    let a = u * c + v * s;
    let b = v * c - u * s;
    (pl.ax as i128 + unscale(a, pl.kx), pl.ay as i128 + unscale(b, pl.ky))
}

/// Places `src` onto a transparent `width` by `height` frame (see `place_spec`).
pub fn place(src: &Frame, width: u32, height: u32, pl: Placement) -> (r: Frame)
    requires
        src.wf(),
        -TRIG_ONE <= pl.cos <= TRIG_ONE,
        -TRIG_ONE <= pl.sin <= TRIG_ONE,
    ensures
        r.wf(),
        r.width == width,
        r.height == height,
        r.pixels@ == place_spec(
            src.pixels@,
            src.width as int,
            src.height as int,
            width as int,
            height as int,
            pl,
        ),
{
    let ghost spec_px = place_spec(
        src.pixels@,
        src.width as int,
        src.height as int,
        width as int,
        height as int,
        pl,
    );
    let mut out: Vec<Rgba> = Vec::new();
    let mut y: u32 = 0;
    while y < height
        invariant
            src.wf(),
            spec_px == place_spec(
                src.pixels@,
                src.width as int,
                src.height as int,
                width as int,
                height as int,
                pl,
            ),
            -TRIG_ONE <= pl.cos <= TRIG_ONE,
            -TRIG_ONE <= pl.sin <= TRIG_ONE,
            y <= height,
            out.len() == y * width,
            forall|j: int| 0 <= j < out.len() ==> out[j] == spec_px[j],
        decreases height - y,
    {
        let mut x: u32 = 0;
        while x < width
            invariant
                src.wf(),
                spec_px == place_spec(
                    src.pixels@,
                    src.width as int,
                    src.height as int,
                    width as int,
                    height as int,
                    pl,
                ),
                -TRIG_ONE <= pl.cos <= TRIG_ONE,
                -TRIG_ONE <= pl.sin <= TRIG_ONE,
                y < height,
                x <= width,
                out.len() == y * width + x,
                forall|j: int| 0 <= j < out.len() ==> out[j] == spec_px[j],
            decreases width - x,
        {
            let ghost i = y * width + x;
            proof {
                assert(y * width + x < height * width) by (nonlinear_arith)
                    requires
                        y < height,
                        x < width,
                ;
                assert(height * width == width * height) by (nonlinear_arith);
                lemma_coords(i, width as int, x as int, y as int);
            }
            let (sx, sy) = if pl.kx == 0 || pl.ky == 0 {
                (-1, -1)
            } else {
                source_xy_exec(x, y, pl)
            };
            let px = if pl.kx != 0 && pl.ky != 0 && 0 <= sx && sx < src.width as i128 && 0 <= sy
                && sy < src.height as i128 {
                proof {
                    assert(sy * src.width + sx < src.height * src.width) by (nonlinear_arith)
                        requires
                            0 <= sy < src.height,
                            0 <= sx < src.width,
                    ;
                    assert(src.height * src.width == src.width * src.height) by (nonlinear_arith);
                    assert(0 <= sy * src.width) by (nonlinear_arith)
                        requires
                            0 <= sy,
                    ;
                }
                src.pixels[(sy as usize) * (src.width as usize) + (sx as usize)]
            } else {
                Rgba { r: 0, g: 0, b: 0, a: 0 }
            };
            out.push(px);
            x = x + 1;
            proof {
                assert(out.len() == y * width + x) by (nonlinear_arith)
                    requires
                        out.len() == i + 1,
                        i == y * width + (x - 1),
                ;
            }
        }
        y = y + 1;
        proof {
            assert(out.len() == y * width) by (nonlinear_arith)
                requires
                    out.len() == (y - 1) * width + width,
            ;
        }
    }
    proof {
        assert(out.len() == width * height) by (nonlinear_arith)
            requires
                out.len() == height * width,
        ;
        assert(out@ =~= spec_px);
    }
    Frame { width, height, pixels: out }
}

/// The value of a hexadecimal digit.
pub open spec fn hex_value(c: char) -> Option<int> {
    let n = c as u32 as int;
    if 48 <= n <= 57 {
        Some(n - 48)
    } else if 97 <= n <= 102 {
        Some(n - 87)
    } else if 65 <= n <= 70 {
        Some(n - 55)
    } else {
        None
    }
}

/// The opaque colour written `#rrggbb`; none for any other text.
pub open spec fn color_of(s: Seq<char>) -> Option<Rgba> {
    if s.len() == 7 && s[0] == '#' && (forall|i: int| 1 <= i < 7 ==> (#[trigger] hex_value(s[i])) is Some) {
        let h = |i: int| hex_value(s[i])->Some_0;
        Some(
            Rgba {
                r: (16 * h(1) + h(2)) as u8,
                g: (16 * h(3) + h(4)) as u8,
                b: (16 * h(5) + h(6)) as u8,
                a: 255,
            },
        )
    } else {
        None
    }
}

fn hex_digit(c: char) -> (r: Option<u8>)
    ensures
        match hex_value(c) {
            Some(v) => r == Some(v as u8) && v < 16,
            None => r is None,
        },
{
    let n = c as u32;
    if 48 <= n && n <= 57 {
        Some((n - 48) as u8)
    } else if 97 <= n && n <= 102 {
        Some((n - 87) as u8)
    } else if 65 <= n && n <= 70 {
        Some((n - 55) as u8)
    } else {
        None
    }
}

/// Parses a colour written `#rrggbb` (see `color_of`).
pub fn parse_color(s: &str) -> (r: Option<Rgba>)
    ensures
        r == color_of(s@),
{
    if s.unicode_len() != 7 || s.get_char(0) != '#' {
        return None;
    }
    let mut d: Vec<u8> = Vec::new();
    let mut i: usize = 1;
    while i < 7
        invariant
            s@.len() == 7,
            1 <= i <= 7,
            d.len() == i - 1,
            forall|j: int| 1 <= j < i ==> (#[trigger] hex_value(s@[j])) is Some && d[j - 1] == hex_value(s@[j])->Some_0
                && d[j - 1] < 16,
        decreases 7 - i,
    {
        match hex_digit(s.get_char(i)) {
            Some(v) => d.push(v),
            None => return None,
        }
        i = i + 1;
    }
    Some(Rgba { r: 16 * d[0] + d[1], g: 16 * d[2] + d[3], b: 16 * d[4] + d[5], a: 255 })
}

} // verus!
