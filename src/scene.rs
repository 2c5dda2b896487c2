//! One output frame: the decode requests it needs and the compositing of the
//! decoded frames, following the resolved layers from the bottom up.
use vstd::prelude::*;

use crate::compositor::{
    apply_effect, cosine, cosine_of, effect_spec, paint, paint_spec, place, place_spec, sine,
    sine_of, Placement,
    transition, transition_spec, Frame, Rgba,
};
use crate::error::Error;
use crate::keyframe::{ease_spec, evaluate, floor_div, value_at, ValueModel};
use crate::model::{
    Composition, Effect, EffectKind, KeyframeGroup, ParamValue, Track, TrackItem, TrackType,
    UNIT,
};
use crate::timeline::{
    active_items, lemma_active_items_ordered, layer_ok, resolve_spec, ActiveItem,
};

verus! {

/// A request to the media layer: the frame of an asset at a source time.
#[derive(Debug, Clone)]
pub struct DecodeRequest {
    pub asset_id: String,
    /// Microseconds into the source.
    pub time: u64,
}

/// What one layer needs decoded: its item, and the incoming item of a transition.
#[derive(Debug, Clone)]
pub struct LayerRequest {
    pub main: DecodeRequest,
    pub incoming: Option<DecodeRequest>,
}

/// The decoded frames of one layer, as asked for by its `LayerRequest`.
#[derive(Debug, Clone)]
pub struct LayerFrames {
    pub main: Frame,
    pub incoming: Option<Frame>,
}

/// Why a frame could not be composited.
#[derive(Debug, Clone, Copy, PartialEq, Eq, Structural)]
pub enum FrameFault {
    /// A painted layer came without its decoded frame.
    MissingFrame,
    /// A decoded frame's pixel count does not match its size.
    BadFrame,
}

/// The source time shown by an active item at timeline time `t`: its in point
/// plus the time since its start, held at the out point.
pub open spec fn source_time_spec(item: TrackItem, t: int) -> int {
    let s = item.in_point + (t - item.start_time);
    if item.out_point <= item.in_point {
        item.in_point as int
    } else if s > item.out_point {
        item.out_point as int
    } else {
        s
    }
}

/// Whether the compositor paints a track.
pub open spec fn painted(tr: Track) -> bool {
    tr.is_visible && (tr.track_type == TrackType::Video || tr.track_type == TrackType::Image)
}

/// Index of the first group at or after `i` that animates `name`.
pub open spec fn group_index_from(groups: Seq<KeyframeGroup>, name: Seq<char>, i: int) -> Option<int>
    decreases groups.len() - i,
{
    if i < 0 || i >= groups.len() {
        None
    } else if groups[i].property@ == name {
        Some(i)
    } else {
        group_index_from(groups, name, i + 1)
    }
}

/// The number that property `name` has at item time `lt`: the value of its
/// keyframes when they give a number, else `base`.
pub open spec fn animated_number(groups: Seq<KeyframeGroup>, name: Seq<char>, lt: int, base: int) -> int {
    match group_index_from(groups, name, 0) {
        Some(g) => match value_at(groups[g].keyframes@, lt) {
            Some(ValueModel::Number(n)) => n,
            _ => base,
        },
        None => base,
    }
}

/// The effect with each of its parameters evaluated at item time `lt`.
pub open spec fn animated_kind(e: Effect, lt: int) -> EffectKind {
    let ks = e.keyframes@;
    match e.kind {
        EffectKind::Brightness { value } => EffectKind::Brightness {
            value: animated_number(ks, "value"@, lt, value as int) as i64,
        },
        EffectKind::Contrast { value } => EffectKind::Contrast {
            value: animated_number(ks, "value"@, lt, value as int) as i64,
        },
        EffectKind::Saturation { value } => EffectKind::Saturation {
            value: animated_number(ks, "value"@, lt, value as int) as i64,
        },
        EffectKind::Hue { value } => EffectKind::Hue {
            value: animated_number(ks, "value"@, lt, value as int) as i64,
        },
        EffectKind::Blur { radius } => EffectKind::Blur {
            radius: animated_number(ks, "radius"@, lt, radius as int) as i64,
        },
        EffectKind::Sharpen { amount } => EffectKind::Sharpen {
            amount: animated_number(ks, "amount"@, lt, amount as int) as i64,
        },
        EffectKind::Vignette { intensity, radius } => EffectKind::Vignette {
            intensity: animated_number(ks, "intensity"@, lt, intensity as int) as i64,
            radius: animated_number(ks, "radius"@, lt, radius as int) as i64,
        },
        EffectKind::Grain { intensity } => EffectKind::Grain {
            intensity: animated_number(ks, "intensity"@, lt, intensity as int) as i64,
        },
        EffectKind::Gain { level } => EffectKind::Gain {
            level: animated_number(ks, "level"@, lt, level as int) as i64,
        },
    }
}

/// The first `n` effects applied in order to `px` at item time `lt`; disabled ones are skipped.
pub open spec fn effects_spec(effects: Seq<Effect>, n: int, px: Seq<Rgba>, lt: int, w: int, h: int) -> Seq<Rgba>
    decreases n,
{
    if n <= 0 {
        px
    } else {
        let q = effects_spec(effects, n - 1, px, lt, w, h);
        let e = effects[n - 1];
        if !e.enabled {
            q
        } else {
            effect_spec(animated_kind(e, lt), q, w, h)
        }
    }
}

/// Where an item's frame goes at item time `lt`: its position, anchor, scale
/// and rotation, each evaluated from its keyframes, in whole pixels,
/// thousandths, and the rotation's cosine and sine.
pub open spec fn placement_of(item: TrackItem, lt: int) -> Placement {
    let tf = item.transform;
    let ks = item.keyframes@;
    let angle = animated_number(ks, "rotation"@, lt, tf.rotation as int);
    Placement {
        px: (animated_number(ks, "position.x"@, lt, tf.position.x as int) / (UNIT as int)) as i64,
        py: (animated_number(ks, "position.y"@, lt, tf.position.y as int) / (UNIT as int)) as i64,
        ax: (animated_number(ks, "anchor.x"@, lt, tf.anchor.x as int) / (UNIT as int)) as i64,
        ay: (animated_number(ks, "anchor.y"@, lt, tf.anchor.y as int) / (UNIT as int)) as i64,
        kx: animated_number(ks, "scale.x"@, lt, tf.scale.x as int) as i64,
        ky: animated_number(ks, "scale.y"@, lt, tf.scale.y as int) as i64,
        cos: cosine(angle) as i64,
        sin: sine(angle) as i64,
    }
}

pub open spec fn frame_wf(f: Frame) -> bool {
    f.pixels.len() == f.width * f.height
}

/// An item's decoded frame after its effects, moved to its position, on a `w` by `h` frame.
pub open spec fn prepared_spec(item: TrackItem, f: Frame, t: int, w: int, h: int) -> Result<Seq<Rgba>, FrameFault> {
    let lt = t - item.start_time;
    if !frame_wf(f) {
        Err(FrameFault::BadFrame)
    } else {
        Ok(
            place_spec(
                effects_spec(item.effects@, item.effects.len() as int, f.pixels@, lt, f.width as int, f.height as int),
                f.width as int,
                f.height as int,
                w,
                h,
                placement_of(item, lt),
            ),
        )
    }
}

pub open spec fn clamp_unit(x: int) -> int {
    if x < 0 {
        0
    } else if x > UNIT {
        UNIT as int
    } else {
        x
    }
}

/// A layer's opacity: the track's times the item's (animated), in thousandths.
pub open spec fn layer_opacity(tr: Track, item: TrackItem, lt: int) -> int {
    clamp_unit(tr.opacity as int) * clamp_unit(
        animated_number(item.keyframes@, "opacity"@, lt, item.transform.opacity as int),
    ) / (UNIT as int)
}

/// The picture of one resolved layer: its item prepared, and blended with
/// the incoming item while a transition is in progress.
pub open spec fn layer_spec(tr: Track, a: ActiveItem, lf: LayerFrames, t: int, w: int, h: int) -> Result<Seq<Rgba>, FrameFault> {
    let items = tr.items@;
    match prepared_spec(items[a.item as int], lf.main, t, w, h) {
        Err(e) => Err(e),
        Ok(main) => match a.blend {
            None => Ok(main),
            Some(b) => match lf.incoming {
                None => Err(FrameFault::MissingFrame),
                Some(fi) => match prepared_spec(items[b.incoming as int], fi, t, w, h) {
                    Err(e) => Err(e),
                    Ok(inc) => {
                        let x = items[b.owner as int].transitions[b.transition as int];
                        Ok(transition_spec(x.kind, main, inc, w, h, ease_spec(x.easing, b.progress as int)))
                    },
                },
            },
        },
    }
}

pub open spec fn solid_canvas(w: int, h: int, bg: Rgba) -> Seq<Rgba> {
    Seq::new((w * h) as nat, |i: int| bg)
}

/// The canvas after painting layers `j..` of `layers`, from the last (bottom) one up.
pub open spec fn composite_from(
    tracks: Seq<Track>,
    layers: Seq<ActiveItem>,
    frames: Seq<Option<LayerFrames>>,
    t: int,
    w: int,
    h: int,
    bg: Rgba,
    j: int,
) -> Result<Seq<Rgba>, FrameFault>
    decreases layers.len() - j,
{
    if j < 0 || j >= layers.len() {
        Ok(solid_canvas(w, h, bg))
    } else {
        match composite_from(tracks, layers, frames, t, w, h, bg, j + 1) {
            Err(e) => Err(e),
            Ok(canvas) => {
                let a = layers[j];
                let tr = tracks[a.track as int];
                if !painted(tr) {
                    Ok(canvas)
                } else {
                    match frames[j] {
                        None => Err(FrameFault::MissingFrame),
                        Some(lf) => match layer_spec(tr, a, lf, t, w, h) {
                            Err(e) => Err(e),
                            Ok(px) => Ok(
                                paint_spec(
                                    tr.blend_mode,
                                    px,
                                    canvas,
                                    layer_opacity(tr, tr.items[a.item as int], t - tr.items[a.item as int].start_time),
                                ),
                            ),
                        },
                    }
                }
            },
        }
    }
}

/// The output frame at `t` over background `bg`, from the frames decoded for each resolved layer.
pub open spec fn composite_spec(comp: Composition, frames: Seq<Option<LayerFrames>>, t: int, w: int, h: int, bg: Rgba) -> Result<Seq<Rgba>, FrameFault> {
    let layers = resolve_spec(comp.tracks@, t);
    if frames.len() != layers.len() {
        Err(FrameFault::MissingFrame)
    } else {
        composite_from(comp.tracks@, layers, frames, t, w, h, bg, 0)
    }
}

pub open spec fn fault_error(f: FrameFault, e: Error) -> bool {
    match f {
        FrameFault::MissingFrame | FrameFault::BadFrame => e is Media,
    }
}

/// The source time of an active item at `t` (see `source_time_spec`).
pub fn source_time(item: &TrackItem, t: u64) -> (r: u64)
    requires
        item.start_time <= t,
    ensures
        r == source_time_spec(*item, t as int),
{
    if item.out_point <= item.in_point {
        return item.in_point;
    }
    let s = item.in_point as u128 + (t - item.start_time) as u128;
    if s > item.out_point as u128 {
        item.out_point
    } else {
        s as u64
    }
}

fn find_group(groups: &Vec<KeyframeGroup>, name: &String) -> (r: Option<usize>)
    ensures
        r matches Some(g) ==> g < groups.len() && group_index_from(groups@, name@, 0) == Some(
            g as int,
        ),
        r is None ==> group_index_from(groups@, name@, 0) is None,
{
    let mut i: usize = 0;
    while i < groups.len()
        invariant
            i <= groups.len(),
            group_index_from(groups@, name@, i as int) == group_index_from(groups@, name@, 0),
        decreases groups.len() - i,
    {
        if groups[i].property == *name {
            return Some(i);
        }
        i = i + 1;
    }
    None
}

/// The number that property `name` has at item time `lt` (see `animated_number`).
pub fn animated(groups: &Vec<KeyframeGroup>, name: &String, lt: u64, base: i64) -> (r: i64)
    ensures
        r == animated_number(groups@, name@, lt as int, base as int),
{
    match find_group(groups, name) {
        Some(g) => match evaluate(&groups[g], lt) {
            Some(ParamValue::Number(n)) => n,
            _ => base,
        },
        None => base,
    }
}

fn animate_kind(e: &Effect, lt: u64) -> (r: EffectKind)
    ensures
        r == animated_kind(*e, lt as int),
{
    let ks = &e.keyframes;
    match e.kind {
        EffectKind::Brightness { value } => EffectKind::Brightness {
            value: animated(ks, &named("value"), lt, value),
        },
        EffectKind::Contrast { value } => EffectKind::Contrast {
            value: animated(ks, &named("value"), lt, value),
        },
        EffectKind::Saturation { value } => EffectKind::Saturation {
            value: animated(ks, &named("value"), lt, value),
        },
        EffectKind::Hue { value } => EffectKind::Hue { value: animated(ks, &named("value"), lt, value) },
        EffectKind::Blur { radius } => EffectKind::Blur {
            radius: animated(ks, &named("radius"), lt, radius),
        },
        EffectKind::Sharpen { amount } => EffectKind::Sharpen {
            amount: animated(ks, &named("amount"), lt, amount),
        },
        EffectKind::Vignette { intensity, radius } => EffectKind::Vignette {
            intensity: animated(ks, &named("intensity"), lt, intensity),
            radius: animated(ks, &named("radius"), lt, radius),
        },
        EffectKind::Grain { intensity } => EffectKind::Grain {
            intensity: animated(ks, &named("intensity"), lt, intensity),
        },
        EffectKind::Gain { level } => EffectKind::Gain {
            level: animated(ks, &named("level"), lt, level),
        },
    }
}

/// A property name as a `String`.
fn named(s: &str) -> (r: String)
    ensures
        r@ == s@,
{
    s.to_owned()
}

fn copy_frame(f: &Frame) -> (r: Frame)
    ensures
        r.width == f.width,
        r.height == f.height,
        r.pixels@ == f.pixels@,
{
    let mut out: Vec<Rgba> = Vec::new();
    let mut i: usize = 0;
    while i < f.pixels.len()
        invariant
            i <= f.pixels.len(),
            out@ == f.pixels@.subrange(0, i as int),
        decreases f.pixels.len() - i,
    {
        out.push(f.pixels[i]);
        i = i + 1;
    }
    proof {
        assert(out@ =~= f.pixels@);
    }
    Frame { width: f.width, height: f.height, pixels: out }
}

fn apply_effects(effects: &Vec<Effect>, f: &Frame, lt: u64) -> (r: Frame)
    requires
        f.wf(),
    ensures
        r.pixels@ == effects_spec(effects@, effects.len() as int, f.pixels@, lt as int, f.width as int, f.height as int),
        r.width == f.width,
        r.height == f.height,
{
    let mut cur = copy_frame(f);
    let mut i: usize = 0;
    while i < effects.len()
        invariant
            i <= effects.len(),
            f.wf(),
            cur.width == f.width,
            cur.height == f.height,
            cur.wf(),
            effects_spec(effects@, i as int, f.pixels@, lt as int, f.width as int, f.height as int)
                == cur.pixels@,
        decreases effects.len() - i,
    {
        let e = &effects[i];
        if e.enabled {
            let kind = animate_kind(e, lt);
            cur = apply_effect(kind, &cur);
        }
        i = i + 1;
    }
    cur
}

proof fn lemma_effects_len(effects: Seq<Effect>, n: int, px: Seq<Rgba>, lt: int, w: int, h: int)
    ensures
        effects_spec(effects, n, px, lt, w, h).len() == px.len(),
    decreases n,
{
    if n > 0 {
        lemma_effects_len(effects, n - 1, px, lt, w, h);
    }
}

fn prepare(item: &TrackItem, f: &Frame, t: u64, w: u32, h: u32) -> (r: Result<Frame, FrameFault>)
    requires
        item.start_time <= t,
    ensures
        match prepared_spec(*item, *f, t as int, w as int, h as int) {
            Ok(px) => r matches Ok(g) && g.pixels@ == px && g.width == w && g.height == h
                && g.wf(),
            Err(e) => r == Err::<Frame, FrameFault>(e),
        },
{
    proof {
        assert(f.width * f.height <= u32::MAX * u32::MAX) by (nonlinear_arith)
            requires
                f.width <= u32::MAX,
                f.height <= u32::MAX,
        ;
    }
    if f.pixels.len() as u64 != (f.width as u64) * (f.height as u64) {
        return Err(FrameFault::BadFrame);
    }
    let tf = &item.transform;
    let lt = t - item.start_time;
    let ks = &item.keyframes;
    let kx = animated(ks, &named("scale.x"), lt, tf.scale.x);
    let ky = animated(ks, &named("scale.y"), lt, tf.scale.y);
    let x = animated(ks, &named("position.x"), lt, tf.position.x);
    let y = animated(ks, &named("position.y"), lt, tf.position.y);
    let anx = animated(ks, &named("anchor.x"), lt, tf.anchor.x);
    let any = animated(ks, &named("anchor.y"), lt, tf.anchor.y);
    let angle = animated(ks, &named("rotation"), lt, tf.rotation);
    let dx = floor_div(x as i128, UNIT as i128);
    let dy = floor_div(y as i128, UNIT as i128);
    let ax = floor_div(anx as i128, UNIT as i128);
    let ay = floor_div(any as i128, UNIT as i128);
    proof {
        crate::keyframe::lemma_div_between(x as int, -0x8000_0000_0000_0000, 0x8000_0000_0000_0000, UNIT as int);
        crate::keyframe::lemma_div_between(y as int, -0x8000_0000_0000_0000, 0x8000_0000_0000_0000, UNIT as int);
        crate::keyframe::lemma_div_between(anx as int, -0x8000_0000_0000_0000, 0x8000_0000_0000_0000, UNIT as int);
        crate::keyframe::lemma_div_between(any as int, -0x8000_0000_0000_0000, 0x8000_0000_0000_0000, UNIT as int);
    }
    let pl = Placement {
        px: dx as i64,
        py: dy as i64,
        ax: ax as i64,
        ay: ay as i64,
        kx,
        ky,
        cos: cosine_of(angle),
        sin: sine_of(angle),
    };
    let g = apply_effects(&item.effects, f, lt);
    proof {
        lemma_effects_len(item.effects@, item.effects.len() as int, f.pixels@, lt as int, f.width as int, f.height as int);
    }
    Ok(place(&g, w, h, pl))
}

fn clamp_opacity(x: i64) -> (r: i64)
    ensures
        r == clamp_unit(x as int),
{
    if x < 0 {
        0
    } else if x > UNIT {
        UNIT
    } else {
        x
    }
}

fn layer_frame(tr: &Track, a: ActiveItem, lf: &LayerFrames, t: u64, w: u32, h: u32) -> (r: Result<Frame, FrameFault>)
    requires
        a.item < tr.items.len(),
        tr.items[a.item as int].start_time <= t,
        a.blend matches Some(b) ==> {
            &&& b.incoming < tr.items.len()
            &&& tr.items[b.incoming as int].start_time <= t
            &&& b.progress < crate::keyframe::PROGRESS_ONE
            &&& b.owner < tr.items.len()
            &&& b.transition < tr.items[b.owner as int].transitions.len()
        },
    ensures
        match layer_spec(*tr, a, *lf, t as int, w as int, h as int) {
            Ok(px) => r matches Ok(g) && g.pixels@ == px && g.width == w && g.height == h
                && g.wf(),
            Err(e) => r == Err::<Frame, FrameFault>(e),
        },
{
    let main = match prepare(&tr.items[a.item], &lf.main, t, w, h) {
        Ok(m) => m,
        Err(e) => return Err(e),
    };
    match a.blend {
        None => Ok(main),
        Some(b) => match &lf.incoming {
            None => Err(FrameFault::MissingFrame),
            Some(fi) => match prepare(&tr.items[b.incoming], fi, t, w, h) {
                Err(e) => Err(e),
                Ok(inc) => {
                    let x = &tr.items[b.owner].transitions[b.transition];
                    let out = transition(x.kind, x.easing, &main, &inc, b.progress);
                    Ok(out)
                },
            },
        },
    }
}

fn fault_to_error(f: FrameFault) -> (r: Error)
    ensures
        fault_error(f, r),
{
    match f {
        FrameFault::MissingFrame => Error::Media(String::from_str("missing decoded frame")),
        FrameFault::BadFrame => Error::Media(String::from_str("decoded frame has the wrong size")),
    }
}

fn solid(w: u32, h: u32, bg: Rgba) -> (r: Frame)
    requires
        w * h <= usize::MAX,
    ensures
        r.width == w,
        r.height == h,
        r.pixels@ == solid_canvas(w as int, h as int, bg),
{
    let n = (w as usize) * (h as usize);
    let mut out: Vec<Rgba> = Vec::new();
    let mut i: usize = 0;
    while i < n
        invariant
            i <= n,
            out.len() == i,
            forall|j: int| 0 <= j < i ==> out[j] == bg,
        decreases n - i,
    {
        out.push(bg);
        i = i + 1;
    }
    proof {
        assert(out@ =~= solid_canvas(w as int, h as int, bg));
    }
    Frame { width: w, height: h, pixels: out }
}

proof fn lemma_composite_stuck(
    tracks: Seq<Track>,
    layers: Seq<ActiveItem>,
    frames: Seq<Option<LayerFrames>>,
    t: int,
    w: int,
    h: int,
    bg: Rgba,
    j: int,
    e: FrameFault,
)
    requires
        0 <= j < layers.len(),
        composite_from(tracks, layers, frames, t, w, h, bg, j) == Err::<Seq<Rgba>, FrameFault>(e),
    ensures
        composite_from(tracks, layers, frames, t, w, h, bg, 0) == Err::<Seq<Rgba>, FrameFault>(e),
    decreases j,
{
    if j > 0 {
        lemma_composite_stuck(tracks, layers, frames, t, w, h, bg, j - 1, e);
    }
}

/// Composites the output frame at `t` over background `bg` (see
/// `composite_spec`) from the frames decoded for each resolved layer, as
/// `frame_requests` asked for them.
pub fn composite(comp: &Composition, frames: &Vec<Option<LayerFrames>>, t: u64, w: u32, h: u32, bg: Rgba) -> (r: Result<Frame, Error>)
    requires
        w * h <= usize::MAX,
    ensures
        match composite_spec(*comp, frames@, t as int, w as int, h as int, bg) {
            Ok(px) => r matches Ok(f) && f.width == w && f.height == h && f.pixels@ == px,
            Err(e) => r matches Err(x) && fault_error(e, x),
        },
{
    let layers = active_items(comp, t);
    let ghost tracks = comp.tracks@;
    proof {
        assert(comp.tracks@.len() == comp.tracks.len());
        lemma_active_items_ordered(comp.tracks@, t as int);
    }
    if frames.len() != layers.len() {
        return Err(fault_to_error(FrameFault::MissingFrame));
    }
    let mut canvas = solid(w, h, bg);
    let mut j: usize = layers.len();
    while j > 0
        invariant
            j <= layers.len(),
            tracks == comp.tracks@,
            layers@ == resolve_spec(tracks, t as int),
            frames.len() == layers.len(),
            forall|x: int| 0 <= x < layers.len() ==> layer_ok(tracks, #[trigger] layers@[x], t as int),
            canvas.width == w,
            canvas.height == h,
            composite_from(tracks, layers@, frames@, t as int, w as int, h as int, bg, j as int) == Ok::<
                Seq<Rgba>,
                FrameFault,
            >(canvas.pixels@),
            canvas.pixels.len() == w * h,
        decreases j,
    {
        j = j - 1;
        let a = layers[j];
        assert(layer_ok(tracks, layers@[j as int], t as int));
        let tr = &comp.tracks[a.track];
        if tr.is_visible && (tr.track_type == TrackType::Video || tr.track_type == TrackType::Image) {
            match &frames[j] {
                None => {
                    proof {
                        lemma_composite_stuck(tracks, layers@, frames@, t as int, w as int, h as int, bg, j as int, FrameFault::MissingFrame);
                    }
                    return Err(fault_to_error(FrameFault::MissingFrame));
                },
                Some(lf) => match layer_frame(tr, a, lf, t, w, h) {
                    Err(fault) => {
                        proof {
                            lemma_composite_stuck(tracks, layers@, frames@, t as int, w as int, h as int, bg, j as int, fault);
                        }
                        return Err(fault_to_error(fault));
                    },
                    Ok(layer) => {
                        let item = &tr.items[a.item];
                        let name = String::from_str("opacity");
                        proof {
                            reveal_strlit("opacity");
                        }
                        let io = clamp_opacity(animated(&item.keyframes, &name, t - item.start_time, item.transform.opacity));
                        let to = clamp_opacity(tr.opacity);
                        proof {
                            assert(0 <= to * io <= UNIT * UNIT) by (nonlinear_arith)
                                requires
                                    0 <= to <= UNIT,
                                    0 <= io <= UNIT,
                            ;
                            crate::keyframe::lemma_div_le(to * io, UNIT as int, UNIT as int);
                        }
                        let op = to * io / UNIT;
                        canvas = paint(tr.blend_mode, &layer, &canvas, op);
                    },
                },
            }
        }
    }
    Ok(canvas)
}

/// Whether `q` asks for exactly the frames that layer `a` needs at `t`.
pub open spec fn request_ok(tracks: Seq<Track>, a: ActiveItem, q: Option<LayerRequest>, t: int) -> bool {
    let tr = tracks[a.track as int];
    let item = tr.items[a.item as int];
    if !painted(tr) {
        q is None
    } else {
        &&& q matches Some(lr)
        &&& lr.main.asset_id@ == item.asset_id@
        &&& lr.main.time == source_time_spec(item, t)
        &&& match a.blend {
            None => lr.incoming is None,
            Some(b) => lr.incoming matches Some(d) && d.asset_id@ == tr.items[b.incoming as int].asset_id@
                && d.time == source_time_spec(tr.items[b.incoming as int], t),
        }
    }
}

/// The frames that the output frame at `t` needs decoded, one entry per
/// resolved layer (none for layers that are not painted).
pub fn frame_requests(comp: &Composition, t: u64) -> (r: Vec<Option<LayerRequest>>)
    ensures
        r.len() == resolve_spec(comp.tracks@, t as int).len(),
        forall|j: int|
            0 <= j < r.len() ==> request_ok(
                comp.tracks@,
                resolve_spec(comp.tracks@, t as int)[j],
                #[trigger] r[j],
                t as int,
            ),
{
    let layers = active_items(comp, t);
    let ghost tracks = comp.tracks@;
    proof {
        assert(comp.tracks@.len() == comp.tracks.len());
        lemma_active_items_ordered(comp.tracks@, t as int);
    }
    let mut r: Vec<Option<LayerRequest>> = Vec::new();
    let mut j: usize = 0;
    while j < layers.len()
        invariant
            j <= layers.len(),
            tracks == comp.tracks@,
            layers@ == resolve_spec(tracks, t as int),
            forall|x: int| 0 <= x < layers.len() ==> layer_ok(tracks, #[trigger] layers@[x], t as int),
            r.len() == j,
            forall|x: int| 0 <= x < j ==> request_ok(tracks, layers@[x], #[trigger] r[x], t as int),
        decreases layers.len() - j,
    {
        let a = layers[j];
        assert(layer_ok(tracks, layers@[j as int], t as int));
        let tr = &comp.tracks[a.track];
        if tr.is_visible && (tr.track_type == TrackType::Video || tr.track_type == TrackType::Image) {
            let item = &tr.items[a.item];
            let main = DecodeRequest { asset_id: item.asset_id.clone(), time: source_time(item, t) };
            let incoming = match a.blend {
                None => None,
                Some(b) => {
                    let other = &tr.items[b.incoming];
                    Some(DecodeRequest { asset_id: other.asset_id.clone(), time: source_time(other, t) })
                },
            };
            r.push(Some(LayerRequest { main, incoming }));
        } else {
            r.push(None);
        }
        j = j + 1;
    }
    r
}

} // verus!
