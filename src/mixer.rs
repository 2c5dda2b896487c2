//! Audio mixing: the sample windows of the audible items at an instant,
//! scaled by each item's gain and summed.
//!
//! Clipping policy: the sum is divided by the number of items mixed
//! (normalized by count), then clamped to the 16-bit range.
use vstd::prelude::*;

use crate::error::Error;
use crate::model::{Composition, Effect, EffectKind, Track, TrackItem, TrackType, UNIT};
use crate::scene::{animated, animated_kind, animated_number, source_time, source_time_spec};
use crate::timeline::{active_items, lemma_active_items_ordered, layer_ok, resolve_spec, ActiveItem};

verus! {

/// The largest gain, in thousandths (four times the source level).
pub const MAX_GAIN: i64 = 4000;

/// A request to the media layer: `samples` samples of an asset from a source time.
#[derive(Debug, Clone)]
pub struct AudioRequest {
    pub asset_id: String,
    /// Microseconds into the source.
    pub time: u64,
    pub samples: usize,
}

/// Whether the mixer hears a track.
pub open spec fn heard(tr: Track) -> bool {
    tr.track_type == TrackType::Audio && !tr.is_muted
}

pub open spec fn clamp_gain(x: int) -> int {
    if x < 0 {
        0
    } else if x > MAX_GAIN {
        MAX_GAIN as int
    } else {
        x
    }
}

/// The combined gain of the first `n` effects at item time `lt`: each enabled
/// `Gain` effect scales it, and it is held within `0..=MAX_GAIN`.
pub open spec fn gain_from(effects: Seq<Effect>, n: int, lt: int) -> int
    decreases n,
{
    if n <= 0 {
        UNIT as int
    } else {
        let g = gain_from(effects, n - 1, lt);
        let e = effects[n - 1];
        if e.enabled && e.kind is Gain {
            match animated_kind(e, lt) {
                EffectKind::Gain { level } => clamp_gain(g * clamp_gain(level as int) / (UNIT as int)),
                _ => g,
            }
        } else {
            g
        }
    }
}

/// An item's gain at item time `lt`: its gain effects times its animated `volume`.
pub open spec fn item_gain(item: TrackItem, lt: int) -> int {
    clamp_gain(
        gain_from(item.effects@, item.effects.len() as int, lt) * clamp_gain(
            animated_number(item.keyframes@, "volume"@, lt, UNIT as int),
        ) / (UNIT as int),
    )
}

/// Sample `i` of a window scaled by gain `g`; silence past the window's end.
pub open spec fn scaled(w: Seq<i16>, g: int, i: int) -> int {
    if 0 <= i < w.len() {
        w[i] * g / (UNIT as int)
    } else {
        0
    }
}

/// Sum of sample `i` over the first `k` windows.
pub open spec fn sum_upto(ws: Seq<Seq<i16>>, gs: Seq<int>, i: int, k: int) -> int
    decreases k,
{
    if k <= 0 {
        0
    } else {
        sum_upto(ws, gs, i, k - 1) + scaled(ws[k - 1], gs[k - 1], i)
    }
}

pub open spec fn clamp_i16(x: int) -> i16 {
    if x < -32768 {
        -32768i16
    } else if x > 32767 {
        32767i16
    } else {
        x as i16
    }
}

/// Sample `i` of the mix: the scaled sum divided by the number of windows, clamped.
pub open spec fn mixed_sample(ws: Seq<Seq<i16>>, gs: Seq<int>, i: int) -> i16 {
    if ws.len() == 0 {
        0
    } else {
        clamp_i16(sum_upto(ws, gs, i, ws.len() as int) / (ws.len() as int))
    }
}

pub open spec fn mix_spec(ws: Seq<Seq<i16>>, gs: Seq<int>, n: int) -> Seq<i16> {
    Seq::new(n as nat, |i: int| mixed_sample(ws, gs, i))
}

pub open spec fn window_views(ws: Seq<Vec<i16>>) -> Seq<Seq<i16>> {
    ws.map_values(|w: Vec<i16>| w@)
}

pub open spec fn int_gains(gs: Seq<i64>) -> Seq<int> {
    gs.map_values(|g: i64| g as int)
}

proof fn lemma_sum_bound(ws: Seq<Seq<i16>>, gs: Seq<int>, i: int, k: int)
    requires
        0 <= k <= ws.len(),
        gs.len() == ws.len(),
        forall|j: int| 0 <= j < gs.len() ==> 0 <= #[trigger] gs[j] <= MAX_GAIN,
    ensures
        -131_072 * k <= sum_upto(ws, gs, i, k) <= 131_072 * k,
    decreases k,
{
    if k > 0 {
        lemma_sum_bound(ws, gs, i, k - 1);
        lemma_scaled_bound(ws[k - 1], gs[k - 1], i);
    }
}

proof fn lemma_scaled_bound(w: Seq<i16>, g: int, i: int)
    requires
        0 <= g <= MAX_GAIN,
    ensures
        -131_072 <= scaled(w, g, i) <= 131_072,
{
    if 0 <= i < w.len() {
        let s = w[i] as int;
        assert(-131_072 * 1000 <= s * g <= 131_072 * 1000) by (nonlinear_arith)
            requires
                -32768 <= s <= 32767,
                0 <= g <= 4000,
        ;
        crate::keyframe::lemma_div_between(s * g, -131_072, 131_072, 1000);
    }
}

fn scaled_sample(w: &Vec<i16>, g: i64, i: usize) -> (r: i128)
    requires
        0 <= g <= MAX_GAIN,
    ensures
        r == scaled(w@, g as int, i as int),
{
    if i < w.len() {
        proof {
            lemma_scaled_bound(w@, g as int, i as int);
            assert(-131_072 * 1000 <= w[i as int] * g <= 131_072 * 1000) by (nonlinear_arith)
                requires
                    -32768 <= w[i as int] <= 32767,
                    0 <= g <= 4000,
            ;
        }
        crate::keyframe::floor_div((w[i] as i128) * (g as i128), UNIT as i128)
    } else {
        0
    }
}

fn clamp_sample(x: i128) -> (r: i16)
    ensures
        r == clamp_i16(x as int),
{
    if x < -32768 {
        -32768
    } else if x > 32767 {
        32767
    } else {
        x as i16
    }
}

/// Mixes `n` samples of the windows, each scaled by its gain (see `mix_spec`).
pub fn mix_windows(windows: &Vec<Vec<i16>>, gains: &Vec<i64>, n: usize) -> (r: Vec<i16>)
    requires
        windows.len() == gains.len(),
        forall|j: int| 0 <= j < gains.len() ==> 0 <= #[trigger] gains[j] <= MAX_GAIN,
    ensures
        r@ == mix_spec(window_views(windows@), int_gains(gains@), n as int),
{
    let ghost ws = window_views(windows@);
    let ghost gs = int_gains(gains@);
    let mut out: Vec<i16> = Vec::new();
    let mut i: usize = 0;
    while i < n
        invariant
            windows.len() == gains.len(),
            ws == window_views(windows@),
            gs == int_gains(gains@),
            forall|j: int| 0 <= j < gains.len() ==> 0 <= #[trigger] gains[j] <= MAX_GAIN,
            i <= n,
            out.len() == i,
            forall|j: int| 0 <= j < i ==> out[j] == mixed_sample(ws, gs, j),
        decreases n - i,
    {
        let mut sum: i128 = 0;
        let mut k: usize = 0;
        while k < windows.len()
            invariant
                windows.len() == gains.len(),
                ws == window_views(windows@),
                gs == int_gains(gains@),
                forall|j: int| 0 <= j < gains.len() ==> 0 <= #[trigger] gains[j] <= MAX_GAIN,
                k <= windows.len(),
                sum == sum_upto(ws, gs, i as int, k as int),
                -131_072 * k <= sum <= 131_072 * k,
            decreases windows.len() - k,
        {
            let c = scaled_sample(&windows[k], gains[k], i);
            proof {
                lemma_scaled_bound(windows[k as int]@, gains[k as int] as int, i as int);
                assert(ws[k as int] == windows[k as int]@);
                assert(gs[k as int] == gains[k as int] as int);
            }
            sum = sum + c;
            k = k + 1;
        }
        let v = if windows.len() == 0 {
            0
        } else {
            clamp_sample(crate::keyframe::floor_div(sum, windows.len() as i128))
        };
        out.push(v);
        i = i + 1;
    }
    proof {
        assert(out@ =~= mix_spec(ws, gs, n as int));
    }
    out
}

fn clamp_gain_exec(x: i64) -> (r: i64)
    ensures
        r == clamp_gain(x as int),
{
    if x < 0 {
        0
    } else if x > MAX_GAIN {
        MAX_GAIN
    } else {
        x
    }
}

proof fn lemma_gain_from_bound(effects: Seq<Effect>, n: int, lt: int)
    ensures
        0 <= gain_from(effects, n, lt) <= MAX_GAIN,
    decreases n,
{
    if n > 0 {
        lemma_gain_from_bound(effects, n - 1, lt);
    }
}

fn scale_gain(g: i64, level: i64) -> (r: i64)
    requires
        0 <= g <= MAX_GAIN,
    ensures
        r == clamp_gain(g * clamp_gain(level as int) / (UNIT as int)),
{
    let l = clamp_gain_exec(level);
    proof {
        assert(0 <= g * l <= 4000 * 4000) by (nonlinear_arith)
            requires
                0 <= g <= 4000,
                0 <= l <= 4000,
        ;
    }
    clamp_gain_exec(g * l / UNIT)
}

/// An item's gain at item time `lt` (see `item_gain`).
pub fn gain_at(item: &TrackItem, lt: u64) -> (r: i64)
    ensures
        r == item_gain(*item, lt as int),
        0 <= r <= MAX_GAIN,
{
    let mut g: i64 = UNIT;
    let mut k: usize = 0;
    while k < item.effects.len()
        invariant
            k <= item.effects.len(),
            g == gain_from(item.effects@, k as int, lt as int),
            0 <= g <= MAX_GAIN,
        decreases item.effects.len() - k,
    {
        let e = &item.effects[k];
        if e.enabled {
            match e.kind {
                EffectKind::Gain { level: base } => {
                    let level = String::from_str("level");
                    proof {
                        reveal_strlit("level");
                    }
                    let l = animated(&e.keyframes, &level, lt, base);
                    g = scale_gain(g, l);
                },
                _ => {},
            }
        }
        proof {
            lemma_gain_from_bound(item.effects@, k as int + 1, lt as int);
        }
        k = k + 1;
    }
    let volume = String::from_str("volume");
    proof {
        reveal_strlit("volume");
    }
    let v = animated(&item.keyframes, &volume, lt, UNIT);
    scale_gain(g, v)
}

/// The windows and gains of the heard layers among the first `k`; none when
/// a heard layer has no window.
pub open spec fn audio_inputs(
    tracks: Seq<Track>,
    layers: Seq<ActiveItem>,
    windows: Seq<Option<Vec<i16>>>,
    t: int,
    k: int,
) -> Option<(Seq<Seq<i16>>, Seq<int>)>
    decreases k,
{
    if k <= 0 {
        Some((Seq::empty(), Seq::empty()))
    } else {
        match audio_inputs(tracks, layers, windows, t, k - 1) {
            None => None,
            Some((ws, gs)) => {
                let a = layers[k - 1];
                let tr = tracks[a.track as int];
                let item = tr.items[a.item as int];
                if !heard(tr) {
                    Some((ws, gs))
                } else {
                    match windows[k - 1] {
                        None => None,
                        Some(w) => Some((ws.push(w@), gs.push(item_gain(item, t - item.start_time)))),
                    }
                }
            },
        }
    }
}

/// The mixed audio at `t`, from the windows decoded for each resolved layer;
/// none when the windows do not match the layers.
pub open spec fn mix_audio_spec(comp: Composition, windows: Seq<Option<Vec<i16>>>, t: int, n: int) -> Option<Seq<i16>> {
    let layers = resolve_spec(comp.tracks@, t);
    if windows.len() != layers.len() {
        None
    } else {
        match audio_inputs(comp.tracks@, layers, windows, t, layers.len() as int) {
            None => None,
            Some((ws, gs)) => Some(mix_spec(ws, gs, n)),
        }
    }
}

proof fn lemma_inputs_stuck(
    tracks: Seq<Track>,
    layers: Seq<ActiveItem>,
    windows: Seq<Option<Vec<i16>>>,
    t: int,
    k: int,
    n: int,
)
    requires
        0 < k <= n,
        audio_inputs(tracks, layers, windows, t, k) is None,
    ensures
        audio_inputs(tracks, layers, windows, t, n) is None,
    decreases n - k,
{
    if k < n {
        lemma_inputs_stuck(tracks, layers, windows, t, k + 1, n);
    }
}

/// Mixes `n` samples of audio at `t` from the windows decoded for each
/// resolved layer, as `audio_requests` asked for them (see `mix_audio_spec`).
/// Fails with `Media` when a heard layer has no window.
pub fn mix_audio(comp: &Composition, windows: &Vec<Option<Vec<i16>>>, t: u64, n: usize) -> (r: Result<Vec<i16>, Error>)
    ensures
        match mix_audio_spec(*comp, windows@, t as int, n as int) {
            None => r matches Err(Error::Media(_)),
            Some(v) => r matches Ok(x) && x@ == v,
        },
{
    let layers = active_items(comp, t);
    let ghost tracks = comp.tracks@;
    proof {
        assert(comp.tracks@.len() == comp.tracks.len());
        lemma_active_items_ordered(comp.tracks@, t as int);
    }
    if windows.len() != layers.len() {
        return Err(Error::Media(String::from_str("audio windows do not match the layers")));
    }
    let mut ws: Vec<Vec<i16>> = Vec::new();
    let mut gs: Vec<i64> = Vec::new();
    let mut k: usize = 0;
    while k < layers.len()
        invariant
            k <= layers.len(),
            tracks == comp.tracks@,
            layers@ == resolve_spec(tracks, t as int),
            windows.len() == layers.len(),
            forall|x: int| 0 <= x < layers.len() ==> layer_ok(tracks, #[trigger] layers@[x], t as int),
            ws.len() == gs.len(),
            forall|j: int| 0 <= j < gs.len() ==> 0 <= #[trigger] gs[j] <= MAX_GAIN,
            audio_inputs(tracks, layers@, windows@, t as int, k as int) == Some(
                (window_views(ws@), int_gains(gs@)),
            ),
        decreases layers.len() - k,
    {
        let a = layers[k];
        assert(layer_ok(tracks, layers@[k as int], t as int));
        let tr = &comp.tracks[a.track];
        if tr.track_type == TrackType::Audio && !tr.is_muted {
            match &windows[k] {
                None => {
                    proof {
                        lemma_inputs_stuck(tracks, layers@, windows@, t as int, k as int + 1, layers.len() as int);
                    }
                    return Err(Error::Media(String::from_str("missing decoded audio")));
                },
                Some(w) => {
                    let item = &tr.items[a.item];
                    let g = gain_at(item, t - item.start_time);
                    let ghost old_ws = ws@;
                    let ghost old_gs = gs@;
                    ws.push(w.clone());
                    gs.push(g);
                    proof {
                        assert(window_views(ws@) =~= window_views(old_ws).push(w@));
                        assert(int_gains(gs@) =~= int_gains(old_gs).push(g as int));
                    }
                },
            }
        }
        k = k + 1;
    }
    Ok(mix_windows(&ws, &gs, n))
}

/// Whether `q` asks for exactly the audio that layer `a` needs at `t`.
pub open spec fn audio_request_ok(tracks: Seq<Track>, a: ActiveItem, q: Option<AudioRequest>, t: int, n: int) -> bool {
    let tr = tracks[a.track as int];
    let item = tr.items[a.item as int];
    if !heard(tr) {
        q is None
    } else {
        q matches Some(x) && x.asset_id@ == item.asset_id@ && x.time == source_time_spec(item, t) && x.samples == n
    }
}

/// The sample windows that the audio at `t` needs decoded, one entry per
/// resolved layer (none for layers that are not heard).
pub fn audio_requests(comp: &Composition, t: u64, samples: usize) -> (r: Vec<Option<AudioRequest>>)
    ensures
        r.len() == resolve_spec(comp.tracks@, t as int).len(),
        forall|j: int|
            0 <= j < r.len() ==> audio_request_ok(
                comp.tracks@,
                resolve_spec(comp.tracks@, t as int)[j],
                #[trigger] r[j],
                t as int,
                samples as int,
            ),
{
    let layers = active_items(comp, t);
    let ghost tracks = comp.tracks@;
    proof {
        assert(comp.tracks@.len() == comp.tracks.len());
        lemma_active_items_ordered(comp.tracks@, t as int);
    }
    let mut r: Vec<Option<AudioRequest>> = Vec::new();
    let mut j: usize = 0;
    while j < layers.len()
        invariant
            j <= layers.len(),
            tracks == comp.tracks@,
            layers@ == resolve_spec(tracks, t as int),
            forall|x: int| 0 <= x < layers.len() ==> layer_ok(tracks, #[trigger] layers@[x], t as int),
            r.len() == j,
            forall|x: int| 0 <= x < j ==> audio_request_ok(tracks, layers@[x], #[trigger] r[x], t as int, samples as int),
        decreases layers.len() - j,
    {
        let a = layers[j];
        assert(layer_ok(tracks, layers@[j as int], t as int));
        let tr = &comp.tracks[a.track];
        if tr.track_type == TrackType::Audio && !tr.is_muted {
            let item = &tr.items[a.item];
            r.push(Some(AudioRequest { asset_id: item.asset_id.clone(), time: source_time(item, t), samples }));
        } else {
            r.push(None);
        }
        j = j + 1;
    }
    r
}

} // verus!
