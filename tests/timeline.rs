use waldiez_player::compositor::{
    apply_effect, cosine_of, sine_of, paint, parse_color, place, transition, Frame, Placement, Rgba,
};
use waldiez_player::keyframe::PROGRESS_ONE;
use waldiez_player::model::{
    BlendMode, Composition, Easing, Effect, EffectKind, Keyframe, KeyframeGroup, ParamValue,
    Position, Scale, Track, TrackItem, TrackType, Transform, Transition, TransitionKind,
    TransitionPosition, WipeDirection,
};
use waldiez_player::scene::{composite, frame_requests, source_time, LayerFrames};
use waldiez_player::timeline::{active_items, layer_of_track};
use waldiez_player::Error;

const S: u64 = 1_000_000;
const BLACK: Rgba = Rgba { r: 0, g: 0, b: 0, a: 255 };

fn transform() -> Transform {
    Transform {
        position: Position { x: 0, y: 0 },
        scale: Scale { x: 1000, y: 1000 },
        rotation: 0,
        anchor: Position { x: 0, y: 0 },
        opacity: 1000,
    }
}

fn item(id: &str, start: u64, duration: u64, transitions: Vec<Transition>) -> TrackItem {
    TrackItem {
        id: id.to_string(),
        asset_id: format!("asset-{}", id),
        start_time: start,
        duration,
        in_point: 0,
        out_point: duration,
        transform: transform(),
        effects: vec![],
        transitions,
        keyframes: vec![],
    }
}

fn fade(position: TransitionPosition, duration: u64) -> Transition {
    Transition {
        id: "t".to_string(),
        kind: TransitionKind::CrossFade,
        duration,
        position,
        easing: Easing::Linear,
    }
}

fn track(name: &str, kind: TrackType, items: Vec<TrackItem>) -> Track {
    Track {
        id: name.to_string(),
        name: name.to_string(),
        track_type: kind,
        items,
        is_visible: true,
        is_muted: false,
        is_locked: false,
        opacity: 1000,
        blend_mode: BlendMode::Normal,
    }
}

fn solid(w: u32, h: u32, v: u8) -> Frame {
    Frame { width: w, height: h, pixels: vec![Rgba { r: v, g: v, b: v, a: 255 }; (w * h) as usize] }
}

fn crossfade_comp() -> Composition {
    let a = item("a", 0, 3 * S, vec![fade(TransitionPosition::End, S)]);
    let b = item("b", 2 * S, 3 * S, vec![fade(TransitionPosition::Start, S)]);
    Composition { tracks: vec![track("v", TrackType::Video, vec![a, b])], markers: vec![] }
}

#[test]
fn active_items_follow_track_order_and_contain_t() {
    let comp = Composition {
        tracks: vec![
            track("top", TrackType::Video, vec![item("x", 0, 2 * S, vec![]), item("y", 3 * S, S, vec![])]),
            track("mid", TrackType::Audio, vec![item("z", S, 5 * S, vec![])]),
            track("base", TrackType::Image, vec![item("w", 0, 10 * S, vec![])]),
        ],
        markers: vec![],
    };
    for t in [0u64, S / 2, S, 2 * S, 3 * S + 1, 6 * S, 9 * S] {
        let layers = active_items(&comp, t);
        for pair in layers.windows(2) {
            assert!(pair[0].track < pair[1].track);
        }
        for l in &layers {
            let it = &comp.tracks[l.track].items[l.item];
            assert!(it.start_time <= t && t < it.start_time + it.duration);
        }
    }
    let at = active_items(&comp, 2 * S + S / 2);
    assert_eq!(at.len(), 2);
    assert_eq!((at[0].track, at[0].item), (1, 0));
    assert_eq!((at[1].track, at[1].item), (2, 0));
}

#[test]
fn overlap_without_transition_picks_earliest() {
    let tr = track("v", TrackType::Video, vec![item("a", 0, 3 * S, vec![]), item("b", 2 * S, 3 * S, vec![])]);
    let l = layer_of_track(&tr, 0, 2 * S + 1).unwrap();
    assert_eq!(l.item, 0);
    assert!(l.blend.is_none());
}

#[test]
fn crossfade_midway_blends_half_and_half() {
    let comp = crossfade_comp();
    let t = 2 * S + S / 2;
    let layers = active_items(&comp, t);
    assert_eq!(layers.len(), 1);
    let blend = layers[0].blend.unwrap();
    assert_eq!(layers[0].item, 0);
    assert_eq!(blend.incoming, 1);
    assert_eq!(blend.progress, PROGRESS_ONE / 2);

    let reqs = frame_requests(&comp, t);
    let req = reqs[0].as_ref().unwrap();
    assert_eq!(req.main.asset_id, "asset-a");
    assert_eq!(req.main.time, 2 * S + S / 2);
    let inc = req.incoming.as_ref().unwrap();
    assert_eq!(inc.asset_id, "asset-b");
    assert_eq!(inc.time, S / 2);

    let frames = vec![Some(LayerFrames { main: solid(4, 2, 100), incoming: Some(solid(4, 2, 200)) })];
    let out = composite(&comp, &frames, t, 4, 2, BLACK).unwrap();
    assert_eq!(out.pixels.len(), 8);
    for p in &out.pixels {
        assert_eq!((p.r, p.g, p.b, p.a), (150, 150, 150, 255));
    }
}

#[test]
fn transition_window_progress_runs_from_zero() {
    let comp = crossfade_comp();
    let at_start = active_items(&comp, 2 * S);
    assert_eq!(at_start[0].blend.unwrap().progress, 0);
    let before = active_items(&comp, 2 * S - 1);
    assert!(before[0].blend.is_none());
    let after = active_items(&comp, 3 * S);
    assert_eq!(after[0].item, 1);
    assert!(after[0].blend.is_none());
}

#[test]
fn source_time_is_held_at_out_point() {
    let mut it = item("a", S, 4 * S, vec![]);
    it.in_point = 10 * S;
    it.out_point = 12 * S;
    assert_eq!(source_time(&it, S), 10 * S);
    assert_eq!(source_time(&it, 2 * S), 11 * S);
    assert_eq!(source_time(&it, 4 * S), 12 * S);
}

#[test]
fn composite_paints_bottom_up_with_opacity() {
    let mut top = track("top", TrackType::Video, vec![item("a", 0, S, vec![])]);
    top.opacity = 500;
    let base = track("base", TrackType::Video, vec![item("b", 0, S, vec![])]);
    let comp = Composition { tracks: vec![top, base], markers: vec![] };
    let frames = vec![
        Some(LayerFrames { main: solid(2, 1, 200), incoming: None }),
        Some(LayerFrames { main: solid(2, 1, 100), incoming: None }),
    ];
    let out = composite(&comp, &frames, 0, 2, 1, BLACK).unwrap();
    // coverage 255 * 500 / 1000 = 127: (200 * 127 + 100 * 128) / 255 = 149
    assert_eq!(out.pixels[0].r, 149);
}

#[test]
fn composite_reports_missing_frames_and_handles_odd_transforms() {
    let comp = crossfade_comp();
    let err = composite(&comp, &vec![], 0, 2, 2, BLACK).unwrap_err();
    assert!(matches!(err, Error::Media(_)));
    let frames = vec![Some(LayerFrames { main: solid(2, 2, 10), incoming: None })];
    let bad = vec![Some(LayerFrames { main: Frame { width: 2, height: 2, pixels: vec![] }, incoming: None })];
    assert!(matches!(composite(&comp, &bad, 0, 2, 2, BLACK), Err(Error::Media(_))));
    let mut comp = crossfade_comp();
    comp.tracks[0].items[0].transform.rotation = 45_000;
    assert!(composite(&comp, &frames, 0, 2, 2, BLACK).is_ok());
    let mut comp = crossfade_comp();
    comp.tracks[0].items[0].transform.scale.y = 0;
    let empty = composite(&comp, &frames, 0, 2, 2, BLACK).unwrap();
    assert!(empty.pixels.iter().all(|p| *p == BLACK));
    let mut comp = crossfade_comp();
    comp.tracks[0].items[0].effects.push(Effect {
        id: "e".to_string(),
        kind: EffectKind::Brightness { value: 2000 },
        enabled: true,
        keyframes: vec![],
    });
    let out = composite(&comp, &frames, 0, 2, 2, BLACK).unwrap();
    assert_eq!(out.pixels[0].r, 255);
}

#[test]
fn effects_transform_pixels() {
    let f = solid(1, 1, 100);
    let b = apply_effect(EffectKind::Brightness { value: 1200 }, &f);
    assert_eq!(b.pixels[0].r, 151);
    let c = apply_effect(EffectKind::Contrast { value: 2000 }, &f);
    assert_eq!(c.pixels[0].r, 72);
    let mut g = solid(1, 1, 0);
    g.pixels[0] = Rgba { r: 90, g: 60, b: 30, a: 255 };
    let s = apply_effect(EffectKind::Saturation { value: 0 }, &g);
    assert_eq!((s.pixels[0].r, s.pixels[0].g, s.pixels[0].b), (60, 60, 60));
    let mut red = solid(1, 1, 0);
    red.pixels[0].r = 255;
    let h = apply_effect(EffectKind::Hue { value: 120_000 }, &red);
    assert_eq!((h.pixels[0].r, h.pixels[0].g, h.pixels[0].b), (0, 255, 0));
    let h = apply_effect(EffectKind::Hue { value: -60_000 }, &red);
    assert_eq!((h.pixels[0].r, h.pixels[0].g, h.pixels[0].b), (255, 0, 255));
    let grey = apply_effect(EffectKind::Hue { value: 45_000 }, &f);
    assert_eq!(grey.pixels, f.pixels);
}

#[test]
fn wipe_and_blend_modes() {
    let a = solid(4, 1, 0);
    let b = solid(4, 1, 255);
    let w = transition(TransitionKind::Wipe { direction: WipeDirection::Left }, Easing::Linear, &a, &b, PROGRESS_ONE / 2);
    let rs: Vec<u8> = w.pixels.iter().map(|p| p.r).collect();
    assert_eq!(rs, vec![255, 255, 0, 0]);
    let w = transition(TransitionKind::Wipe { direction: WipeDirection::Right }, Easing::Linear, &a, &b, PROGRESS_ONE / 4);
    let rs: Vec<u8> = w.pixels.iter().map(|p| p.r).collect();
    assert_eq!(rs, vec![0, 0, 0, 255]);
    let layer = solid(1, 1, 100);
    let canvas = solid(1, 1, 200);
    assert_eq!(paint(BlendMode::Add, &layer, &canvas, 1000).pixels[0].r, 255);
    assert_eq!(paint(BlendMode::Multiply, &layer, &canvas, 1000).pixels[0].r, 78);
    assert_eq!(paint(BlendMode::Screen, &layer, &canvas, 1000).pixels[0].r, 222);
    assert_eq!(paint(BlendMode::Normal, &layer, &canvas, 0).pixels[0].r, 200);
}

#[test]
fn place_moves_and_leaves_transparent() {
    let mut src = solid(2, 1, 0);
    src.pixels[0].r = 7;
    src.pixels[1].r = 9;
    let moved = Placement { px: 1, py: 0, ax: 0, ay: 0, kx: 1000, ky: 1000, cos: 1_000_000, sin: 0 };
    let p = place(&src, 3, 1, moved);
    assert_eq!(p.pixels[0].a, 0);
    assert_eq!(p.pixels[1].r, 7);
    assert_eq!(p.pixels[2].r, 9);
    let doubled = Placement { px: 0, py: 0, ax: 0, ay: 0, kx: 2000, ky: 1000, cos: 1_000_000, sin: 0 };
    let rs: Vec<u8> = place(&src, 4, 1, doubled).pixels.iter().map(|p| p.r).collect();
    assert_eq!(rs, vec![7, 7, 9, 9]);
    let about_anchor = Placement { px: 2, py: 0, ax: 1, ay: 0, kx: 1000, ky: 1000, cos: 1_000_000, sin: 0 };
    let q = place(&src, 3, 1, about_anchor);
    assert_eq!((q.pixels[0].a, q.pixels[1].r, q.pixels[2].r), (0, 7, 9));
    let quarter = Placement { px: 0, py: 0, ax: 0, ay: 0, kx: 1000, ky: 1000, cos: 0, sin: 1_000_000 };
    let t = place(&src, 1, 2, quarter);
    assert_eq!((t.pixels[0].r, t.pixels[1].r), (7, 9));
    let half = Placement { px: 1, py: 0, ax: 0, ay: 0, kx: 1000, ky: 1000, cos: -1_000_000, sin: 0 };
    let u = place(&src, 2, 1, half);
    assert_eq!((u.pixels[0].r, u.pixels[1].r), (9, 7));
}

#[test]
fn vignette_darkens_corners_only() {
    let f = solid(3, 3, 200);
    let v = apply_effect(EffectKind::Vignette { intensity: 1000, radius: 0 }, &f);
    assert_eq!(v.pixels[4].r, 200);
    assert_eq!(v.pixels[0].r, 22);
    assert_eq!(v.pixels[0].a, 255);
    let none = apply_effect(EffectKind::Vignette { intensity: 0, radius: 500 }, &f);
    assert!(none.pixels.iter().all(|p| p.r == 200));
}

#[test]
fn grain_adds_bounded_deterministic_noise() {
    let f = solid(3, 1, 100);
    let g = apply_effect(EffectKind::Grain { intensity: 1000 }, &f);
    let rs: Vec<u8> = g.pixels.iter().map(|p| p.r).collect();
    assert_eq!(rs, vec![50, 69, 121]);
    let again = apply_effect(EffectKind::Grain { intensity: 1000 }, &f);
    assert_eq!(again.pixels, g.pixels);
    let flat = apply_effect(EffectKind::Grain { intensity: 0 }, &f);
    assert!(flat.pixels.iter().all(|p| p.r == 100));
}

#[test]
fn blur_and_sharpen_use_the_neighbourhood() {
    let mut f = solid(3, 1, 0);
    f.pixels[1].r = 90;
    f.pixels[2].r = 180;
    let b = apply_effect(EffectKind::Blur { radius: 1000 }, &f);
    let rs: Vec<u8> = b.pixels.iter().map(|p| p.r).collect();
    assert_eq!(rs, vec![45, 90, 135]);
    let same = apply_effect(EffectKind::Blur { radius: 0 }, &f);
    assert_eq!(same.pixels, f.pixels);
    let s = apply_effect(EffectKind::Sharpen { amount: 1000 }, &f);
    let rs: Vec<u8> = s.pixels.iter().map(|p| p.r).collect();
    assert_eq!(rs, vec![0, 90, 225]);
}

#[test]
fn background_shows_where_nothing_is_painted() {
    let comp = Composition { tracks: vec![], markers: vec![] };
    let bg = Rgba { r: 1, g: 2, b: 3, a: 255 };
    let out = composite(&comp, &vec![], 0, 2, 1, bg).unwrap();
    assert_eq!(out.pixels, vec![bg, bg]);
}

#[test]
fn colours_parse_from_hex() {
    assert_eq!(parse_color("#ff8000"), Some(Rgba { r: 255, g: 128, b: 0, a: 255 }));
    assert_eq!(parse_color("#A0b1C2"), Some(Rgba { r: 160, g: 177, b: 194, a: 255 }));
    assert_eq!(parse_color("ff8000"), None);
    assert_eq!(parse_color("#ff80"), None);
    assert_eq!(parse_color("#gg0000"), None);
}

#[test]
fn sines_and_rotated_placement() {
    assert_eq!(sine_of(0), 0);
    assert_eq!(sine_of(30_000), 500_000);
    assert_eq!(sine_of(90_000), 1_000_000);
    assert_eq!(sine_of(270_000), -1_000_000);
    assert_eq!(sine_of(-90_000), -1_000_000);
    assert_eq!(cosine_of(0), 1_000_000);
    assert_eq!(cosine_of(180_000), -1_000_000);
    assert_eq!(cosine_of(60_000), 500_000);
    let s45 = sine_of(45_000);
    assert!((705_000..=708_000).contains(&s45));
    // a single bright pixel turned 90 degrees about the anchor moves from the right to below it
    let mut src = solid(2, 1, 0);
    src.pixels[1].r = 200;
    let turned = Placement { px: 0, py: 0, ax: 0, ay: 0, kx: 1000, ky: 1000, cos: cosine_of(90_000), sin: sine_of(90_000) };
    let t = place(&src, 1, 2, turned);
    assert_eq!((t.pixels[0].r, t.pixels[1].r), (0, 200));
}

#[test]
fn negative_scale_mirrors_and_zero_scale_hides() {
    let mut src = solid(2, 1, 0);
    src.pixels[0].r = 7;
    src.pixels[1].r = 9;
    let mirrored = Placement { px: 1, py: 0, ax: 0, ay: 0, kx: -1000, ky: 1000, cos: 1_000_000, sin: 0 };
    let m = place(&src, 2, 1, mirrored);
    assert_eq!((m.pixels[0].r, m.pixels[1].r), (9, 7));
    let hidden = Placement { px: 0, py: 0, ax: 0, ay: 0, kx: 0, ky: 1000, cos: 1_000_000, sin: 0 };
    assert!(place(&src, 2, 1, hidden).pixels.iter().all(|p| p.a == 0));
}

#[test]
fn slide_pushes_the_outgoing_frame_out() {
    let mut a = solid(4, 1, 0);
    let mut b = solid(4, 1, 0);
    for i in 0..4 {
        a.pixels[i].r = 1 + i as u8;
        b.pixels[i].r = 5 + i as u8;
    }
    let left = transition(TransitionKind::Slide { direction: WipeDirection::Left }, Easing::Linear, &a, &b, PROGRESS_ONE / 2);
    let rs: Vec<u8> = left.pixels.iter().map(|p| p.r).collect();
    assert_eq!(rs, vec![7, 8, 1, 2]);
    let right = transition(TransitionKind::Slide { direction: WipeDirection::Right }, Easing::Linear, &a, &b, PROGRESS_ONE / 4);
    let rs: Vec<u8> = right.pixels.iter().map(|p| p.r).collect();
    assert_eq!(rs, vec![2, 3, 4, 5]);
    assert_eq!(
        TransitionKind::from_tag(&"slide".to_string(), &"down".to_string()),
        Some(TransitionKind::Slide { direction: WipeDirection::Down })
    );
}

fn number_group(property: &str, values: &[(u64, i64)]) -> KeyframeGroup {
    KeyframeGroup {
        property: property.to_string(),
        keyframes: values
            .iter()
            .map(|(t, v)| Keyframe { id: format!("{}", t), time: *t, value: ParamValue::Number(*v), easing: Easing::Linear })
            .collect(),
    }
}

#[test]
fn keyframes_animate_effect_parameters_rotation_and_anchor() {
    // hue animated from 0 to 120 degrees: red turns green at the second keyframe
    let mut comp = Composition { tracks: vec![track("v", TrackType::Video, vec![item("a", 0, S, vec![])])], markers: vec![] };
    comp.tracks[0].items[0].effects.push(Effect {
        id: "h".to_string(),
        kind: EffectKind::Hue { value: 0 },
        enabled: true,
        keyframes: vec![number_group("value", &[(0, 0), (1000, 120_000)])],
    });
    let mut red = solid(1, 1, 0);
    red.pixels[0].r = 255;
    let frames = vec![Some(LayerFrames { main: red.clone(), incoming: None })];
    let start = composite(&comp, &frames, 0, 1, 1, BLACK).unwrap();
    assert_eq!((start.pixels[0].r, start.pixels[0].g), (255, 0));
    let later = composite(&comp, &frames, 1000, 1, 1, BLACK).unwrap();
    assert_eq!((later.pixels[0].r, later.pixels[0].g), (0, 255));

    // a 2 by 1 frame turned half a turn about its right pixel by a rotation keyframe
    let mut comp = Composition { tracks: vec![track("v", TrackType::Video, vec![item("a", 0, S, vec![])])], markers: vec![] };
    let it = &mut comp.tracks[0].items[0];
    it.transform.position = Position { x: 1000, y: 0 };
    it.keyframes.push(number_group("rotation", &[(0, 180_000)]));
    it.keyframes.push(number_group("anchor.x", &[(0, 1000)]));
    let mut src = solid(2, 1, 0);
    src.pixels[0].r = 7;
    src.pixels[1].r = 9;
    let frames = vec![Some(LayerFrames { main: src, incoming: None })];
    let out = composite(&comp, &frames, 0, 2, 1, BLACK).unwrap();
    assert_eq!((out.pixels[0].r, out.pixels[1].r), (0, 9));
}
