use waldiez_player::catalog::{get_available_effects, EffectCategory, Param};
use waldiez_player::media::png_data_url;
use waldiez_player::mixer::{audio_requests, gain_at, mix_audio, mix_windows};
use waldiez_player::model::{
    AssetLibrary, AudioAsset, BlendMode, Composition, DurationSetting, Easing, Effect, EffectKind,
    ImageAsset, Keyframe, KeyframeGroup, ParamValue, Position, Project, ProjectSettings,
    Resolution, Scale, Track, TrackItem, TrackType, Transform, Transition, TransitionKind,
    TransitionPosition, WipeDirection,
};
use waldiez_player::project::{ProjectManager, ValidationWarning};
use waldiez_player::Error;

const S: u64 = 1_000_000;

fn item(asset: &str, start: u64, duration: u64) -> TrackItem {
    TrackItem {
        id: format!("{}@{}", asset, start),
        asset_id: asset.to_string(),
        start_time: start,
        duration,
        in_point: 0,
        out_point: duration,
        transform: Transform {
            position: Position { x: 0, y: 0 },
            scale: Scale { x: 1000, y: 1000 },
            rotation: 0,
            anchor: Position { x: 0, y: 0 },
            opacity: 1000,
        },
        effects: vec![],
        transitions: vec![],
        keyframes: vec![],
    }
}

fn track(kind: TrackType, items: Vec<TrackItem>) -> Track {
    Track {
        id: "t".to_string(),
        name: "t".to_string(),
        track_type: kind,
        items,
        is_visible: true,
        is_muted: false,
        is_locked: false,
        opacity: 1000,
        blend_mode: BlendMode::Normal,
    }
}

fn gain(level: i64) -> Effect {
    Effect { id: "g".to_string(), kind: EffectKind::Gain { level }, enabled: true, keyframes: vec![] }
}

fn project(tracks: Vec<Track>) -> Project {
    Project {
        id: "p".to_string(),
        name: "p".to_string(),
        version: "1.0.0".to_string(),
        created_at: 0,
        updated_at: 0,
        settings: ProjectSettings {
            resolution: Resolution { width: 1, height: 1 },
            frame_rate: 30_000,
            background_color: "#000000".to_string(),
            duration: DurationSetting::Fixed(S),
        },
        assets: AssetLibrary {
            images: vec![ImageAsset {
                id: "img".to_string(),
                name: "img".to_string(),
                path: "img.png".to_string(),
                width: 1,
                height: 1,
                format: "png".to_string(),
                size: 1,
            }],
            audio: vec![AudioAsset {
                id: "snd".to_string(),
                name: "snd".to_string(),
                path: "snd.wav".to_string(),
                duration: S,
                sample_rate: 48_000,
                channels: 2,
                format: "wav".to_string(),
                size: 1,
            }],
            video: vec![],
            captions: vec![],
            fonts: vec![],
        },
        composition: Composition { tracks, markers: vec![] },
        file_path: None,
    }
}

#[test]
fn mixing_normalizes_by_item_count() {
    let ws = vec![vec![1000i16, -2000, 30000], vec![3000i16, 2000]];
    let out = mix_windows(&ws, &vec![1000, 1000], 4);
    assert_eq!(out, vec![2000, 0, 15000, 0]);
    let loud = mix_windows(&vec![vec![30000i16], vec![30000i16]], &vec![4000, 4000], 1);
    assert_eq!(loud, vec![32767]);
    assert_eq!(mix_windows(&vec![], &vec![], 3), vec![0, 0, 0]);
    let half = mix_windows(&vec![vec![-3i16]], &vec![500], 1);
    assert_eq!(half, vec![-2]);
}

#[test]
fn audio_mix_uses_heard_tracks_and_gains() {
    let mut a = item("snd", 0, S);
    a.effects.push(gain(500));
    let mut muted = track(TrackType::Audio, vec![item("snd", 0, S)]);
    muted.is_muted = true;
    let comp = Composition {
        tracks: vec![
            track(TrackType::Video, vec![item("img", 0, S)]),
            track(TrackType::Audio, vec![a]),
            muted,
        ],
        markers: vec![],
    };
    let reqs = audio_requests(&comp, S / 2, 3);
    assert_eq!(reqs.len(), 3);
    assert!(reqs[0].is_none());
    assert!(reqs[2].is_none());
    let r = reqs[1].as_ref().unwrap();
    assert_eq!((r.asset_id.as_str(), r.time, r.samples), ("snd", S / 2, 3));
    let windows = vec![None, Some(vec![100i16, 200, -300]), None];
    assert_eq!(mix_audio(&comp, &windows, S / 2, 3).unwrap(), vec![50, 100, -150]);
    let missing = vec![None, None, None];
    assert!(matches!(mix_audio(&comp, &missing, S / 2, 3), Err(Error::Media(_))));
}

#[test]
fn gain_follows_keyframed_volume() {
    let mut it = item("snd", S, S);
    it.effects.push(gain(2000));
    it.keyframes.push(KeyframeGroup {
        property: "volume".to_string(),
        keyframes: vec![
            Keyframe { id: "a".to_string(), time: 0, value: ParamValue::Number(0), easing: Easing::Linear },
            Keyframe { id: "b".to_string(), time: 1000, value: ParamValue::Number(1000), easing: Easing::Linear },
        ],
    });
    assert_eq!(gain_at(&it, 0), 0);
    assert_eq!(gain_at(&it, 500), 1000);
    assert_eq!(gain_at(&it, 5000), 2000);
    let mut capped = item("snd", 0, S);
    capped.effects.push(gain(9000));
    capped.effects.push(gain(3000));
    assert_eq!(gain_at(&capped, 0), 4000);
}

#[test]
fn validation_warns_on_missing_assets_and_overlaps() {
    let p = project(vec![
        track(TrackType::Video, vec![item("img", 0, 2 * S), item("gone", S, 2 * S)]),
        track(TrackType::Audio, vec![item("snd", 0, S)]),
    ]);
    let w = ProjectManager::validate(&p).unwrap();
    assert_eq!(
        w,
        vec![
            ValidationWarning::MissingAsset { track: 0, item: 1 },
            ValidationWarning::Overlap { track: 0, item: 1 },
        ]
    );
}

#[test]
fn validation_accepts_bridged_overlap() {
    let mut a = item("img", 0, 2 * S);
    a.transitions.push(Transition {
        id: "x".to_string(),
        kind: TransitionKind::CrossFade,
        duration: S,
        position: TransitionPosition::End,
        easing: Easing::Linear,
    });
    let p = project(vec![track(TrackType::Video, vec![a, item("img", S, 2 * S)])]);
    assert_eq!(ProjectManager::validate(&p).unwrap(), vec![]);
}

#[test]
fn validation_fails_on_unsorted_items_or_keyframes() {
    let p = project(vec![track(TrackType::Video, vec![item("img", 2 * S, S), item("img", 0, S)])]);
    assert!(matches!(ProjectManager::validate(&p), Err(Error::InvalidComposition(_))));
    let mut it = item("img", 0, S);
    it.keyframes.push(KeyframeGroup {
        property: "opacity".to_string(),
        keyframes: vec![
            Keyframe { id: "a".to_string(), time: 10, value: ParamValue::Number(0), easing: Easing::Linear },
            Keyframe { id: "b".to_string(), time: 10, value: ParamValue::Number(1), easing: Easing::Linear },
        ],
    });
    let p = project(vec![track(TrackType::Video, vec![it])]);
    assert!(matches!(ProjectManager::validate(&p), Err(Error::InvalidComposition(_))));
}

#[test]
fn new_projects_have_defaults() {
    let p = ProjectManager::create("My film".to_string(), Some("/tmp/a.json".to_string()));
    assert_eq!(p.name, "My film");
    assert_eq!(p.version, "1.0.0");
    assert_eq!(p.id.len(), 36);
    assert_eq!(p.created_at, p.updated_at);
    assert_eq!(p.settings.frame_rate, 30_000);
    assert_eq!(p.settings.resolution, Resolution { width: 1920, height: 1080 });
    assert_eq!(p.file_path, Some("/tmp/a.json".to_string()));
    assert!(p.composition.tracks.is_empty());
    let d = ProjectSettings::default_settings();
    assert_eq!(d.background_color, "#000000");
    let mut custom = ProjectSettings::default();
    assert_eq!(custom.frame_rate, 30_000);
    custom.background_color = "#102030".to_string();
    let bg = custom.background();
    assert_eq!((bg.r, bg.g, bg.b, bg.a), (16, 32, 48, 255));
    custom.background_color = "navy".to_string();
    assert_eq!(custom.background().b, 0);
}

#[test]
fn catalog_tags() {
    let params = vec![Param { name: "value".to_string(), value: 1500 }];
    assert_eq!(
        EffectKind::from_tag(&"brightness".to_string(), &params),
        Some(EffectKind::Brightness { value: 1500 })
    );
    assert_eq!(
        EffectKind::from_tag(&"vignette".to_string(), &vec![]),
        Some(EffectKind::Vignette { intensity: 0, radius: 500 })
    );
    assert_eq!(EffectKind::from_tag(&"sparkle".to_string(), &params), None);
    assert_eq!(EffectKind::Grain { intensity: 0 }.category(), EffectCategory::Stylize);
    assert_eq!(EffectKind::Gain { level: 0 }.category(), EffectCategory::Audio);
    assert_eq!(
        TransitionKind::from_tag(&"wipe".to_string(), &"up".to_string()),
        Some(TransitionKind::Wipe { direction: WipeDirection::Up })
    );
    assert_eq!(
        TransitionKind::from_tag(&"cross-fade".to_string(), &String::new()),
        Some(TransitionKind::CrossFade)
    );
    assert_eq!(TransitionKind::from_tag(&"spin".to_string(), &String::new()), None);
    assert_eq!(TransitionPosition::from_tag(&"end".to_string()), Some(TransitionPosition::End));
    assert_eq!(BlendMode::from_tag(&"screen".to_string()), Some(BlendMode::Screen));
    assert_eq!(BlendMode::from_tag(&"overlay".to_string()), None);
    assert_eq!(TrackType::from_tag(&"caption".to_string()), Some(TrackType::Caption));
}

#[test]
fn png_bytes_become_a_data_url() {
    assert_eq!(png_data_url(&vec![]), "data:image/png;base64,");
    assert_eq!(png_data_url(&b"abc".to_vec()), "data:image/png;base64,YWJj");
    assert_eq!(png_data_url(&vec![0xff, 0x00]), "data:image/png;base64,/wA=");
}

#[test]
fn effect_catalog_lists_every_effect_with_sane_defaults() {
    let defs = get_available_effects();
    let ids: Vec<&str> = defs.iter().map(|d| d.id.as_str()).collect();
    assert_eq!(
        ids,
        vec!["brightness", "contrast", "saturation", "hue", "blur", "sharpen", "vignette", "grain", "gain"]
    );
    for d in &defs {
        let kind = EffectKind::from_tag(&d.id, &vec![]).unwrap();
        assert_eq!(d.category, kind.category());
        for p in &d.parameters {
            assert!(p.min.unwrap() <= p.default_value && p.default_value <= p.max.unwrap());
            assert!(p.step.unwrap() > 0);
        }
    }
    assert_eq!(defs[6].parameters.len(), 2);
    assert_eq!(defs[6].parameters[1].default_value, 500);
    assert_eq!(defs[8].category, EffectCategory::Audio);
}
