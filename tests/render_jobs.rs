use waldiez_player::model::{
    AssetLibrary, BlendMode, Composition, DurationSetting, Position, Project, ProjectSettings,
    Resolution, Scale, Track, TrackItem, TrackType, Transform,
};
use waldiez_player::render::{
    frame_count, frame_time, total_duration, RenderAction, RenderManager, RenderQuality,
    RenderSettings, RenderStatus,
};
use waldiez_player::Error;

const S: u64 = 1_000_000;

fn project(duration: u64) -> Project {
    let it = TrackItem {
        id: "i".to_string(),
        asset_id: "a".to_string(),
        start_time: 0,
        duration,
        in_point: 0,
        out_point: duration,
        transform: Transform {
            position: Position { x: 0, y: 0 },
            scale: Scale { x: 1000, y: 1000 },
            rotation: 0,
            anchor: Position { x: 0, y: 0 },
            opacity: 1000,
        },
        effects: vec![],
        transitions: vec![],
        keyframes: vec![],
    };
    Project {
        id: "p".to_string(),
        name: "demo".to_string(),
        version: "1.0.0".to_string(),
        created_at: 0,
        updated_at: 0,
        settings: ProjectSettings {
            resolution: Resolution { width: 4, height: 4 },
            frame_rate: 10_000,
            background_color: "#000000".to_string(),
            duration: DurationSetting::Auto("auto".to_string()),
        },
        assets: AssetLibrary { images: vec![], audio: vec![], video: vec![], captions: vec![], fonts: vec![] },
        composition: Composition {
            tracks: vec![Track {
                id: "t".to_string(),
                name: "t".to_string(),
                track_type: TrackType::Video,
                items: vec![it],
                is_visible: true,
                is_muted: false,
                is_locked: false,
                opacity: 1000,
                blend_mode: BlendMode::Normal,
            }],
            markers: vec![],
        },
        file_path: None,
    }
}

fn settings(frame_rate: u32) -> RenderSettings {
    RenderSettings {
        resolution: Resolution { width: 4, height: 4 },
        frame_rate,
        format: "mp4".to_string(),
        quality: RenderQuality::High,
    }
}

/// Drives a job the way the application does, counting the frames written.
fn drive(m: &mut RenderManager, id: &str) -> (u64, Vec<u64>) {
    m.begin_render(id).unwrap();
    let mut written = 0;
    let mut times = vec![];
    loop {
        match m.next_action(id).unwrap() {
            RenderAction::RenderFrame { index, time } => {
                assert_eq!(index, written);
                times.push(time);
                written += 1;
                m.frame_written(id).unwrap();
            }
            RenderAction::Finalize => {
                m.complete_render(id).unwrap();
            }
            RenderAction::Stop => break,
        }
    }
    (written, times)
}

#[test]
fn ten_frames_at_ten_fps_for_one_second() {
    let mut m = RenderManager::new();
    let id = m.start_render(project(S), settings(10_000), "/tmp/out.mp4".to_string()).unwrap();
    assert_eq!(id.len(), 36);
    let p = m.get_progress(&id).unwrap();
    assert_eq!(p.status, RenderStatus::Queued);
    assert_eq!(p.job_id, id);
    let (written, times) = drive(&mut m, &id);
    assert_eq!(written, 10);
    assert_eq!(times, (0..10).map(|i| i * 100_000).collect::<Vec<u64>>());
    let p = m.get_progress(&id).unwrap();
    assert_eq!(p.status, RenderStatus::Completed);
    assert_eq!(p.progress, 1_000_000);
    assert_eq!(p.output_path, Some("/tmp/out.mp4".to_string()));
    assert_eq!(p.message, "Render finished");
}

#[test]
fn progress_of_unknown_job_is_not_found() {
    let m = RenderManager::new();
    assert!(matches!(m.get_progress("no-such-job"), Err(Error::NotFound(_))));
    let mut m = RenderManager::new();
    assert!(matches!(m.cancel_render("no-such-job"), Err(Error::NotFound(_))));
}

#[test]
fn cancel_while_rendering_stops_and_sticks() {
    let mut m = RenderManager::new();
    let id = m.start_render(project(S), settings(10_000), "o".to_string()).unwrap();
    m.begin_render(&id).unwrap();
    m.frame_written(&id).unwrap();
    m.frame_written(&id).unwrap();
    m.cancel_render(&id).unwrap();
    let p = m.get_progress(&id).unwrap();
    assert_eq!(p.status, RenderStatus::Cancelled);
    assert_eq!(p.progress, 200_000);
    assert_eq!(m.next_action(&id).unwrap(), RenderAction::Stop);
    m.frame_written(&id).unwrap();
    m.complete_render(&id).unwrap();
    m.fail_render(&id, "late failure".to_string()).unwrap();
    let p = m.get_progress(&id).unwrap();
    assert_eq!(p.status, RenderStatus::Cancelled);
    assert_eq!(p.output_path, None);
    // cancelling a job that has ended is a no-op success
    m.cancel_render(&id).unwrap();
    assert_eq!(m.get_progress(&id).unwrap().status, RenderStatus::Cancelled);
}

#[test]
fn progress_never_decreases_while_rendering() {
    let mut m = RenderManager::new();
    let id = m.start_render(project(3 * S), settings(7_000), "o".to_string()).unwrap();
    m.begin_render(&id).unwrap();
    let mut last = m.get_progress(&id).unwrap().progress;
    while let RenderAction::RenderFrame { .. } = m.next_action(&id).unwrap() {
        m.frame_written(&id).unwrap();
        let p = m.get_progress(&id).unwrap();
        assert_eq!(p.status, RenderStatus::Rendering);
        assert!(p.progress >= last);
        last = p.progress;
    }
    assert_eq!(last, 1_000_000);
}

#[test]
fn failure_is_recorded_with_its_message() {
    let mut m = RenderManager::new();
    let id = m.start_render(project(S), settings(25_000), "o".to_string()).unwrap();
    m.begin_render(&id).unwrap();
    m.fail_render(&id, "decode failed".to_string()).unwrap();
    let p = m.get_progress(&id).unwrap();
    assert_eq!(p.status, RenderStatus::Failed);
    assert_eq!(p.message, "decode failed");
    assert_eq!(m.next_action(&id).unwrap(), RenderAction::Stop);
    m.complete_render(&id).unwrap();
    assert_eq!(m.get_progress(&id).unwrap().status, RenderStatus::Failed);
}

#[test]
fn zero_frame_rate_is_rejected() {
    let mut m = RenderManager::new();
    let r = m.start_render(project(S), settings(0), "o".to_string());
    assert!(matches!(r, Err(Error::InvalidFormat(_))));
}

#[test]
fn register_refuses_a_duplicate_id() {
    let mut m = RenderManager::new();
    let id = m.register("job".to_string(), project(S), settings(10_000), "o".to_string()).unwrap();
    assert_eq!(id, "job");
    let again = m.register("job".to_string(), project(S), settings(10_000), "o".to_string());
    assert!(matches!(again, Err(Error::Internal(_))));
    assert_eq!(m.get_progress("job").unwrap().status, RenderStatus::Queued);
}

#[test]
fn frame_arithmetic() {
    assert_eq!(frame_count(1_000_000, 10_000), 10);
    assert_eq!(frame_count(1_000_000, 29_970), 30);
    assert_eq!(frame_count(0, 30_000), 0);
    assert_eq!(frame_time(3, 30_000), 100_000);
    assert_eq!(frame_time(1, 29_970), 33_366);
    assert_eq!(total_duration(&project(2_500_000).composition), 2_500_000);
}

#[test]
fn empty_composition_finishes_without_frames() {
    let mut m = RenderManager::new();
    let mut p = project(S);
    p.composition.tracks.clear();
    let id = m.start_render(p, settings(30_000), "o".to_string()).unwrap();
    let (written, _) = drive(&mut m, &id);
    assert_eq!(written, 0);
    assert_eq!(m.get_progress(&id).unwrap().status, RenderStatus::Completed);
}

#[test]
fn cancel_of_an_ended_job_changes_nothing() {
    let mut m = RenderManager::new();
    let id = m.start_render(project(S), settings(10_000), "/tmp/done.mp4".to_string()).unwrap();
    assert_eq!(m.get_progress(&id).unwrap().message, "Waiting to start");
    drive(&mut m, &id);
    let before = m.get_progress(&id).unwrap();
    m.cancel_render(&id).unwrap();
    let after = m.get_progress(&id).unwrap();
    assert_eq!(after.status, RenderStatus::Completed);
    assert_eq!(after.message, before.message);
    assert_eq!(after.output_path, Some("/tmp/done.mp4".to_string()));

    let other = m.start_render(project(S), settings(10_000), "o".to_string()).unwrap();
    m.cancel_render(&other).unwrap();
    let first = m.get_progress(&other).unwrap();
    assert_eq!(first.status, RenderStatus::Cancelled);
    assert_eq!(first.message, "Render cancelled by user");
    m.cancel_render(&other).unwrap();
    let second = m.get_progress(&other).unwrap();
    assert_eq!((second.status, second.message, second.output_path), (first.status, first.message, first.output_path));
    m.begin_render(&other).unwrap();
    assert_eq!(m.get_progress(&other).unwrap().status, RenderStatus::Cancelled);
}

#[test]
fn completion_waits_for_every_frame() {
    let mut m = RenderManager::new();
    let id = m.start_render(project(S), settings(10_000), "o".to_string()).unwrap();
    m.begin_render(&id).unwrap();
    m.frame_written(&id).unwrap();
    m.complete_render(&id).unwrap();
    let p = m.get_progress(&id).unwrap();
    assert_eq!(p.status, RenderStatus::Rendering);
    assert_eq!(p.output_path, None);
}
