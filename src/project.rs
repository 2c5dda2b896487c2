//! Projects: creation, default settings, and the validation pass that a
//! composition goes through before it is rendered.
use vstd::prelude::*;

use crate::compositor::{color_of, parse_color, Rgba};
use crate::error::Error;
use crate::keyframe::keyframes_sorted;
use crate::model::{
    AssetLibrary, Composition, DurationSetting, Keyframe, KeyframeGroup, Project,
    ProjectSettings, Resolution, Track, TrackItem, TransitionPosition,
};
use crate::timeline::{boundary_transition, item_end};

verus! {

/// A non-fatal finding of validation.
#[derive(Debug, Clone, Copy, PartialEq, Eq, Structural)]
pub enum ValidationWarning {
    /// The item refers to an asset that the library does not hold.
    MissingAsset { track: usize, item: usize },
    /// The item starts before the previous item of its track ends, and no
    /// transition bridges the two.
    Overlap { track: usize, item: usize },
}

/// Keyframes in strictly increasing time, checked pair by pair.
pub open spec fn keyframes_in_order(kfs: Seq<Keyframe>) -> bool {
    forall|i: int| 0 <= i < kfs.len() - 1 ==> #[trigger] kfs[i].time < kfs[i + 1].time
}

pub open spec fn groups_in_order(groups: Seq<KeyframeGroup>) -> bool {
    forall|g: int| 0 <= g < groups.len() ==> keyframes_in_order(#[trigger] groups[g].keyframes@)
}

pub open spec fn item_in_order(item: TrackItem) -> bool {
    &&& groups_in_order(item.keyframes@)
    &&& forall|e: int| 0 <= e < item.effects.len() ==> groups_in_order(#[trigger] item.effects@[e].keyframes@)
}

/// Items sorted by start time, and all their keyframes in order.
pub open spec fn track_in_order(tr: Track) -> bool {
    &&& forall|i: int| 0 <= i < tr.items.len() - 1 ==> #[trigger] tr.items@[i].start_time <= tr.items@[i + 1].start_time
    &&& forall|i: int| 0 <= i < tr.items.len() ==> item_in_order(#[trigger] tr.items@[i])
}

/// What resolution needs: every track in order.
pub open spec fn composition_in_order(c: Composition) -> bool {
    forall|k: int| 0 <= k < c.tracks.len() ==> track_in_order(#[trigger] c.tracks@[k])
}

pub open spec fn asset_known(assets: AssetLibrary, id: Seq<char>) -> bool {
    ||| exists|i: int| 0 <= i < assets.images.len() && #[trigger] assets.images@[i].id@ == id
    ||| exists|i: int| 0 <= i < assets.audio.len() && #[trigger] assets.audio@[i].id@ == id
    ||| exists|i: int| 0 <= i < assets.video.len() && #[trigger] assets.video@[i].id@ == id
}

/// Missing-asset warnings for the first `n` items of track `k`.
pub open spec fn track_missing(items: Seq<TrackItem>, assets: AssetLibrary, k: int, n: int) -> Seq<ValidationWarning>
    decreases n,
{
    if n <= 0 {
        Seq::empty()
    } else {
        let prev = track_missing(items, assets, k, n - 1);
        if asset_known(assets, items[n - 1].asset_id@) {
            prev
        } else {
            prev.push(ValidationWarning::MissingAsset { track: k as usize, item: (n - 1) as usize })
        }
    }
}

pub open spec fn missing_warnings(tracks: Seq<Track>, assets: AssetLibrary, k: int) -> Seq<ValidationWarning>
    decreases k,
{
    if k <= 0 {
        Seq::empty()
    } else {
        missing_warnings(tracks, assets, k - 1) + track_missing(
            tracks[k - 1].items@,
            assets,
            k - 1,
            tracks[k - 1].items.len() as int,
        )
    }
}

pub open spec fn bridged(a: TrackItem, b: TrackItem) -> bool {
    boundary_transition(a, TransitionPosition::End) is Some || boundary_transition(
        b,
        TransitionPosition::Start,
    ) is Some
}

/// Overlap warnings for the first `n` items of track `k`.
pub open spec fn track_overlaps(items: Seq<TrackItem>, k: int, n: int) -> Seq<ValidationWarning>
    decreases n,
{
    if n <= 0 {
        Seq::empty()
    } else {
        let prev = track_overlaps(items, k, n - 1);
        let a = items[n - 2];
        let b = items[n - 1];
        if n >= 2 && item_end(a) > b.start_time && !bridged(a, b) {
            prev.push(ValidationWarning::Overlap { track: k as usize, item: (n - 1) as usize })
        } else {
            prev
        }
    }
}

pub open spec fn overlap_warnings(tracks: Seq<Track>, k: int) -> Seq<ValidationWarning>
    decreases k,
{
    if k <= 0 {
        Seq::empty()
    } else {
        overlap_warnings(tracks, k - 1) + track_overlaps(
            tracks[k - 1].items@,
            k - 1,
            tracks[k - 1].items.len() as int,
        )
    }
}

/// Validation: a hard failure when resolution would be ill-defined, else the
/// missing-asset warnings followed by the overlap warnings.
pub open spec fn validate_spec(p: Project) -> Option<Seq<ValidationWarning>> {
    let tracks = p.composition.tracks@;
    if !composition_in_order(p.composition) {
        None
    } else {
        Some(
            missing_warnings(tracks, p.assets, tracks.len() as int) + overlap_warnings(
                tracks,
                tracks.len() as int,
            ),
        )
    }
}

/// Keyframes checked pair by pair are sorted as a whole.
pub proof fn lemma_in_order_sorted(kfs: Seq<Keyframe>)
    requires
        keyframes_in_order(kfs),
    ensures
        keyframes_sorted(kfs),
{
    assert forall|i: int, j: int| 0 <= i < j < kfs.len() implies kfs[i].time < kfs[j].time by {
        lemma_in_order_step(kfs, i, j);
    }
}

proof fn lemma_in_order_step(kfs: Seq<Keyframe>, i: int, j: int)
    requires
        keyframes_in_order(kfs),
        0 <= i < j < kfs.len(),
    ensures
        kfs[i].time < kfs[j].time,
    decreases j - i,
{
    if j > i + 1 {
        lemma_in_order_step(kfs, i, j - 1);
        assert(kfs[j - 1].time < kfs[j].time);
    }
}

/// Relies on `chrono::Utc::now` and `DateTime::timestamp_millis`: the current
/// time in milliseconds since the Unix epoch. Nothing is known of its value.
#[verifier::external_body]
fn now_millis() -> (r: i64) {
    chrono::Utc::now().timestamp_millis()
}

pub struct ProjectManager;

impl ProjectSettings {
    /// 1920 by 1080 at 30 frames per second, black background, automatic length.
    pub fn default_settings() -> (r: ProjectSettings)
        ensures
            r.resolution == (Resolution { width: 1920, height: 1080 }),
            r.frame_rate == 30_000,
            r.background_color@ == "#000000"@,
            r.duration matches DurationSetting::Auto(s) && s@ == "auto"@,
    {
        ProjectSettings {
            resolution: Resolution { width: 1920, height: 1080 },
            frame_rate: 30_000,
            background_color: String::from_str("#000000"),
            duration: DurationSetting::Auto(String::from_str("auto")),
        }
    }
}

impl ProjectSettings {
    /// The background colour: `background_color` when it reads `#rrggbb`, opaque black otherwise.
    pub fn background(&self) -> (r: Rgba)
        ensures
            r == match color_of(self.background_color@) {
                Some(c) => c,
                None => Rgba { r: 0, g: 0, b: 0, a: 255 },
            },
    {
        match parse_color(self.background_color.as_str()) {
            Some(c) => c,
            None => Rgba { r: 0, g: 0, b: 0, a: 255 },
        }
    }
}

impl Default for ProjectSettings {
    fn default() -> (r: ProjectSettings)
        ensures
            r.resolution == (Resolution { width: 1920, height: 1080 }),
            r.frame_rate == 30_000,
            r.background_color@ == "#000000"@,
            r.duration matches DurationSetting::Auto(s) && s@ == "auto"@,
    {
        ProjectSettings::default_settings()
    }
}

impl ProjectManager {
    /// A new, empty project named `name`, with default settings, a fresh id,
    /// version "1.0.0", and both timestamps set to now.
    pub fn create(name: String, path: Option<String>) -> (r: Project)
        ensures
            r.name == name,
            r.file_path == path,
            crate::model::uuid_form(r.id@),
            r.version@ == "1.0.0"@,
            r.created_at == r.updated_at,
            r.composition.tracks@.len() == 0,
            r.composition.markers@.len() == 0,
            r.assets.images@.len() == 0 && r.assets.audio@.len() == 0 && r.assets.video@.len()
                == 0 && r.assets.captions@.len() == 0 && r.assets.fonts@.len() == 0,
            r.settings.frame_rate == 30_000,
            r.settings.resolution == (Resolution { width: 1920, height: 1080 }),
            r.settings.background_color@ == "#000000"@,
            r.settings.duration matches DurationSetting::Auto(s) && s@ == "auto"@,
    {
        let now = now_millis();
        Project {
            id: crate::model::new_uuid(),
            name,
            version: String::from_str("1.0.0"),
            created_at: now,
            updated_at: now,
            settings: ProjectSettings::default_settings(),
            assets: AssetLibrary {
                images: Vec::new(),
                audio: Vec::new(),
                video: Vec::new(),
                captions: Vec::new(),
                fonts: Vec::new(),
            },
            composition: Composition { tracks: Vec::new(), markers: Vec::new() },
            file_path: path,
        }
    }

    /// Validates a project (see `validate_spec`): `InvalidComposition` when a
    /// track's items are not sorted by start time or keyframes are out of
    /// order; otherwise the warnings to show.
    pub fn validate(project: &Project) -> (r: Result<Vec<ValidationWarning>, Error>)
        ensures
            match validate_spec(*project) {
                None => r matches Err(Error::InvalidComposition(_)),
                Some(ws) => r matches Ok(v) && v@ == ws,
            },
    {
        if !composition_ordered(&project.composition) {
            return Err(Error::InvalidComposition(String::from_str("items or keyframes are out of order")));
        }
        let tracks = &project.composition.tracks;
        let mut out: Vec<ValidationWarning> = Vec::new();
        let mut k: usize = 0;
        while k < tracks.len()
            invariant
                k <= tracks.len(),
                out@ == missing_warnings(tracks@, project.assets, k as int),
            decreases tracks.len() - k,
        {
            let items = &tracks[k].items;
            let ghost before = out@;
            let mut i: usize = 0;
            while i < items.len()
                invariant
                    k < tracks.len(),
                    items == tracks[k as int].items,
                    i <= items.len(),
                    out@ == before + track_missing(items@, project.assets, k as int, i as int),
                decreases items.len() - i,
            {
                if !has_asset(&project.assets, &items[i].asset_id) {
                    out.push(ValidationWarning::MissingAsset { track: k, item: i });
                }
                i = i + 1;
            }
            k = k + 1;
        }
        let mut k: usize = 0;
        let ghost missing = out@;
        while k < tracks.len()
            invariant
                k <= tracks.len(),
                out@ == missing + overlap_warnings(tracks@, k as int),
            decreases tracks.len() - k,
        {
            let items = &tracks[k].items;
            let ghost before = out@;
            let mut i: usize = 0;
            while i < items.len()
                invariant
                    k < tracks.len(),
                    items == tracks[k as int].items,
                    i <= items.len(),
                    out@ == before + track_overlaps(items@, k as int, i as int),
                decreases items.len() - i,
            {
                if i >= 1 {
                    let a = &items[i - 1];
                    let b = &items[i];
                    if a.start_time as u128 + a.duration as u128 > b.start_time as u128 && !is_bridged(a, b) {
                        out.push(ValidationWarning::Overlap { track: k, item: i });
                    }
                }
                i = i + 1;
            }
            proof {
                assert(missing + overlap_warnings(tracks@, k as int + 1) =~= before
                    + track_overlaps(items@, k as int, items.len() as int));
            }
            k = k + 1;
        }
        Ok(out)
    }
}

fn is_bridged(a: &TrackItem, b: &TrackItem) -> (r: bool)
    ensures
        r == bridged(*a, *b),
{
    let mut j: usize = 0;
    while j < a.transitions.len()
        invariant
            j <= a.transitions.len(),
            crate::timeline::boundary_transition_from(*a, TransitionPosition::End, j as int)
                == boundary_transition(*a, TransitionPosition::End),
        decreases a.transitions.len() - j,
    {
        if a.transitions[j].position == TransitionPosition::End && a.transitions[j].duration > 0 {
            return true;
        }
        j = j + 1;
    }
    let mut j: usize = 0;
    while j < b.transitions.len()
        invariant
            j <= b.transitions.len(),
            boundary_transition(*a, TransitionPosition::End) is None,
            crate::timeline::boundary_transition_from(*b, TransitionPosition::Start, j as int)
                == boundary_transition(*b, TransitionPosition::Start),
        decreases b.transitions.len() - j,
    {
        if b.transitions[j].position == TransitionPosition::Start && b.transitions[j].duration > 0 {
            return true;
        }
        j = j + 1;
    }
    false
}

fn has_asset(assets: &AssetLibrary, id: &String) -> (r: bool)
    ensures
        r == asset_known(*assets, id@),
{
    let mut i: usize = 0;
    while i < assets.images.len()
        invariant
            i <= assets.images.len(),
            forall|j: int| 0 <= j < i ==> assets.images@[j].id@ != id@,
        decreases assets.images.len() - i,
    {
        if assets.images[i].id == *id {
            return true;
        }
        i = i + 1;
    }
    let mut i: usize = 0;
    while i < assets.audio.len()
        invariant
            i <= assets.audio.len(),
            forall|j: int| 0 <= j < assets.images.len() ==> assets.images@[j].id@ != id@,
            forall|j: int| 0 <= j < i ==> assets.audio@[j].id@ != id@,
        decreases assets.audio.len() - i,
    {
        if assets.audio[i].id == *id {
            return true;
        }
        i = i + 1;
    }
    let mut i: usize = 0;
    while i < assets.video.len()
        invariant
            i <= assets.video.len(),
            forall|j: int| 0 <= j < assets.images.len() ==> assets.images@[j].id@ != id@,
            forall|j: int| 0 <= j < assets.audio.len() ==> assets.audio@[j].id@ != id@,
            forall|j: int| 0 <= j < i ==> assets.video@[j].id@ != id@,
        decreases assets.video.len() - i,
    {
        if assets.video[i].id == *id {
            return true;
        }
        i = i + 1;
    }
    false
}

fn keyframes_ordered(kfs: &Vec<Keyframe>) -> (r: bool)
    ensures
        r == keyframes_in_order(kfs@),
{
    let mut i: usize = 1;
    while i < kfs.len()
        invariant
            1 <= i,
            forall|j: int| 0 <= j < i - 1 && j < kfs.len() - 1 ==> #[trigger] kfs@[j].time < kfs@[j + 1].time,
        decreases kfs.len() - i,
    {
        if kfs[i - 1].time >= kfs[i].time {
            return false;
        }
        i = i + 1;
    }
    true
}

fn groups_ordered(groups: &Vec<KeyframeGroup>) -> (r: bool)
    ensures
        r == groups_in_order(groups@),
{
    let mut g: usize = 0;
    while g < groups.len()
        invariant
            g <= groups.len(),
            forall|j: int| 0 <= j < g ==> keyframes_in_order(#[trigger] groups@[j].keyframes@),
        decreases groups.len() - g,
    {
        if !keyframes_ordered(&groups[g].keyframes) {
            return false;
        }
        g = g + 1;
    }
    true
}

fn item_ordered(item: &TrackItem) -> (r: bool)
    ensures
        r == item_in_order(*item),
{
    if !groups_ordered(&item.keyframes) {
        return false;
    }
    let mut e: usize = 0;
    while e < item.effects.len()
        invariant
            e <= item.effects.len(),
            groups_in_order(item.keyframes@),
            forall|j: int| 0 <= j < e ==> groups_in_order(#[trigger] item.effects@[j].keyframes@),
        decreases item.effects.len() - e,
    {
        if !groups_ordered(&item.effects[e].keyframes) {
            return false;
        }
        e = e + 1;
    }
    true
}

fn track_ordered(tr: &Track) -> (r: bool)
    ensures
        r == track_in_order(*tr),
{
    let mut i: usize = 0;
    while i < tr.items.len()
        invariant
            i <= tr.items.len(),
            forall|j: int| 0 <= j < i && j < tr.items.len() - 1 ==> #[trigger] tr.items@[j].start_time <= tr.items@[j + 1].start_time,
            forall|j: int| 0 <= j < i ==> item_in_order(#[trigger] tr.items@[j]),
        decreases tr.items.len() - i,
    {
        if !item_ordered(&tr.items[i]) {
            return false;
        }
        if i + 1 < tr.items.len() && tr.items[i].start_time > tr.items[i + 1].start_time {
            return false;
        }
        i = i + 1;
    }
    true
}

fn composition_ordered(c: &Composition) -> (r: bool)
    ensures
        r == composition_in_order(*c),
{
    let mut k: usize = 0;
    while k < c.tracks.len()
        invariant
            k <= c.tracks.len(),
            forall|j: int| 0 <= j < k ==> track_in_order(#[trigger] c.tracks@[j]),
        decreases c.tracks.len() - k,
    {
        if !track_ordered(&c.tracks[k]) {
            return false;
        }
        k = k + 1;
    }
    true
}

} // verus!
