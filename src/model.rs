//! The composition data model: a project, its timeline of tracks and items,
//! and the keyframed properties of those items.
//!
//! Times are whole microseconds. Scalar properties (opacity, scale, position,
//! effect parameters) are fixed-point numbers in thousandths, so that
//! `UNIT` stands for 1.0.
use vstd::prelude::*;

verus! {

/// Fixed-point one for scalar properties.
pub const UNIT: i64 = 1000;

/// A lowercase hexadecimal digit.
pub open spec fn lower_hex(c: char) -> bool {
    let n = c as u32;
    (48 <= n <= 57) || (97 <= n <= 102)
}

/// The hyphenated form of a UUID: 36 characters, hyphens at 8, 13, 18 and 23,
/// lowercase hexadecimal digits elsewhere.
pub open spec fn uuid_form(s: Seq<char>) -> bool {
    &&& s.len() == 36
    &&& forall|i: int|
        0 <= i < 36 ==> if i == 8 || i == 13 || i == 18 || i == 23 {
            #[trigger] s[i] == '-'
        } else {
            lower_hex(s[i])
        }
}

/// Relies on `uuid::Uuid::new_v4` and the `Display` of `Uuid`, which writes
/// the hyphenated lowercase form: a fresh random id. Two calls may give any ids.
#[verifier::external_body]
pub(crate) fn new_uuid() -> (r: String)
    ensures
        uuid_form(r@),
{
    uuid::Uuid::new_v4().to_string()
}

/// A project document: metadata, settings, assets and the composition.
#[derive(Debug, Clone)]
pub struct Project {
    pub id: String,
    pub name: String,
    pub version: String,
    /// Milliseconds since the Unix epoch.
    pub created_at: i64,
    /// Milliseconds since the Unix epoch.
    pub updated_at: i64,
    pub settings: ProjectSettings,
    pub assets: AssetLibrary,
    pub composition: Composition,
    pub file_path: Option<String>,
}

#[derive(Debug, Clone)]
pub struct ProjectSettings {
    pub resolution: Resolution,
    /// Frames per second, in thousandths.
    pub frame_rate: u32,
    pub background_color: String,
    pub duration: DurationSetting,
}

#[derive(Debug, Clone, Copy, PartialEq, Eq, Structural)]
pub struct Resolution {
    pub width: u32,
    pub height: u32,
}

#[derive(Debug, Clone)]
pub enum DurationSetting {
    Auto(String),
    /// A fixed length in microseconds.
    Fixed(u64),
}

#[derive(Debug, Clone)]
pub struct AssetLibrary {
    pub images: Vec<ImageAsset>,
    pub audio: Vec<AudioAsset>,
    pub video: Vec<VideoAsset>,
    pub captions: Vec<CaptionSource>,
    pub fonts: Vec<FontAsset>,
}

#[derive(Debug, Clone)]
pub struct ImageAsset {
    pub id: String,
    pub name: String,
    pub path: String,
    pub width: u32,
    pub height: u32,
    pub format: String,
    pub size: u64,
}

#[derive(Debug, Clone)]
pub struct AudioAsset {
    pub id: String,
    pub name: String,
    pub path: String,
    /// Microseconds.
    pub duration: u64,
    pub sample_rate: u32,
    pub channels: u32,
    pub format: String,
    pub size: u64,
}

#[derive(Debug, Clone)]
pub struct VideoAsset {
    pub id: String,
    pub name: String,
    pub path: String,
    /// Microseconds.
    pub duration: u64,
    pub width: u32,
    pub height: u32,
    /// Frames per second, in thousandths.
    pub frame_rate: u32,
    pub codec: String,
    pub format: String,
    pub size: u64,
}

#[derive(Debug, Clone)]
pub struct CaptionSource {
    pub id: String,
    pub name: String,
    pub path: String,
    pub format: String,
    pub language: Option<String>,
}

#[derive(Debug, Clone)]
pub struct FontAsset {
    pub id: String,
    pub name: String,
    pub path: String,
    pub family: String,
    pub style: String,
    pub weight: u32,
}

/// The timeline: tracks in render order (the first is topmost) and markers.
#[derive(Debug, Clone)]
pub struct Composition {
    pub tracks: Vec<Track>,
    pub markers: Vec<Marker>,
}

#[derive(Debug, Clone)]
pub struct Track {
    pub id: String,
    pub name: String,
    pub track_type: TrackType,
    /// Items sorted by start time.
    pub items: Vec<TrackItem>,
    pub is_visible: bool,
    pub is_muted: bool,
    pub is_locked: bool,
    /// Thousandths, in `0..=UNIT`.
    pub opacity: i64,
    pub blend_mode: BlendMode,
}

#[derive(Debug, Clone, Copy, PartialEq, Eq, Structural)]
pub enum TrackType {
    Video,
    Image,
    Audio,
    Caption,
    Effect,
}

/// How a layer is painted over what lies beneath it.
#[derive(Debug, Clone, Copy, PartialEq, Eq, Structural)]
pub enum BlendMode {
    Normal,
    Add,
    Multiply,
    Screen,
}

/// One placed instance of an asset on a track.
#[derive(Debug, Clone)]
pub struct TrackItem {
    pub id: String,
    pub asset_id: String,
    /// Microseconds from the start of the timeline.
    pub start_time: u64,
    /// Microseconds.
    pub duration: u64,
    /// Microseconds into the source media.
    pub in_point: u64,
    /// Microseconds into the source media.
    pub out_point: u64,
    pub transform: Transform,
    pub effects: Vec<Effect>,
    pub transitions: Vec<Transition>,
    pub keyframes: Vec<KeyframeGroup>,
}

/// Placement of an item's frame on the output, all in thousandths.
#[derive(Debug, Clone, Copy, PartialEq, Eq, Structural)]
pub struct Transform {
    /// Thousandths of a pixel.
    pub position: Position,
    /// Thousandths: `UNIT` keeps the source size.
    pub scale: Scale,
    /// Thousandths of a degree.
    pub rotation: i64,
    /// Thousandths of a pixel.
    pub anchor: Position,
    /// Thousandths, in `0..=UNIT`.
    pub opacity: i64,
}

#[derive(Debug, Clone, Copy, PartialEq, Eq, Structural)]
pub struct Position {
    pub x: i64,
    pub y: i64,
}

#[derive(Debug, Clone, Copy, PartialEq, Eq, Structural)]
pub struct Scale {
    pub x: i64,
    pub y: i64,
}

/// An image or audio operation applied to an item, with its parameters.
#[derive(Debug, Clone)]
pub struct Effect {
    pub id: String,
    pub kind: EffectKind,
    pub enabled: bool,
    pub keyframes: Vec<KeyframeGroup>,
}

/// The catalog of effects; every parameter is in thousandths.
#[derive(Debug, Clone, Copy, PartialEq, Eq, Structural)]
pub enum EffectKind {
    Brightness { value: i64 },
    Contrast { value: i64 },
    Saturation { value: i64 },
    Hue { value: i64 },
    Blur { radius: i64 },
    Sharpen { amount: i64 },
    Vignette { intensity: i64, radius: i64 },
    Grain { intensity: i64 },
    Gain { level: i64 },
}

#[derive(Debug, Clone)]
pub struct Transition {
    pub id: String,
    pub kind: TransitionKind,
    /// Microseconds.
    pub duration: u64,
    pub position: TransitionPosition,
    pub easing: Easing,
}

#[derive(Debug, Clone, Copy, PartialEq, Eq, Structural)]
pub enum TransitionKind {
    CrossFade,
    Wipe { direction: WipeDirection },
    Slide { direction: WipeDirection },
}

/// The edge that the incoming frame enters from (in a wipe or a slide).
#[derive(Debug, Clone, Copy, PartialEq, Eq, Structural)]
pub enum WipeDirection {
    Left,
    Right,
    Up,
    Down,
}

/// Which boundary of its item a transition belongs to.
#[derive(Debug, Clone, Copy, PartialEq, Eq, Structural)]
pub enum TransitionPosition {
    Start,
    End,
}

#[derive(Debug, Clone, Copy, PartialEq, Eq, Structural)]
pub enum Easing {
    Linear,
    EaseIn,
    EaseOut,
    EaseInOut,
    Step,
}

/// The keyframes of one animated property, sorted by time.
#[derive(Debug, Clone)]
pub struct KeyframeGroup {
    pub property: String,
    pub keyframes: Vec<Keyframe>,
}

#[derive(Debug, Clone)]
pub struct Keyframe {
    pub id: String,
    /// Microseconds, relative to the start of the item.
    pub time: u64,
    pub value: ParamValue,
    pub easing: Easing,
}

/// The value of an animated property.
#[derive(Debug, Clone, PartialEq, Eq)]
pub enum ParamValue {
    Number(i64),
    Vector(Vec<i64>),
    Flag(bool),
    Choice(String),
}

#[derive(Debug, Clone)]
pub struct Marker {
    pub id: String,
    /// Microseconds.
    pub time: u64,
    pub label: String,
    pub color: String,
    pub marker_type: String,
}

} // verus!
