//! The closed catalog of tags: effect, transition, blend-mode and track-type
//! names as they appear in a project document, and their typed variants.
use vstd::prelude::*;

use crate::model::{BlendMode, EffectKind, TrackType, TransitionKind, TransitionPosition, WipeDirection};

verus! {

#[derive(Debug, Clone, Copy, PartialEq, Eq, Structural)]
pub enum EffectCategory {
    Color,
    Blur,
    Stylize,
    Transform,
    Audio,
}

#[derive(Debug, Clone, Copy, PartialEq, Eq, Structural)]
pub enum ParameterType {
    Number,
    Boolean,
    Color,
    Select,
}

/// A named numeric parameter, in thousandths.
#[derive(Debug, Clone)]
pub struct Param {
    pub name: String,
    pub value: i64,
}

/// The value of the first parameter called `name`, or `default`.
pub open spec fn param_or(params: Seq<Param>, name: Seq<char>, default: int) -> int
    decreases params.len(),
{
    if params.len() == 0 {
        default
    } else if params[0].name@ == name {
        params[0].value as int
    } else {
        param_or(params.drop_first(), name, default)
    }
}

/// The effect a tag names, with its parameters (defaults for those not given).
pub open spec fn effect_of_tag(tag: Seq<char>, ps: Seq<Param>) -> Option<EffectKind> {
    if tag == "brightness"@ {
        Some(EffectKind::Brightness { value: param_or(ps, "value"@, 1000) as i64 })
    } else if tag == "contrast"@ {
        Some(EffectKind::Contrast { value: param_or(ps, "value"@, 1000) as i64 })
    } else if tag == "saturation"@ {
        Some(EffectKind::Saturation { value: param_or(ps, "value"@, 1000) as i64 })
    } else if tag == "hue"@ {
        Some(EffectKind::Hue { value: param_or(ps, "value"@, 0) as i64 })
    } else if tag == "blur"@ {
        Some(EffectKind::Blur { radius: param_or(ps, "radius"@, 0) as i64 })
    } else if tag == "sharpen"@ {
        Some(EffectKind::Sharpen { amount: param_or(ps, "amount"@, 0) as i64 })
    } else if tag == "vignette"@ {
        Some(
            EffectKind::Vignette {
                intensity: param_or(ps, "intensity"@, 0) as i64,
                radius: param_or(ps, "radius"@, 500) as i64,
            },
        )
    } else if tag == "grain"@ {
        Some(EffectKind::Grain { intensity: param_or(ps, "intensity"@, 0) as i64 })
    } else if tag == "gain"@ {
        Some(EffectKind::Gain { level: param_or(ps, "level"@, 1000) as i64 })
    } else {
        None
    }
}

pub open spec fn category_of(kind: EffectKind) -> EffectCategory {
    match kind {
        EffectKind::Brightness { .. } | EffectKind::Contrast { .. } | EffectKind::Saturation {
            ..
        } | EffectKind::Hue { .. } => EffectCategory::Color,
        EffectKind::Blur { .. } | EffectKind::Sharpen { .. } => EffectCategory::Blur,
        EffectKind::Vignette { .. } | EffectKind::Grain { .. } => EffectCategory::Stylize,
        EffectKind::Gain { .. } => EffectCategory::Audio,
    }
}

fn lookup(params: &Vec<Param>, name: &str, default: i64) -> (r: i64)
    ensures
        r == param_or(params@, name@, default as int),
{
    let key = name.to_owned();
    let mut i: usize = 0;
    proof {
        assert(params@.subrange(0, params.len() as int) =~= params@);
    }
    while i < params.len()
        invariant
            i <= params.len(),
            key@ == name@,
            param_or(params@.subrange(i as int, params.len() as int), name@, default as int)
                == param_or(params@, name@, default as int),
        decreases params.len() - i,
    {
        proof {
            assert(params@.subrange(i as int, params.len() as int).drop_first() =~= params@.subrange(
                i as int + 1,
                params.len() as int,
            ));
        }
        if params[i].name == key {
            return params[i].value;
        }
        i = i + 1;
    }
    proof {
        assert(params@.subrange(i as int, params.len() as int).len() == 0);
    }
    default
}

fn tag_is(tag: &String, lit: &str) -> (r: bool)
    ensures
        r == (tag@ == lit@),
{
    *tag == lit.to_owned()
}

impl EffectKind {
    /// The effect named by `tag`, with parameters taken from `params`.
    pub fn from_tag(tag: &String, params: &Vec<Param>) -> (r: Option<EffectKind>)
        ensures
            r == effect_of_tag(tag@, params@),
    {
        if tag_is(tag, "brightness") {
            Some(EffectKind::Brightness { value: lookup(params, "value", 1000) })
        } else if tag_is(tag, "contrast") {
            Some(EffectKind::Contrast { value: lookup(params, "value", 1000) })
        } else if tag_is(tag, "saturation") {
            Some(EffectKind::Saturation { value: lookup(params, "value", 1000) })
        } else if tag_is(tag, "hue") {
            Some(EffectKind::Hue { value: lookup(params, "value", 0) })
        } else if tag_is(tag, "blur") {
            Some(EffectKind::Blur { radius: lookup(params, "radius", 0) })
        } else if tag_is(tag, "sharpen") {
            Some(EffectKind::Sharpen { amount: lookup(params, "amount", 0) })
        } else if tag_is(tag, "vignette") {
            Some(
                EffectKind::Vignette {
                    intensity: lookup(params, "intensity", 0),
                    radius: lookup(params, "radius", 500),
                },
            )
        } else if tag_is(tag, "grain") {
            Some(EffectKind::Grain { intensity: lookup(params, "intensity", 0) })
        } else if tag_is(tag, "gain") {
            Some(EffectKind::Gain { level: lookup(params, "level", 1000) })
        } else {
            None
        }
    }

    /// The category an effect is listed under.
    pub fn category(&self) -> (r: EffectCategory)
        ensures
            r == category_of(*self),
    {
        match self {
            EffectKind::Brightness { .. } | EffectKind::Contrast { .. }
            | EffectKind::Saturation { .. } | EffectKind::Hue { .. } => EffectCategory::Color,
            EffectKind::Blur { .. } | EffectKind::Sharpen { .. } => EffectCategory::Blur,
            EffectKind::Vignette { .. } | EffectKind::Grain { .. } => EffectCategory::Stylize,
            EffectKind::Gain { .. } => EffectCategory::Audio,
        }
    }
}

/// The edge named by `direction`: "right", "up" or "down"; the left otherwise.
pub open spec fn direction_of(direction: Seq<char>) -> WipeDirection {
    if direction == "right"@ {
        WipeDirection::Right
    } else if direction == "up"@ {
        WipeDirection::Up
    } else if direction == "down"@ {
        WipeDirection::Down
    } else {
        WipeDirection::Left
    }
}

pub open spec fn transition_of_tag(tag: Seq<char>, direction: Seq<char>) -> Option<TransitionKind> {
    if tag == "crossfade"@ || tag == "cross-fade"@ || tag == "fade"@ {
        Some(TransitionKind::CrossFade)
    } else if tag == "wipe"@ {
        Some(TransitionKind::Wipe { direction: direction_of(direction) })
    } else if tag == "slide"@ {
        Some(TransitionKind::Slide { direction: direction_of(direction) })
    } else {
        None
    }
}

fn parse_direction(direction: &String) -> (r: WipeDirection)
    ensures
        r == direction_of(direction@),
{
    if tag_is(direction, "right") {
        WipeDirection::Right
    } else if tag_is(direction, "up") {
        WipeDirection::Up
    } else if tag_is(direction, "down") {
        WipeDirection::Down
    } else {
        WipeDirection::Left
    }
}

impl TransitionKind {
    /// The transition named by `tag`; a wipe or a slide enters from
    /// `direction` ("left", "right", "up" or "down"; from the left otherwise).
    pub fn from_tag(tag: &String, direction: &String) -> (r: Option<TransitionKind>)
        ensures
            r == transition_of_tag(tag@, direction@),
    {
        if tag_is(tag, "crossfade") || tag_is(tag, "cross-fade") || tag_is(tag, "fade") {
            Some(TransitionKind::CrossFade)
        } else if tag_is(tag, "wipe") {
            Some(TransitionKind::Wipe { direction: parse_direction(direction) })
        } else if tag_is(tag, "slide") {
            Some(TransitionKind::Slide { direction: parse_direction(direction) })
        } else {
            None
        }
    }
}

impl TransitionPosition {
    /// "start" or "end".
    pub fn from_tag(tag: &String) -> (r: Option<TransitionPosition>)
        ensures
            r == (if tag@ == "start"@ {
                Some(TransitionPosition::Start)
            } else if tag@ == "end"@ {
                Some(TransitionPosition::End)
            } else {
                None
            }),
    {
        if tag_is(tag, "start") {
            Some(TransitionPosition::Start)
        } else if tag_is(tag, "end") {
            Some(TransitionPosition::End)
        } else {
            None
        }
    }
}

impl BlendMode {
    /// "normal", "add", "multiply" or "screen".
    pub fn from_tag(tag: &String) -> (r: Option<BlendMode>)
        ensures
            r == (if tag@ == "normal"@ {
                Some(BlendMode::Normal)
            } else if tag@ == "add"@ {
                Some(BlendMode::Add)
            } else if tag@ == "multiply"@ {
                Some(BlendMode::Multiply)
            } else if tag@ == "screen"@ {
                Some(BlendMode::Screen)
            } else {
                None
            }),
    {
        if tag_is(tag, "normal") {
            Some(BlendMode::Normal)
        } else if tag_is(tag, "add") {
            Some(BlendMode::Add)
        } else if tag_is(tag, "multiply") {
            Some(BlendMode::Multiply)
        } else if tag_is(tag, "screen") {
            Some(BlendMode::Screen)
        } else {
            None
        }
    }
}

impl TrackType {
    /// "video", "image", "audio", "caption" or "effect".
    pub fn from_tag(tag: &String) -> (r: Option<TrackType>)
        ensures
            r == (if tag@ == "video"@ {
                Some(TrackType::Video)
            } else if tag@ == "image"@ {
                Some(TrackType::Image)
            } else if tag@ == "audio"@ {
                Some(TrackType::Audio)
            } else if tag@ == "caption"@ {
                Some(TrackType::Caption)
            } else if tag@ == "effect"@ {
                Some(TrackType::Effect)
            } else {
                None
            }),
    {
        if tag_is(tag, "video") {
            Some(TrackType::Video)
        } else if tag_is(tag, "image") {
            Some(TrackType::Image)
        } else if tag_is(tag, "audio") {
            Some(TrackType::Audio)
        } else if tag_is(tag, "caption") {
            Some(TrackType::Caption)
        } else if tag_is(tag, "effect") {
            Some(TrackType::Effect)
        } else {
            None
        }
    }
}

/// A parameter of an effect as the editor offers it; numbers in thousandths.
#[derive(Debug, Clone)]
pub struct EffectParameter {
    pub name: String,
    pub display_name: String,
    pub param_type: ParameterType,
    pub default_value: i64,
    pub min: Option<i64>,
    pub max: Option<i64>,
    pub step: Option<i64>,
}

/// An effect of the catalog as the editor lists it.
#[derive(Debug, Clone)]
pub struct EffectDefinition {
    pub id: String,
    pub name: String,
    pub description: String,
    pub category: EffectCategory,
    pub parameters: Vec<EffectParameter>,
}

/// The ids of the catalog, in the order it is listed.
pub open spec fn catalog_ids() -> Seq<Seq<char>> {
    seq!["brightness"@, "contrast"@, "saturation"@, "hue"@, "blur"@, "sharpen"@, "vignette"@, "grain"@, "gain"@]
}

/// A numeric parameter with a positive step and its default within its range.
pub open spec fn parameter_ok(p: EffectParameter) -> bool {
    &&& p.param_type == ParameterType::Number
    &&& p.min matches Some(lo) && p.max matches Some(hi) && lo <= p.default_value <= hi
    &&& p.step matches Some(st) && st > 0
}

/// A listed effect: its id is accepted by the tag parser, its category is the
/// parsed effect's, and each parameter is well formed and, given at its
/// default, yields the same effect as giving no parameter at all.
pub open spec fn definition_ok(d: EffectDefinition) -> bool {
    &&& effect_of_tag(d.id@, Seq::empty()) matches Some(k) && d.category == category_of(k)
    &&& d.parameters.len() >= 1
    &&& forall|j: int|
        0 <= j < d.parameters.len() ==> parameter_ok(#[trigger] d.parameters@[j]) && effect_of_tag(
            d.id@,
            seq![Param { name: d.parameters@[j].name, value: d.parameters@[j].default_value }],
        ) == effect_of_tag(d.id@, Seq::empty())
}

fn number(name: &str, display: &str, default: i64, min: i64, max: i64, step: i64) -> (r: EffectParameter)
    requires
        min <= default <= max,
        step > 0,
    ensures
        r.name@ == name@,
        r.display_name@ == display@,
        parameter_ok(r),
        r.default_value == default,
{
    EffectParameter {
        name: name.to_owned(),
        display_name: display.to_owned(),
        param_type: ParameterType::Number,
        default_value: default,
        min: Some(min),
        max: Some(max),
        step: Some(step),
    }
}

/// The parameter `p` given at its default does not change what `id` parses to.
pub open spec fn default_agrees(id: Seq<char>, p: EffectParameter) -> bool {
    effect_of_tag(id, seq![Param { name: p.name, value: p.default_value }]) == effect_of_tag(
        id,
        Seq::empty(),
    )
}

pub open spec fn id_ok(id: Seq<char>, category: EffectCategory) -> bool {
    effect_of_tag(id, Seq::empty()) matches Some(k) && category == category_of(k)
}

fn one(id: &str, name: &str, description: &str, category: EffectCategory, p: EffectParameter) -> (r: EffectDefinition)
    requires
        id_ok(id@, category),
        parameter_ok(p),
        default_agrees(id@, p),
    ensures
        r.id@ == id@,
        definition_ok(r),
{
    let mut parameters: Vec<EffectParameter> = Vec::new();
    parameters.push(p);
    EffectDefinition {
        id: id.to_owned(),
        name: name.to_owned(),
        description: description.to_owned(),
        category,
        parameters,
    }
}

fn two(
    id: &str,
    name: &str,
    description: &str,
    category: EffectCategory,
    p: EffectParameter,
    q: EffectParameter,
) -> (r: EffectDefinition)
    requires
        id_ok(id@, category),
        parameter_ok(p),
        parameter_ok(q),
        default_agrees(id@, p),
        default_agrees(id@, q),
    ensures
        r.id@ == id@,
        definition_ok(r),
{
    let mut parameters: Vec<EffectParameter> = Vec::new();
    parameters.push(p);
    parameters.push(q);
    EffectDefinition {
        id: id.to_owned(),
        name: name.to_owned(),
        description: description.to_owned(),
        category,
        parameters,
    }
}

proof fn lemma_differ(a: Seq<char>, b: Seq<char>)
    requires
        a.len() != b.len() || a[0] != b[0],
    ensures
        a != b,
{
}

/// The catalog's tags, and its parameter names, are distinct from one another.
proof fn lemma_catalog_names_distinct()
    ensures
        "contrast"@ != "brightness"@,
        "saturation"@ != "brightness"@,
        "saturation"@ != "contrast"@,
        "hue"@ != "brightness"@,
        "hue"@ != "contrast"@,
        "hue"@ != "saturation"@,
        "blur"@ != "brightness"@,
        "blur"@ != "contrast"@,
        "blur"@ != "saturation"@,
        "blur"@ != "hue"@,
        "sharpen"@ != "brightness"@,
        "sharpen"@ != "contrast"@,
        "sharpen"@ != "saturation"@,
        "sharpen"@ != "hue"@,
        "sharpen"@ != "blur"@,
        "vignette"@ != "brightness"@,
        "vignette"@ != "contrast"@,
        "vignette"@ != "saturation"@,
        "vignette"@ != "hue"@,
        "vignette"@ != "blur"@,
        "vignette"@ != "sharpen"@,
        "grain"@ != "brightness"@,
        "grain"@ != "contrast"@,
        "grain"@ != "saturation"@,
        "grain"@ != "hue"@,
        "grain"@ != "blur"@,
        "grain"@ != "sharpen"@,
        "grain"@ != "vignette"@,
        "gain"@ != "brightness"@,
        "gain"@ != "contrast"@,
        "gain"@ != "saturation"@,
        "gain"@ != "hue"@,
        "gain"@ != "blur"@,
        "gain"@ != "sharpen"@,
        "gain"@ != "vignette"@,
        "gain"@ != "grain"@,
        "radius"@ != "value"@,
        "amount"@ != "value"@,
        "amount"@ != "radius"@,
        "intensity"@ != "value"@,
        "intensity"@ != "radius"@,
        "intensity"@ != "amount"@,
        "level"@ != "value"@,
        "level"@ != "radius"@,
        "level"@ != "amount"@,
        "level"@ != "intensity"@,
{
    reveal_strlit("brightness");
    reveal_strlit("contrast");
    reveal_strlit("saturation");
    reveal_strlit("hue");
    reveal_strlit("blur");
    reveal_strlit("sharpen");
    reveal_strlit("vignette");
    reveal_strlit("grain");
    reveal_strlit("gain");
    reveal_strlit("value");
    reveal_strlit("radius");
    reveal_strlit("amount");
    reveal_strlit("intensity");
    reveal_strlit("level");
    lemma_differ("contrast"@, "brightness"@);
    lemma_differ("saturation"@, "brightness"@);
    lemma_differ("saturation"@, "contrast"@);
    lemma_differ("hue"@, "brightness"@);
    lemma_differ("hue"@, "contrast"@);
    lemma_differ("hue"@, "saturation"@);
    lemma_differ("blur"@, "brightness"@);
    lemma_differ("blur"@, "contrast"@);
    lemma_differ("blur"@, "saturation"@);
    lemma_differ("blur"@, "hue"@);
    lemma_differ("sharpen"@, "brightness"@);
    lemma_differ("sharpen"@, "contrast"@);
    lemma_differ("sharpen"@, "saturation"@);
    lemma_differ("sharpen"@, "hue"@);
    lemma_differ("sharpen"@, "blur"@);
    lemma_differ("vignette"@, "brightness"@);
    lemma_differ("vignette"@, "contrast"@);
    lemma_differ("vignette"@, "saturation"@);
    lemma_differ("vignette"@, "hue"@);
    lemma_differ("vignette"@, "blur"@);
    lemma_differ("vignette"@, "sharpen"@);
    lemma_differ("grain"@, "brightness"@);
    lemma_differ("grain"@, "contrast"@);
    lemma_differ("grain"@, "saturation"@);
    lemma_differ("grain"@, "hue"@);
    lemma_differ("grain"@, "blur"@);
    lemma_differ("grain"@, "sharpen"@);
    lemma_differ("grain"@, "vignette"@);
    lemma_differ("gain"@, "brightness"@);
    lemma_differ("gain"@, "contrast"@);
    lemma_differ("gain"@, "saturation"@);
    lemma_differ("gain"@, "hue"@);
    lemma_differ("gain"@, "blur"@);
    lemma_differ("gain"@, "sharpen"@);
    lemma_differ("gain"@, "vignette"@);
    lemma_differ("gain"@, "grain"@);
    lemma_differ("radius"@, "value"@);
    lemma_differ("amount"@, "value"@);
    lemma_differ("amount"@, "radius"@);
    lemma_differ("intensity"@, "value"@);
    lemma_differ("intensity"@, "radius"@);
    lemma_differ("intensity"@, "amount"@);
    lemma_differ("level"@, "value"@);
    lemma_differ("level"@, "radius"@);
    lemma_differ("level"@, "amount"@);
    lemma_differ("level"@, "intensity"@);
}

/// The catalog of effects, in the order of `catalog_ids`.
pub fn get_available_effects() -> (r: Vec<EffectDefinition>)
    ensures
        r.len() == catalog_ids().len(),
        forall|k: int| 0 <= k < r.len() ==> (#[trigger] r@[k]).id@ == catalog_ids()[k] && definition_ok(r@[k]),
{
    proof {
        lemma_catalog_names_distinct();
        reveal_with_fuel(param_or, 2);
    }
    let d0 = one(
        "brightness",
        "Brightness",
        "Adjust the overall brightness of the image",
        EffectCategory::Color,
        number("value", "Brightness", 1000, 0, 2000, 10),
    );
    let d1 = one(
        "contrast",
        "Contrast",
        "Adjust the contrast level",
        EffectCategory::Color,
        number("value", "Contrast", 1000, 0, 2000, 10),
    );
    let d2 = one(
        "saturation",
        "Saturation",
        "Adjust color saturation",
        EffectCategory::Color,
        number("value", "Saturation", 1000, 0, 2000, 10),
    );
    let d3 = one(
        "hue",
        "Hue Rotation",
        "Rotate the color hue",
        EffectCategory::Color,
        number("value", "Hue", 0, -180000, 180000, 1000),
    );
    let d4 = one(
        "blur",
        "Gaussian Blur",
        "Apply gaussian blur",
        EffectCategory::Blur,
        number("radius", "Radius", 0, 0, 50000, 100),
    );
    let d5 = one(
        "sharpen",
        "Sharpen",
        "Sharpen the image",
        EffectCategory::Blur,
        number("amount", "Amount", 0, 0, 2000, 10),
    );
    let d6 = two(
        "vignette",
        "Vignette",
        "Add a vignette effect",
        EffectCategory::Stylize,
        number("intensity", "Intensity", 0, 0, 1000, 10),
        number("radius", "Radius", 500, 100, 1000, 10),
    );
    let d7 = one(
        "grain",
        "Film Grain",
        "Add film grain noise",
        EffectCategory::Stylize,
        number("intensity", "Intensity", 0, 0, 1000, 10),
    );
    let d8 = one(
        "gain",
        "Gain",
        "Adjust the audio level",
        EffectCategory::Audio,
        number("level", "Level", 1000, 0, 4000, 10),
    );
    let mut r: Vec<EffectDefinition> = Vec::new();
    r.push(d0);
    r.push(d1);
    r.push(d2);
    r.push(d3);
    r.push(d4);
    r.push(d5);
    r.push(d6);
    r.push(d7);
    r.push(d8);
    proof {
        assert(r@ =~= seq![d0, d1, d2, d3, d4, d5, d6, d7, d8]);
    }
    r
}

} // verus!
