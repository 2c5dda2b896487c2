use waldiez_player::keyframe::{ease, evaluate, lerp, PROGRESS_ONE};
use waldiez_player::model::{Easing, Keyframe, KeyframeGroup, ParamValue};

fn kf(time: u64, value: ParamValue, easing: Easing) -> Keyframe {
    Keyframe { id: format!("k{}", time), time, value, easing }
}

fn group(kfs: Vec<Keyframe>) -> KeyframeGroup {
    KeyframeGroup { property: "opacity".to_string(), keyframes: kfs }
}

#[test]
fn exact_hit_returns_keyframe_value() {
    let g = group(vec![
        kf(0, ParamValue::Number(10), Easing::Linear),
        kf(1_000, ParamValue::Number(50), Easing::EaseIn),
        kf(3_000, ParamValue::Number(-20), Easing::EaseOut),
    ]);
    assert_eq!(evaluate(&g, 0), Some(ParamValue::Number(10)));
    assert_eq!(evaluate(&g, 1_000), Some(ParamValue::Number(50)));
    assert_eq!(evaluate(&g, 3_000), Some(ParamValue::Number(-20)));
}

#[test]
fn linear_midpoint_is_mean() {
    let g = group(vec![
        kf(0, ParamValue::Number(100), Easing::Linear),
        kf(2_000_000, ParamValue::Number(300), Easing::Linear),
    ]);
    assert_eq!(evaluate(&g, 1_000_000), Some(ParamValue::Number(200)));
    let g = group(vec![
        kf(10, ParamValue::Number(-7), Easing::Linear),
        kf(20, ParamValue::Number(4), Easing::Linear),
    ]);
    // (-7 + 4) / 2 rounded down
    assert_eq!(evaluate(&g, 15), Some(ParamValue::Number(-2)));
}

#[test]
fn single_keyframe_is_constant_and_empty_group_has_no_value() {
    let g = group(vec![kf(500, ParamValue::Number(42), Easing::Step)]);
    for t in [0u64, 499, 500, 501, 1_000_000] {
        assert_eq!(evaluate(&g, t), Some(ParamValue::Number(42)));
    }
    let empty = group(vec![]);
    assert_eq!(evaluate(&empty, 0), None);
}

#[test]
fn values_clamp_outside_the_keyframes() {
    let g = group(vec![
        kf(100, ParamValue::Number(1), Easing::Linear),
        kf(200, ParamValue::Number(9), Easing::Linear),
    ]);
    assert_eq!(evaluate(&g, 0), Some(ParamValue::Number(1)));
    assert_eq!(evaluate(&g, 5_000), Some(ParamValue::Number(9)));
}

#[test]
fn incoming_keyframe_owns_the_easing() {
    let g = group(vec![
        kf(0, ParamValue::Number(0), Easing::Linear),
        kf(100, ParamValue::Number(1000), Easing::EaseIn),
    ]);
    // ease-in at one half: (1/2)^2 = 1/4
    assert_eq!(evaluate(&g, 50), Some(ParamValue::Number(250)));
    let g = group(vec![
        kf(0, ParamValue::Number(0), Easing::Linear),
        kf(100, ParamValue::Number(1000), Easing::Step),
    ]);
    assert_eq!(evaluate(&g, 99), Some(ParamValue::Number(0)));
    assert_eq!(evaluate(&g, 100), Some(ParamValue::Number(1000)));
}

#[test]
fn easing_curves_at_known_points() {
    let half = PROGRESS_ONE / 2;
    assert_eq!(ease(Easing::Linear, half), half);
    assert_eq!(ease(Easing::EaseIn, half), 250_000);
    assert_eq!(ease(Easing::EaseOut, half), 750_000);
    assert_eq!(ease(Easing::EaseInOut, half), 500_000);
    assert_eq!(ease(Easing::EaseInOut, 250_000), 125_000);
    assert_eq!(ease(Easing::Step, half), 0);
    assert_eq!(ease(Easing::Step, PROGRESS_ONE), PROGRESS_ONE);
    for e in [Easing::Linear, Easing::EaseIn, Easing::EaseOut, Easing::EaseInOut, Easing::Step] {
        assert_eq!(ease(e, 0), 0);
    }
}

#[test]
fn vectors_interpolate_per_component_and_flags_switch() {
    let g = group(vec![
        kf(0, ParamValue::Vector(vec![0, 100, -50]), Easing::Linear),
        kf(10, ParamValue::Vector(vec![10, 200, 50]), Easing::Linear),
    ]);
    assert_eq!(evaluate(&g, 5), Some(ParamValue::Vector(vec![5, 150, 0])));
    let mismatched = group(vec![
        kf(0, ParamValue::Vector(vec![0]), Easing::Linear),
        kf(10, ParamValue::Vector(vec![10, 20]), Easing::Linear),
    ]);
    assert_eq!(evaluate(&mismatched, 5), Some(ParamValue::Vector(vec![0])));
    let flags = group(vec![
        kf(0, ParamValue::Flag(false), Easing::Linear),
        kf(10, ParamValue::Flag(true), Easing::Linear),
    ]);
    assert_eq!(evaluate(&flags, 9), Some(ParamValue::Flag(false)));
    assert_eq!(evaluate(&flags, 10), Some(ParamValue::Flag(true)));
}

#[test]
fn lerp_rounds_down() {
    assert_eq!(lerp(0, 3, 500_000), 1);
    assert_eq!(lerp(0, -3, 500_000), -2);
    assert_eq!(lerp(i64::MIN, i64::MAX, PROGRESS_ONE), i64::MAX);
    assert_eq!(lerp(i64::MIN, i64::MAX, 0), i64::MIN);
}

#[test]
fn easing_tags_parse() {
    assert_eq!(Easing::from_tag(&"ease-in-out".to_string()), Some(Easing::EaseInOut));
    assert_eq!(Easing::from_tag(&"step".to_string()), Some(Easing::Step));
    assert_eq!(Easing::from_tag(&"bounce".to_string()), None);
}
