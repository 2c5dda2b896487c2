use waldiez_player::catalog::Param;
use waldiez_player::filters::{ffmpeg_filter, get_ffmpeg_filter};
use waldiez_player::model::EffectKind;
use waldiez_player::Error;

fn filter(tag: &str, params: &[(&str, i64)]) -> Result<String, Error> {
    let ps: Vec<Param> = params.iter().map(|(n, v)| Param { name: n.to_string(), value: *v }).collect();
    get_ffmpeg_filter(&tag.to_string(), &ps)
}

#[test]
fn filters_write_parameters_in_decimal() {
    assert_eq!(filter("brightness", &[("value", 1200)]).unwrap(), "eq=brightness=0.2");
    assert_eq!(filter("brightness", &[]).unwrap(), "eq=brightness=0");
    assert_eq!(filter("brightness", &[("value", 0)]).unwrap(), "eq=brightness=-1");
    assert_eq!(filter("contrast", &[]).unwrap(), "eq=contrast=1");
    assert_eq!(filter("saturation", &[("value", 1505)]).unwrap(), "eq=saturation=1.505");
    assert_eq!(filter("hue", &[("value", -1500)]).unwrap(), "hue=h=-1.5");
    assert_eq!(filter("blur", &[("radius", 2050)]).unwrap(), "gblur=sigma=2.05");
    assert_eq!(filter("sharpen", &[("amount", 7)]).unwrap(), "unsharp=luma_amount=0.007");
    assert_eq!(filter("vignette", &[("intensity", 500)]).unwrap(), "vignette=angle=130");
    assert_eq!(filter("grain", &[("intensity", 1000)]).unwrap(), "noise=all_s=50:all_f=t");
    assert_eq!(filter("grain", &[("intensity", -300)]).unwrap(), "noise=all_s=0:all_f=t");
    assert_eq!(ffmpeg_filter(EffectKind::Gain { level: 12_345_000 }), "volume=12345");
}

#[test]
fn unknown_effect_is_an_effect_error() {
    match filter("sparkle", &[]) {
        Err(Error::Effect(m)) => assert_eq!(m, "Unknown effect: sparkle"),
        other => panic!("unexpected {:?}", other),
    }
}
