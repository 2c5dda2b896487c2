//! FFmpeg filter strings for the effects of the catalog, with parameters
//! written as decimal numbers.
use vstd::prelude::*;

use crate::catalog::{effect_of_tag, Param};
use crate::error::Error;
use crate::model::EffectKind;

verus! {

pub open spec fn digit_char(d: int) -> char {
    if d == 0 {
        '0'
    } else if d == 1 {
        '1'
    } else if d == 2 {
        '2'
    } else if d == 3 {
        '3'
    } else if d == 4 {
        '4'
    } else if d == 5 {
        '5'
    } else if d == 6 {
        '6'
    } else if d == 7 {
        '7'
    } else if d == 8 {
        '8'
    } else {
        '9'
    }
}

/// The decimal digits of `n`, most significant first.
pub open spec fn digits(n: nat) -> Seq<char>
    decreases n,
{
    if n < 10 {
        seq![digit_char(n as int)]
    } else {
        digits(n / 10) + seq![digit_char((n % 10) as int)]
    }
}

/// The three decimals of a fraction `f` in thousandths (`1..1000`), without trailing zeros.
pub open spec fn decimals(f: nat) -> Seq<char> {
    let d1 = f / 100;
    let d2 = (f / 10) % 10;
    let d3 = f % 10;
    if d3 != 0 {
        seq![digit_char(d1 as int), digit_char(d2 as int), digit_char(d3 as int)]
    } else if d2 != 0 {
        seq![digit_char(d1 as int), digit_char(d2 as int)]
    } else {
        seq![digit_char(d1 as int)]
    }
}

/// A number in thousandths written in decimal: `1500` is "1.5", `-200` is
/// "-0.2", `2000` is "2".
pub open spec fn decimal(x: int) -> Seq<char> {
    let a = if x < 0 {
        -x
    } else {
        x
    };
    let sign = if x < 0 {
        seq!['-']
    } else {
        Seq::<char>::empty()
    };
    let whole = digits((a / 1000) as nat);
    let frac = a % 1000;
    if frac == 0 {
        sign + whole
    } else {
        sign + whole + seq!['.'] + decimals(frac as nat)
    }
}

/// A strength in thousandths scaled by 50 and cut to a whole number, negative values giving 0.
pub open spec fn grain_strength(intensity: int) -> nat {
    if intensity <= 0 {
        0
    } else {
        (intensity * 50 / 1000) as nat
    }
}

/// The FFmpeg filter of an effect.
pub open spec fn filter_spec(kind: EffectKind) -> Seq<char> {
    match kind {
        EffectKind::Brightness { value } => "eq=brightness="@ + decimal(value - 1000),
        EffectKind::Contrast { value } => "eq=contrast="@ + decimal(value as int),
        EffectKind::Saturation { value } => "eq=saturation="@ + decimal(value as int),
        EffectKind::Hue { value } => "hue=h="@ + decimal(value as int),
        EffectKind::Blur { radius } => "gblur=sigma="@ + decimal(radius as int),
        EffectKind::Sharpen { amount } => "unsharp=luma_amount="@ + decimal(amount as int),
        EffectKind::Vignette { intensity, .. } => "vignette=angle="@ + decimal(90_000 + intensity * 80),
        EffectKind::Grain { intensity } => "noise=all_s="@ + digits(grain_strength(intensity as int))
            + ":all_f=t"@,
        EffectKind::Gain { level } => "volume="@ + decimal(level as int),
    }
}

fn digit_str(d: u128) -> (r: &'static str)
    requires
        d < 10,
    ensures
        r@ == seq![digit_char(d as int)],
{
    proof {
        reveal_strlit("0");
        reveal_strlit("1");
        reveal_strlit("2");
        reveal_strlit("3");
        reveal_strlit("4");
        reveal_strlit("5");
        reveal_strlit("6");
        reveal_strlit("7");
        reveal_strlit("8");
        reveal_strlit("9");
    }
    if d == 0 {
        "0"
    } else if d == 1 {
        "1"
    } else if d == 2 {
        "2"
    } else if d == 3 {
        "3"
    } else if d == 4 {
        "4"
    } else if d == 5 {
        "5"
    } else if d == 6 {
        "6"
    } else if d == 7 {
        "7"
    } else if d == 8 {
        "8"
    } else {
        "9"
    }
}

fn append_digits(s: &mut String, n: u128)
    ensures
        final(s)@ == old(s)@ + digits(n as nat),
    decreases n,
{
    if n >= 10 {
        append_digits(s, n / 10);
    }
    s.append(digit_str(n % 10));
    proof {
        if n < 10 {
            assert(n % 10 == n);
        }
    }
}

fn append_decimals(s: &mut String, f: u128)
    requires
        0 < f < 1000,
    ensures
        final(s)@ == old(s)@ + decimals(f as nat),
{
    let d1 = f / 100;
    let d2 = (f / 10) % 10;
    let d3 = f % 10;
    s.append(digit_str(d1));
    if d3 != 0 {
        s.append(digit_str(d2));
        s.append(digit_str(d3));
    } else if d2 != 0 {
        s.append(digit_str(d2));
    }
}

/// Appends `x` (thousandths) in decimal.
fn append_decimal(s: &mut String, x: i128)
    requires
        x > i128::MIN,
    ensures
        final(s)@ == old(s)@ + decimal(x as int),
{
    let ghost start = s@;
    let a: u128 = if x < 0 {
        (-x) as u128
    } else {
        x as u128
    };
    if x < 0 {
        proof {
            reveal_strlit("-");
        }
        s.append("-");
    }
    let ghost signed = s@;
    append_digits(s, a / 1000);
    let frac = a % 1000;
    if frac != 0 {
        proof {
            reveal_strlit(".");
        }
        s.append(".");
        append_decimals(s, frac);
    }
    proof {
        let sign = if x < 0 {
            seq!['-']
        } else {
            Seq::<char>::empty()
        };
        assert(signed == start + sign);
        if frac == 0 {
            assert(s@ =~= start + (sign + digits((a / 1000) as nat)));
        } else {
            assert(s@ =~= start + (sign + digits((a / 1000) as nat) + seq!['.'] + decimals(
                frac as nat,
            )));
        }
    }
}

/// The FFmpeg filter of an effect (see `filter_spec`).
pub fn ffmpeg_filter(kind: EffectKind) -> (r: String)
    ensures
        r@ == filter_spec(kind),
{
    match kind {
        EffectKind::Brightness { value } => {
            let mut s = String::from_str("eq=brightness=");
            append_decimal(&mut s, value as i128 - 1000);
            s
        },
        EffectKind::Contrast { value } => {
            let mut s = String::from_str("eq=contrast=");
            append_decimal(&mut s, value as i128);
            s
        },
        EffectKind::Saturation { value } => {
            let mut s = String::from_str("eq=saturation=");
            append_decimal(&mut s, value as i128);
            s
        },
        EffectKind::Hue { value } => {
            let mut s = String::from_str("hue=h=");
            append_decimal(&mut s, value as i128);
            s
        },
        EffectKind::Blur { radius } => {
            let mut s = String::from_str("gblur=sigma=");
            append_decimal(&mut s, radius as i128);
            s
        },
        EffectKind::Sharpen { amount } => {
            let mut s = String::from_str("unsharp=luma_amount=");
            append_decimal(&mut s, amount as i128);
            s
        },
        EffectKind::Vignette { intensity, .. } => {
            let mut s = String::from_str("vignette=angle=");
            append_decimal(&mut s, 90_000 + (intensity as i128) * 80);
            s
        },
        EffectKind::Grain { intensity } => {
            let mut s = String::from_str("noise=all_s=");
            let strength: u128 = if intensity <= 0 {
                0
            } else {
                (intensity as u128) * 50 / 1000
            };
            append_digits(&mut s, strength);
            s.append(":all_f=t");
            s
        },
        EffectKind::Gain { level } => {
            let mut s = String::from_str("volume=");
            append_decimal(&mut s, level as i128);
            s
        },
    }
}

/// The FFmpeg filter of the effect named `effect_id` with `parameters`;
/// `Effect` for a tag that the catalog does not have.
pub fn get_ffmpeg_filter(effect_id: &String, parameters: &Vec<Param>) -> (r: Result<String, Error>)
    ensures
        match effect_of_tag(effect_id@, parameters@) {
            Some(kind) => r matches Ok(f) && f@ == filter_spec(kind),
            None => r matches Err(Error::Effect(m)) && m@ == "Unknown effect: "@ + effect_id@,
        },
{
    match EffectKind::from_tag(effect_id, parameters) {
        Some(kind) => Ok(ffmpeg_filter(kind)),
        None => Err(Error::Effect(String::from_str("Unknown effect: ").concat(effect_id.as_str()))),
    }
}

} // verus!
