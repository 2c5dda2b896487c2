//! Evaluation of keyframed properties: easing curves and interpolation.
use vstd::prelude::*;

use crate::model::{Easing, Keyframe, KeyframeGroup, ParamValue};

verus! {

/// Fixed-point one for progress fractions (parts per million).
pub const PROGRESS_ONE: u64 = 1_000_000;

/// The mathematical value of a property.
pub enum ValueModel {
    Number(int),
    Vector(Seq<int>),
    Flag(bool),
    Choice(Seq<char>),
}

impl View for ParamValue {
    type V = ValueModel;

    open spec fn view(&self) -> ValueModel {
        match self {
            ParamValue::Number(n) => ValueModel::Number(*n as int),
            ParamValue::Vector(v) => ValueModel::Vector(ints(v@)),
            ParamValue::Flag(b) => ValueModel::Flag(*b),
            ParamValue::Choice(s) => ValueModel::Choice(s@),
        }
    }
}

/// A sequence of machine integers as mathematical integers.
pub open spec fn ints(v: Seq<i64>) -> Seq<int> {
    v.map_values(|x: i64| x as int)
}

pub open spec fn opt_value_view(v: Option<ParamValue>) -> Option<ValueModel> {
    match v {
        Some(x) => Some(x@),
        None => None,
    }
}

/// The shape of an easing curve, on a progress `p` in `0..=PROGRESS_ONE`.
pub open spec fn ease_spec(e: Easing, p: int) -> int {
    let one = PROGRESS_ONE as int;
    match e {
        Easing::Linear => p,
        Easing::EaseIn => p * p / one,
        Easing::EaseOut => one - (one - p) * (one - p) / one,
        Easing::EaseInOut => if 2 * p < one {
            2 * p * p / one
        } else {
            one - 2 * (one - p) * (one - p) / one
        },
        Easing::Step => if p >= one {
            one
        } else {
            0
        },
    }
}

/// The weighted mean of `a` and `b`, with weight `w` (out of `PROGRESS_ONE`) on `b`, rounded down.
pub open spec fn lerp_spec(a: int, b: int, w: int) -> int {
    (a * (PROGRESS_ONE - w) + b * w) / (PROGRESS_ONE as int)
}

/// Where `t` lies between `t0` and `t1`, as a fraction of `PROGRESS_ONE`, rounded down.
pub open spec fn progress_spec(t0: int, t1: int, t: int) -> int {
    (t - t0) * PROGRESS_ONE / (t1 - t0)
}

/// The value on the segment from `k0` to `k1` at time `t`: numbers and vectors
/// of equal length are interpolated along `k1`'s easing curve; anything else
/// keeps `k0`'s value until `k1` is reached.
pub open spec fn segment_value(k0: Keyframe, k1: Keyframe, t: int) -> ValueModel {
    let w = ease_spec(k1.easing, progress_spec(k0.time as int, k1.time as int, t));
    match (k0.value@, k1.value@) {
        (ValueModel::Number(a), ValueModel::Number(b)) => ValueModel::Number(lerp_spec(a, b, w)),
        (ValueModel::Vector(a), ValueModel::Vector(b)) => if a.len() == b.len() {
            ValueModel::Vector(Seq::new(a.len(), |i: int| lerp_spec(a[i], b[i], w)))
        } else {
            k0.value@
        },
        _ => k0.value@,
    }
}

/// The value found by scanning the segments from keyframe `i` on.
pub open spec fn scan_value(kfs: Seq<Keyframe>, t: int, i: int) -> ValueModel
    decreases kfs.len() - i,
{
    if i < 0 || i + 1 >= kfs.len() {
        kfs.last().value@
    } else if t < kfs[i + 1].time {
        segment_value(kfs[i], kfs[i + 1], t)
    } else {
        scan_value(kfs, t, i + 1)
    }
}

/// The value of a property with keyframes `kfs` at time `t`: clamped to the
/// first and last keyframe, interpolated in between; none when there is no keyframe.
pub open spec fn value_at(kfs: Seq<Keyframe>, t: int) -> Option<ValueModel> {
    if kfs.len() == 0 {
        None
    } else if t <= kfs[0].time {
        Some(kfs[0].value@)
    } else if t >= kfs.last().time {
        Some(kfs.last().value@)
    } else {
        Some(scan_value(kfs, t, 0))
    }
}

/// Keyframes sorted by time, no two at the same time.
pub open spec fn keyframes_sorted(kfs: Seq<Keyframe>) -> bool {
    forall|i: int, j: int| 0 <= i < j < kfs.len() ==> kfs[i].time < kfs[j].time
}

impl Easing {
    /// The easing named by `tag`, if the catalog has it.
    pub fn from_tag(tag: &String) -> (r: Option<Easing>)
        ensures
            r == easing_of_tag(tag@),
    {
        if *tag == String::from_str("linear") {
            Some(Easing::Linear)
        } else if *tag == String::from_str("ease-in") {
            Some(Easing::EaseIn)
        } else if *tag == String::from_str("ease-out") {
            Some(Easing::EaseOut)
        } else if *tag == String::from_str("ease-in-out") {
            Some(Easing::EaseInOut)
        } else if *tag == String::from_str("step") {
            Some(Easing::Step)
        } else {
            None
        }
    }
}

pub open spec fn easing_of_tag(tag: Seq<char>) -> Option<Easing> {
    if tag == "linear"@ {
        Some(Easing::Linear)
    } else if tag == "ease-in"@ {
        Some(Easing::EaseIn)
    } else if tag == "ease-out"@ {
        Some(Easing::EaseOut)
    } else if tag == "ease-in-out"@ {
        Some(Easing::EaseInOut)
    } else if tag == "step"@ {
        Some(Easing::Step)
    } else {
        None
    }
}

/// Dividing a value of `0..=y * d` by `d` gives a value of `0..=y`.
pub proof fn lemma_div_le(x: int, y: int, d: int)
    requires
        0 <= x <= y * d,
        d > 0,
    ensures
        0 <= x / d <= y,
{
    vstd::arithmetic::div_mod::lemma_div_pos_is_pos(x, d);
    assert(y * d == d * y) by (nonlinear_arith);
    vstd::arithmetic::div_mod::lemma_div_is_ordered(x, d * y, d);
    vstd::arithmetic::div_mod::lemma_div_multiples_vanish(y, d);
}

/// Applies an easing curve to a progress fraction.
pub fn ease(e: Easing, p: u64) -> (r: u64)
    requires
        p <= PROGRESS_ONE,
    ensures
        r == ease_spec(e, p as int),
        r <= PROGRESS_ONE,
{
    let one = PROGRESS_ONE;
    match e {
        Easing::Linear => p,
        Easing::EaseIn => {
            proof {
                assert(0 <= p * p <= one * one) by (nonlinear_arith)
                    requires
                        p <= one,
                ;
                lemma_div_le(p * p, one as int, one as int);
            }
            p * p / one
        },
        Easing::EaseOut => {
            let q = one - p;
            proof {
                assert(0 <= q * q <= one * one) by (nonlinear_arith)
                    requires
                        q <= one,
                ;
                lemma_div_le(q * q, one as int, one as int);
            }
            one - q * q / one
        },
        Easing::EaseInOut => {
            if 2 * p < one {
                proof {
                    assert(0 <= 2 * p * p <= one * one) by (nonlinear_arith)
                        requires
                            2 * p < one,
                    ;
                    lemma_div_le(2 * p * p, one as int, one as int);
                }
                2 * p * p / one
            } else {
                let q = one - p;
                proof {
                    assert(0 <= 2 * q * q <= one * one) by (nonlinear_arith)
                        requires
                            2 * q <= one,
                            0 <= q,
                    ;
                    lemma_div_le(2 * q * q, one as int, one as int);
                }
                one - 2 * q * q / one
            }
        },
        Easing::Step => if p >= one {
            one
        } else {
            0
        },
    }
}

/// A value between `lo * d` and `hi * d`, divided by `d`, lies between `lo` and `hi`.
pub proof fn lemma_div_between(n: int, lo: int, hi: int, d: int)
    requires
        d > 0,
        lo * d <= n <= hi * d,
    ensures
        lo <= n / d <= hi,
{
    vstd::arithmetic::div_mod::lemma_fundamental_div_mod(n, d);
    let q = n / d;
    let r = n % d;
    assert(0 <= r < d) by {
        vstd::arithmetic::div_mod::lemma_mod_bound(n, d);
    }
    assert(lo <= q) by (nonlinear_arith)
        requires
            lo * d <= n,
            n == d * q + r,
            r < d,
            d > 0,
    ;
    assert(q <= hi) by (nonlinear_arith)
        requires
            n <= hi * d,
            n == d * q + r,
            0 <= r,
            d > 0,
    ;
}

/// A value of `0..hi * d`, divided by `d`, lies in `0..hi`.
pub proof fn lemma_div_below(n: int, hi: int, d: int)
    requires
        d > 0,
        0 <= n < hi * d,
    ensures
        0 <= n / d < hi,
{
    vstd::arithmetic::div_mod::lemma_fundamental_div_mod(n, d);
    vstd::arithmetic::div_mod::lemma_mod_bound(n, d);
    vstd::arithmetic::div_mod::lemma_div_pos_is_pos(n, d);
    let q = n / d;
    let r = n % d;
    assert(q < hi) by (nonlinear_arith)
        requires
            n < hi * d,
            n == d * q + r,
            0 <= r,
            d > 0,
    ;
}

/// Division rounded down, for a positive divisor.
pub fn floor_div(n: i128, d: i128) -> (r: i128)
    requires
        d > 0,
        n > i128::MIN,
    ensures
        r == n / d,
{
    if n >= 0 {
        let q = (n as u128) / (d as u128);
        proof {
            assert(n <= n * d) by (nonlinear_arith)
                requires
                    n >= 0,
                    d >= 1,
            ;
            lemma_div_le(n as int, n as int, d as int);
        }
        q as i128
    } else {
        let x = (-n - 1) as u128;
        let m = x / (d as u128);
        proof {
            assert(x <= x * d) by (nonlinear_arith)
                requires
                    x >= 0,
                    d >= 1,
            ;
            lemma_div_le(x as int, x as int, d as int);
            vstd::arithmetic::div_mod::lemma_fundamental_div_mod(x as int, d as int);
            vstd::arithmetic::div_mod::lemma_mod_bound(x as int, d as int);
            let rem = (x as int) % (d as int);
            assert(n == (-(m as int) - 1) * d + (d - rem - 1)) by (nonlinear_arith)
                requires
                    x == -n - 1,
                    x == d * m + rem,
            ;
            vstd::arithmetic::div_mod::lemma_fundamental_div_mod_converse(
                n as int,
                d as int,
                -(m as int) - 1,
                d - rem - 1,
            );
        }
        -(m as i128) - 1
    }
}

/// Interpolates between `a` and `b` with weight `w` on `b`.
pub fn lerp(a: i64, b: i64, w: u64) -> (r: i64)
    requires
        w <= PROGRESS_ONE,
    ensures
        r == lerp_spec(a as int, b as int, w as int),
        a <= b ==> a <= r <= b,
        b <= a ==> b <= r <= a,
{
    let one = PROGRESS_ONE as i128;
    let wa = (PROGRESS_ONE - w) as i128;
    let wb = w as i128;
    proof {
        assert(-0x8000_0000_0000_0000 * 1_000_000 <= (a as int) * wa <= 0x8000_0000_0000_0000
            * 1_000_000) by (nonlinear_arith)
            requires
                0 <= wa <= 1_000_000,
                -0x8000_0000_0000_0000 <= a < 0x8000_0000_0000_0000,
        ;
        assert(-0x8000_0000_0000_0000 * 1_000_000 <= (b as int) * wb <= 0x8000_0000_0000_0000
            * 1_000_000) by (nonlinear_arith)
            requires
                0 <= wb <= 1_000_000,
                -0x8000_0000_0000_0000 <= b < 0x8000_0000_0000_0000,
        ;
    }
    let n = (a as i128) * wa + (b as i128) * wb;
    let q = floor_div(n, one);
    proof {
        if a <= b {
            assert(a * one <= n <= b * one) by (nonlinear_arith)
                requires
                    a <= b,
                    n == a * wa + b * wb,
                    wa + wb == one,
                    0 <= wa,
                    0 <= wb,
            ;
            lemma_div_between(n as int, a as int, b as int, one as int);
        } else {
            assert(b * one <= n <= a * one) by (nonlinear_arith)
                requires
                    b <= a,
                    n == a * wa + b * wb,
                    wa + wb == one,
                    0 <= wa,
                    0 <= wb,
            ;
            lemma_div_between(n as int, b as int, a as int, one as int);
        }
    }
    q as i64
}

/// Where `t` lies on the way from `t0` to `t1`, in parts per million.
pub fn progress(t0: u64, t1: u64, t: u64) -> (r: u64)
    requires
        t0 <= t < t1,
    ensures
        r == progress_spec(t0 as int, t1 as int, t as int),
        r < PROGRESS_ONE,
{
    let num = ((t - t0) as u128) * (PROGRESS_ONE as u128);
    let den = (t1 - t0) as u128;
    proof {
        assert(num < den * PROGRESS_ONE) by (nonlinear_arith)
            requires
                num == (t - t0) * PROGRESS_ONE,
                den == t1 - t0,
                t - t0 < den,
        ;
        lemma_div_below(num as int, PROGRESS_ONE as int, den as int);
    }
    (num / den) as u64
}

/// Interpolates two vectors of equal length, component by component.
fn lerp_vec(a: &Vec<i64>, b: &Vec<i64>, w: u64) -> (r: Vec<i64>)
    requires
        a.len() == b.len(),
        w <= PROGRESS_ONE,
    ensures
        ints(r@) =~= Seq::new(
            a.len() as nat,
            |i: int| lerp_spec(a[i] as int, b[i] as int, w as int),
        ),
{
    let mut r: Vec<i64> = Vec::new();
    let mut i: usize = 0;
    while i < a.len()
        invariant
            a.len() == b.len(),
            w <= PROGRESS_ONE,
            i <= a.len(),
            r.len() == i,
            forall|j: int| 0 <= j < i ==> r[j] == lerp_spec(a[j] as int, b[j] as int, w as int),
        decreases a.len() - i,
    {
        let x = lerp(a[i], b[i], w);
        r.push(x);
        i = i + 1;
    }
    r
}

/// A copy of a value.
pub fn copy_value(v: &ParamValue) -> (r: ParamValue)
    ensures
        r@ == v@,
{
    match v {
        ParamValue::Number(n) => ParamValue::Number(*n),
        ParamValue::Vector(xs) => {
            let mut r: Vec<i64> = Vec::new();
            let mut i: usize = 0;
            while i < xs.len()
                invariant
                    i <= xs.len(),
                    r@ == xs@.subrange(0, i as int),
                decreases xs.len() - i,
            {
                r.push(xs[i]);
                i = i + 1;
            }
            proof {
                assert(r@ == xs@);
            }
            ParamValue::Vector(r)
        },
        ParamValue::Flag(b) => ParamValue::Flag(*b),
        ParamValue::Choice(s) => ParamValue::Choice(s.clone()),
    }
}

/// The value on the segment from `k0` to `k1` at time `t`.
pub fn interpolate(k0: &Keyframe, k1: &Keyframe, t: u64) -> (r: ParamValue)
    requires
        k0.time <= t < k1.time,
    ensures
        r@ == segment_value(*k0, *k1, t as int),
{
    let p = progress(k0.time, k1.time, t);
    let w = ease(k1.easing, p);
    match (&k0.value, &k1.value) {
        (ParamValue::Number(a), ParamValue::Number(b)) => ParamValue::Number(lerp(*a, *b, w)),
        (ParamValue::Vector(a), ParamValue::Vector(b)) => {
            if a.len() == b.len() {
                let v = lerp_vec(a, b, w);
                proof {
                    let (ma, mb) = (ints(a@), ints(b@));
                    assert(ints(v@) =~= Seq::new(
                        ma.len(),
                        |i: int| lerp_spec(ma[i], mb[i], w as int),
                    ));
                }
                ParamValue::Vector(v)
            } else {
                proof {
                    assert(ints(a@).len() != ints(b@).len());
                }
                copy_value(&k0.value)
            }
        },
        _ => copy_value(&k0.value),
    }
}

/// The value of `group` at time `t` (see `value_at`); `None` for a group
/// without keyframes, whose property then keeps its static value.
pub fn evaluate(group: &KeyframeGroup, t: u64) -> (r: Option<ParamValue>)
    ensures
        opt_value_view(r) == value_at(group.keyframes@, t as int),
{
    let kfs = &group.keyframes;
    let n = kfs.len();
    if n == 0 {
        return None;
    }
    if t <= kfs[0].time {
        return Some(copy_value(&kfs[0].value));
    }
    if t >= kfs[n - 1].time {
        return Some(copy_value(&kfs[n - 1].value));
    }
    let mut i: usize = 0;
    while i + 2 < n && t >= kfs[i + 1].time
        invariant
            n == kfs.len(),
            i + 1 < n,
            kfs[i as int].time <= t,
            t < kfs[n - 1].time,
            scan_value(kfs@, t as int, i as int) == scan_value(kfs@, t as int, 0),
        decreases n - i,
    {
        i = i + 1;
    }
    Some(interpolate(&kfs[i], &kfs[i + 1], t))
}

proof fn lemma_ease_zero(e: Easing)
    ensures
        ease_spec(e, 0) == 0,
{
    let one = PROGRESS_ONE as int;
    vstd::arithmetic::div_mod::lemma_div_multiples_vanish(one, one);
    assert(one * one == 1_000_000_000_000);
    assert(0int * 0 / one == 0);
}

proof fn lemma_lerp_zero(a: int, b: int)
    ensures
        lerp_spec(a, b, 0) == a,
{
    let one = PROGRESS_ONE as int;
    assert(a * (PROGRESS_ONE - 0) + b * 0 == one * a) by (nonlinear_arith)
        requires
            one == PROGRESS_ONE,
    ;
    vstd::arithmetic::div_mod::lemma_div_multiples_vanish(a, one);
}

proof fn lemma_segment_start(k0: Keyframe, k1: Keyframe)
    requires
        k0.time < k1.time,
    ensures
        segment_value(k0, k1, k0.time as int) == k0.value@,
{
    let d = k1.time - k0.time;
    assert(progress_spec(k0.time as int, k1.time as int, k0.time as int) == 0) by {
        assert((k0.time - k0.time) * PROGRESS_ONE == 0);
    }
    lemma_ease_zero(k1.easing);
    match (k0.value@, k1.value@) {
        (ValueModel::Number(a), ValueModel::Number(b)) => {
            lemma_lerp_zero(a, b);
        },
        (ValueModel::Vector(a), ValueModel::Vector(b)) => {
            if a.len() == b.len() {
                assert forall|i: int| 0 <= i < a.len() implies lerp_spec(a[i], b[i], 0) == a[i] by {
                    lemma_lerp_zero(a[i], b[i]);
                }
                assert(Seq::new(a.len(), |i: int| lerp_spec(a[i], b[i], 0)) =~= a);
            }
        },
        _ => {},
    }
}

proof fn lemma_scan_skips(kfs: Seq<Keyframe>, t: int, i: int, j: int)
    requires
        keyframes_sorted(kfs),
        0 <= i <= j,
        j + 1 < kfs.len(),
        t == kfs[j].time,
    ensures
        scan_value(kfs, t, i) == scan_value(kfs, t, j),
    decreases j - i,
{
    if i < j {
        assert(kfs[i + 1].time <= t) by {
            if i + 1 < j {
                assert(kfs[i + 1].time < kfs[j].time);
            }
        }
        lemma_scan_skips(kfs, t, i + 1, j);
    }
}

/// Evaluating a sorted group at the time of one of its keyframes gives that
/// keyframe's value.
pub proof fn lemma_exact_hit(kfs: Seq<Keyframe>, j: int)
    requires
        keyframes_sorted(kfs),
        0 <= j < kfs.len(),
    ensures
        value_at(kfs, kfs[j].time as int) == Some(kfs[j].value@),
{
    let t = kfs[j].time as int;
    if j == 0 {
    } else if j == kfs.len() - 1 {
        assert(kfs[0].time < kfs[j].time);
    } else {
        assert(kfs[0].time < kfs[j].time);
        assert(kfs[j].time < kfs.last().time);
        lemma_scan_skips(kfs, t, 0, j);
        assert(kfs[j].time < kfs[j + 1].time);
        lemma_segment_start(kfs[j], kfs[j + 1]);
    }
}

/// With two numeric keyframes and linear easing into the second, the value
/// half-way between them is the mean of their values, rounded down. (The
/// midpoint is a whole microsecond when the gap between the keyframes is even.)
pub proof fn lemma_linear_midpoint(k0: Keyframe, k1: Keyframe, v0: i64, v1: i64)
    requires
        k0.value == ParamValue::Number(v0),
        k1.value == ParamValue::Number(v1),
        k1.easing == Easing::Linear,
        k0.time < k1.time,
        (k1.time - k0.time) % 2 == 0,
    ensures
        value_at(seq![k0, k1], (k0.time + k1.time) / 2) == Some(
            ValueModel::Number((v0 + v1) / 2),
        ),
{
    let kfs = seq![k0, k1];
    let h = (k1.time - k0.time) / 2;
    let t = (k0.time + k1.time) / 2;
    assert(k1.time - k0.time == 2 * h);
    assert(t == k0.time + h);
    assert(h > 0);
    let one = PROGRESS_ONE as int;
    assert(progress_spec(k0.time as int, k1.time as int, t) == 500_000) by {
        assert(h * one == 500_000 * (2 * h) + 0) by (nonlinear_arith)
            requires
                one == 1_000_000,
        ;
        vstd::arithmetic::div_mod::lemma_fundamental_div_mod_converse(
            h * one,
            2 * h,
            500_000,
            0,
        );
    }
    assert(lerp_spec(v0 as int, v1 as int, 500_000) == (v0 + v1) / 2) by {
        let x = v0 + v1;
        let q = x / 2;
        let r = x % 2;
        vstd::arithmetic::div_mod::lemma_fundamental_div_mod(x, 2);
        vstd::arithmetic::div_mod::lemma_mod_bound(x, 2);
        assert(v0 * (PROGRESS_ONE - 500_000) + v1 * 500_000 == q * one + r * 500_000)
            by (nonlinear_arith)
            requires
                x == v0 + v1,
                x == 2 * q + r,
                one == 1_000_000,
        ;
        vstd::arithmetic::div_mod::lemma_fundamental_div_mod_converse(
            v0 * (PROGRESS_ONE - 500_000) + v1 * 500_000,
            one,
            q,
            r * 500_000,
        );
    }
    assert(kfs[1].time == kfs.last().time);
}

/// A group with a single keyframe has that keyframe's value at every time;
/// a group without keyframes has no value.
pub proof fn lemma_constant_group(kfs: Seq<Keyframe>, t: int)
    requires
        kfs.len() <= 1,
    ensures
        kfs.len() == 1 ==> value_at(kfs, t) == Some(kfs[0].value@),
        kfs.len() == 0 ==> value_at(kfs, t) is None,
{
    if kfs.len() == 1 {
        assert(kfs.last() == kfs[0]);
    }
}

} // verus!
