//! Timeline resolution: which items are on screen at an instant, and which
//! pairs of items are inside a transition window.
use vstd::prelude::*;

use crate::keyframe::PROGRESS_ONE;
use crate::model::{Composition, Track, TrackItem, TransitionPosition};

verus! {

/// The item of one track that is shown at an instant.
#[derive(Debug, Clone, Copy, PartialEq, Eq, Structural)]
pub struct ActiveItem {
    /// Index of the track in the composition.
    pub track: usize,
    /// Index of the item in its track.
    pub item: usize,
    /// Set when the item is inside a transition window with the next item.
    pub blend: Option<Blend>,
}

/// A transition in progress between an outgoing item and the item after it.
#[derive(Debug, Clone, Copy, PartialEq, Eq, Structural)]
pub struct Blend {
    /// Index of the incoming item in the same track.
    pub incoming: usize,
    /// Index of the item that holds the transition.
    pub owner: usize,
    /// Index of the transition in the owner's list.
    pub transition: usize,
    /// Linear progress through the transition window, in parts per million.
    pub progress: u64,
}

pub open spec fn item_end(item: TrackItem) -> int {
    item.start_time + item.duration
}

pub open spec fn item_active(item: TrackItem, t: int) -> bool {
    item.start_time <= t < item_end(item)
}

/// Index of the first item at or after `i` that is active at `t`.
pub open spec fn first_active_from(items: Seq<TrackItem>, t: int, i: int) -> Option<int>
    decreases items.len() - i,
{
    if i < 0 || i >= items.len() {
        None
    } else if item_active(items[i], t) {
        Some(i)
    } else {
        first_active_from(items, t, i + 1)
    }
}

/// Index of the first transition at or after `j` at the given boundary, with a positive duration.
pub open spec fn boundary_transition_from(item: TrackItem, pos: TransitionPosition, j: int) -> Option<int>
    decreases item.transitions.len() - j,
{
    if j < 0 || j >= item.transitions.len() {
        None
    } else if item.transitions[j].position == pos && item.transitions[j].duration > 0 {
        Some(j)
    } else {
        boundary_transition_from(item, pos, j + 1)
    }
}

pub open spec fn boundary_transition(item: TrackItem, pos: TransitionPosition) -> Option<int> {
    boundary_transition_from(item, pos, 0)
}

/// The blend of item `i` with item `i + 1` at `t`, if a transition of either
/// covers `t`: the outgoing item's end transition first, then the incoming
/// item's start transition.
pub open spec fn blend_at(items: Seq<TrackItem>, i: int, t: int) -> Option<Blend> {
    if i + 1 >= items.len() || !item_active(items[i + 1], t) {
        None
    } else {
        let a = items[i];
        let b = items[i + 1];
        match boundary_transition(a, TransitionPosition::End) {
            Some(j) if t >= item_end(a) - a.transitions[j].duration => Some(
                Blend {
                    incoming: (i + 1) as usize,
                    owner: i as usize,
                    transition: j as usize,
                    progress: ((t - (item_end(a) - a.transitions[j].duration)) * PROGRESS_ONE
                        / (a.transitions[j].duration as int)) as u64,
                },
            ),
            _ => match boundary_transition(b, TransitionPosition::Start) {
                Some(j) if t < b.start_time + b.transitions[j].duration => Some(
                    Blend {
                        incoming: (i + 1) as usize,
                        owner: (i + 1) as usize,
                        transition: j as usize,
                        progress: ((t - b.start_time) * PROGRESS_ONE / (
                        b.transitions[j].duration as int)) as u64,
                    },
                ),
                _ => None,
            },
        }
    }
}

/// What track `k` shows at `t`: its earliest active item, with its blend.
pub open spec fn track_layer(tr: Track, k: int, t: int) -> Option<ActiveItem> {
    match first_active_from(tr.items@, t, 0) {
        Some(i) => Some(
            ActiveItem { track: k as usize, item: i as usize, blend: blend_at(tr.items@, i, t) },
        ),
        None => None,
    }
}

/// The layers of the first `k` tracks at `t`, in track order.
pub open spec fn resolve_prefix(tracks: Seq<Track>, t: int, k: int) -> Seq<ActiveItem>
    decreases k,
{
    if k <= 0 {
        Seq::empty()
    } else {
        let prev = resolve_prefix(tracks, t, k - 1);
        match track_layer(tracks[k - 1], k - 1, t) {
            Some(a) => prev.push(a),
            None => prev,
        }
    }
}

pub open spec fn resolve_spec(tracks: Seq<Track>, t: int) -> Seq<ActiveItem> {
    resolve_prefix(tracks, t, tracks.len() as int)
}

/// The resolved total duration: the latest end of any item.
pub open spec fn total_duration_prefix(tracks: Seq<Track>, k: int) -> int
    decreases k,
{
    if k <= 0 {
        0
    } else {
        let prev = total_duration_prefix(tracks, k - 1);
        let here = track_end(tracks[k - 1].items@, tracks[k - 1].items.len() as int);
        if here > prev {
            here
        } else {
            prev
        }
    }
}

/// The latest end among the first `n` items.
pub open spec fn track_end(items: Seq<TrackItem>, n: int) -> int
    decreases n,
{
    if n <= 0 {
        0
    } else {
        let prev = track_end(items, n - 1);
        if item_end(items[n - 1]) > prev {
            item_end(items[n - 1])
        } else {
            prev
        }
    }
}

pub open spec fn total_duration_spec(c: Composition) -> int {
    total_duration_prefix(c.tracks@, c.tracks.len() as int)
}

fn is_active(item: &TrackItem, t: u64) -> (r: bool)
    ensures
        r == item_active(*item, t as int),
{
    item.start_time <= t && t - item.start_time < item.duration
}

fn find_boundary_transition(item: &TrackItem, pos: TransitionPosition) -> (r: Option<usize>)
    ensures
        r matches Some(j) ==> boundary_transition(*item, pos) == Some(j as int) && j
            < item.transitions.len(),
        r is None ==> boundary_transition(*item, pos) is None,
{
    let mut j: usize = 0;
    while j < item.transitions.len()
        invariant
            j <= item.transitions.len(),
            boundary_transition_from(*item, pos, j as int) == boundary_transition(*item, pos),
        decreases item.transitions.len() - j,
    {
        let tr = &item.transitions[j];
        if tr.position == pos && tr.duration > 0 {
            return Some(j);
        }
        j = j + 1;
    }
    None
}

/// `num / den` of the way, in parts per million.
fn fraction(num: u128, den: u128) -> (r: u64)
    requires
        num < den,
        den <= u64::MAX,
    ensures
        r == num * PROGRESS_ONE / (den as int),
        r < PROGRESS_ONE,
{
    proof {
        assert(num * PROGRESS_ONE < den * PROGRESS_ONE) by (nonlinear_arith)
            requires
                num < den,
        ;
        crate::keyframe::lemma_div_below(num * PROGRESS_ONE, PROGRESS_ONE as int, den as int);
        assert(num * PROGRESS_ONE <= u64::MAX * PROGRESS_ONE) by (nonlinear_arith)
            requires
                num < den,
                den <= u64::MAX,
        ;
    }
    (num * (PROGRESS_ONE as u128) / den) as u64
}

fn find_blend(items: &Vec<TrackItem>, i: usize, t: u64) -> (r: Option<Blend>)
    requires
        i < items.len(),
        item_active(items[i as int], t as int),
    ensures
        r == blend_at(items@, i as int, t as int),
{
    if i + 1 >= items.len() || !is_active(&items[i + 1], t) {
        return None;
    }
    let a = &items[i];
    let b = &items[i + 1];
    let end_a = a.start_time as u128 + a.duration as u128;
    match find_boundary_transition(a, TransitionPosition::End) {
        Some(j) => {
            let d = a.transitions[j].duration as u128;
            if t as u128 + d >= end_a {
                let p = fraction(t as u128 + d - end_a, d);
                return Some(Blend { incoming: i + 1, owner: i, transition: j, progress: p });
            }
        },
        None => {},
    }
    match find_boundary_transition(b, TransitionPosition::Start) {
        Some(j) => {
            let d = b.transitions[j].duration as u128;
            if (t as u128) < b.start_time as u128 + d {
                let p = fraction(t as u128 - b.start_time as u128, d);
                return Some(Blend { incoming: i + 1, owner: i + 1, transition: j, progress: p });
            }
            None
        },
        None => None,
    }
}

/// What one track shows at `t`.
pub fn layer_of_track(tr: &Track, k: usize, t: u64) -> (r: Option<ActiveItem>)
    ensures
        r == track_layer(*tr, k as int, t as int),
{
    let mut i: usize = 0;
    while i < tr.items.len()
        invariant
            i <= tr.items.len(),
            first_active_from(tr.items@, t as int, i as int) == first_active_from(
                tr.items@,
                t as int,
                0,
            ),
        decreases tr.items.len() - i,
    {
        if is_active(&tr.items[i], t) {
            let blend = find_blend(&tr.items, i, t);
            return Some(ActiveItem { track: k, item: i, blend });
        }
        i = i + 1;
    }
    None
}

/// The items shown at `t`, one per track at most, in track order (topmost first).
pub fn active_items(comp: &Composition, t: u64) -> (r: Vec<ActiveItem>)
    ensures
        r@ == resolve_spec(comp.tracks@, t as int),
{
    let mut r: Vec<ActiveItem> = Vec::new();
    let mut k: usize = 0;
    while k < comp.tracks.len()
        invariant
            k <= comp.tracks.len(),
            r@ == resolve_prefix(comp.tracks@, t as int, k as int),
        decreases comp.tracks.len() - k,
    {
        match layer_of_track(&comp.tracks[k], k, t) {
            Some(a) => r.push(a),
            None => {},
        }
        k = k + 1;
    }
    r
}

proof fn lemma_first_active(items: Seq<TrackItem>, t: int, i: int)
    ensures
        first_active_from(items, t, i) matches Some(j) ==> i <= j < items.len() && item_active(
            items[j],
            t,
        ),
    decreases items.len() - i,
{
    if 0 <= i < items.len() && !item_active(items[i], t) {
        lemma_first_active(items, t, i + 1);
    }
}

/// Well-formedness of a resolved layer: its indices are in range, and it and
/// its incoming neighbour are active at `t`.
pub open spec fn layer_ok(tracks: Seq<Track>, a: ActiveItem, t: int) -> bool {
    &&& a.track < tracks.len()
    &&& a.item < tracks[a.track as int].items.len()
    &&& item_active(tracks[a.track as int].items[a.item as int], t)
    &&& a.blend matches Some(b) ==> {
        &&& b.incoming == a.item + 1
        &&& b.incoming < tracks[a.track as int].items.len()
        &&& item_active(tracks[a.track as int].items[b.incoming as int], t)
        &&& b.progress < PROGRESS_ONE
        &&& (b.owner == a.item || b.owner == b.incoming)
        &&& b.transition < tracks[a.track as int].items[b.owner as int].transitions.len()
    }
}

proof fn lemma_blend_ok(items: Seq<TrackItem>, i: int, t: int)
    requires
        0 <= i < items.len(),
        items.len() <= usize::MAX,
        item_active(items[i], t),
    ensures
        blend_at(items, i, t) matches Some(b) ==> b.incoming == i + 1 && i + 1 < items.len()
            && item_active(items[i + 1], t) && b.progress < PROGRESS_ONE && (b.owner == i
            || b.owner == i + 1) && b.transition < items[b.owner as int].transitions.len(),
{
    if i + 1 < items.len() && item_active(items[i + 1], t) {
        let a = items[i];
        let b = items[i + 1];
        lemma_boundary(a, TransitionPosition::End, 0);
        lemma_boundary(b, TransitionPosition::Start, 0);
        match boundary_transition(a, TransitionPosition::End) {
            Some(j) => {
                if t >= item_end(a) - a.transitions[j].duration {
                    let d = a.transitions[j].duration as int;
                    assert(0 <= t - (item_end(a) - d) < d);
                    assert((t - (item_end(a) - d)) * PROGRESS_ONE < d * PROGRESS_ONE)
                        by (nonlinear_arith)
                        requires
                            0 <= t - (item_end(a) - d) < d,
                    ;
                    crate::keyframe::lemma_div_below(
                        (t - (item_end(a) - d)) * PROGRESS_ONE,
                        PROGRESS_ONE as int,
                        d,
                    );
                    return;
                }
            },
            None => {},
        }
        match boundary_transition(b, TransitionPosition::Start) {
            Some(j) => {
                let d = b.transitions[j].duration as int;
                if t < b.start_time + d {
                    assert((t - b.start_time) * PROGRESS_ONE < d * PROGRESS_ONE)
                        by (nonlinear_arith)
                        requires
                            0 <= t - b.start_time < d,
                    ;
                    crate::keyframe::lemma_div_below(
                        (t - b.start_time) * PROGRESS_ONE,
                        PROGRESS_ONE as int,
                        d,
                    );
                }
            },
            None => {},
        }
    }
}

proof fn lemma_boundary(item: TrackItem, pos: TransitionPosition, j: int)
    ensures
        boundary_transition_from(item, pos, j) matches Some(x) ==> 0 <= x < item.transitions.len()
            && item.transitions[x].duration > 0,
    decreases item.transitions.len() - j,
{
    if 0 <= j < item.transitions.len() && !(item.transitions[j].position == pos
        && item.transitions[j].duration > 0) {
        lemma_boundary(item, pos, j + 1);
    }
}

proof fn lemma_resolve_prefix(tracks: Seq<Track>, t: int, k: int)
    requires
        0 <= k <= tracks.len(),
        tracks.len() <= usize::MAX,
    ensures
        forall|x: int|
            0 <= x < resolve_prefix(tracks, t, k).len() ==> layer_ok(
                tracks,
                #[trigger] resolve_prefix(tracks, t, k)[x],
                t,
            ) && resolve_prefix(tracks, t, k)[x].track < k,
        forall|x: int, y: int|
            0 <= x < y < resolve_prefix(tracks, t, k).len() ==> #[trigger] resolve_prefix(
                tracks,
                t,
                k,
            )[x].track < #[trigger] resolve_prefix(tracks, t, k)[y].track,
    decreases k,
{
    if k > 0 {
        lemma_resolve_prefix(tracks, t, k - 1);
        let tr = tracks[k - 1];
        let prev = resolve_prefix(tracks, t, k - 1);
        let cur = resolve_prefix(tracks, t, k);
        lemma_first_active(tr.items@, t, 0);
        match first_active_from(tr.items@, t, 0) {
            Some(i) => {
                assert(tr.items@.len() == tr.items.len());
                lemma_blend_ok(tr.items@, i, t);
                let a = track_layer(tr, k - 1, t)->Some_0;
                assert(cur == prev.push(a));
                assert(layer_ok(tracks, a, t));
                assert forall|x: int| 0 <= x < cur.len() implies layer_ok(
                    tracks,
                    #[trigger] cur[x],
                    t,
                ) && cur[x].track < k by {
                    if x < prev.len() {
                        assert(cur[x] == prev[x]);
                    }
                }
                assert forall|x: int, y: int| 0 <= x < y < cur.len() implies #[trigger] cur[x].track
                    < #[trigger] cur[y].track by {
                    assert(cur[x] == prev[x]);
                    if y < prev.len() {
                        assert(cur[y] == prev[y]);
                    }
                }
            },
            None => {
                assert(cur == prev);
            },
        }
    }
}

/// Every resolved item belongs to an in-range track and item and is active
/// at `t` (as is the incoming item of a blend), and the layers come in the
/// tracks' declared order, one per track at most.
pub proof fn lemma_active_items_ordered(tracks: Seq<Track>, t: int)
    requires
        tracks.len() <= usize::MAX,
    ensures
        forall|x: int|
            0 <= x < resolve_spec(tracks, t).len() ==> layer_ok(
                tracks,
                #[trigger] resolve_spec(tracks, t)[x],
                t,
            ),
        forall|x: int, y: int|
            0 <= x < y < resolve_spec(tracks, t).len() ==> #[trigger] resolve_spec(tracks, t)[x].track
                < #[trigger] resolve_spec(tracks, t)[y].track,
{
    lemma_resolve_prefix(tracks, t, tracks.len() as int);
}

/// Each item of the track ends by the time the next one starts.
pub open spec fn items_disjoint(items: Seq<TrackItem>) -> bool {
    forall|j: int| 0 <= j < items.len() - 1 ==> #[trigger] item_end(items[j]) <= items[j + 1].start_time
}

proof fn lemma_disjoint_before(items: Seq<TrackItem>, j: int, i: int)
    requires
        items_disjoint(items),
        0 <= j < i < items.len(),
    ensures
        item_end(items[j]) <= items[i].start_time,
    decreases i - j,
{
    if j + 1 < i {
        lemma_disjoint_before(items, j + 1, i);
        assert(item_end(items[j]) <= items[j + 1].start_time);
    } else {
        assert(item_end(items[j]) <= items[j + 1].start_time);
    }
}

proof fn lemma_first_active_is(items: Seq<TrackItem>, t: int, m: int, i: int)
    requires
        items_disjoint(items),
        0 <= m <= i < items.len(),
        item_active(items[i], t),
    ensures
        first_active_from(items, t, m) == Some(i),
    decreases i - m,
{
    if m < i {
        lemma_disjoint_before(items, m, i);
        lemma_first_active_is(items, t, m + 1, i);
    }
}

proof fn lemma_resolve_keeps(tracks: Seq<Track>, t: int, k: int, n: int)
    requires
        0 <= k < n <= tracks.len(),
        track_layer(tracks[k], k, t) is Some,
    ensures
        exists|x: int|
            0 <= x < resolve_prefix(tracks, t, n).len() && #[trigger] resolve_prefix(tracks, t, n)[x]
                == track_layer(tracks[k], k, t)->Some_0,
    decreases n,
{
    let a = track_layer(tracks[k], k, t)->Some_0;
    if n == k + 1 {
        let prev = resolve_prefix(tracks, t, k);
        assert(resolve_prefix(tracks, t, n) == prev.push(a));
        assert(resolve_prefix(tracks, t, n)[prev.len() as int] == a);
    } else {
        lemma_resolve_keeps(tracks, t, k, n - 1);
        let prev = resolve_prefix(tracks, t, n - 1);
        let x = choose|x: int| 0 <= x < prev.len() && #[trigger] prev[x] == a;
        match track_layer(tracks[n - 1], n - 1, t) {
            Some(b) => {
                assert(resolve_prefix(tracks, t, n) == prev.push(b));
                assert(resolve_prefix(tracks, t, n)[x] == a);
            },
            None => {},
        }
    }
}

/// In a track whose items do not overlap, every item active at `t` is the
/// item that the resolution shows for that track.
pub proof fn lemma_active_item_shown(tracks: Seq<Track>, t: int, k: int, i: int)
    requires
        tracks.len() <= usize::MAX,
        0 <= k < tracks.len(),
        0 <= i < tracks[k].items.len(),
        items_disjoint(tracks[k].items@),
        item_active(tracks[k].items@[i], t),
    ensures
        exists|x: int|
            0 <= x < resolve_spec(tracks, t).len() && (#[trigger] resolve_spec(tracks, t)[x]).track
                == k && resolve_spec(tracks, t)[x].item == i,
{
    assert(tracks[k].items@.len() == tracks[k].items.len());
    lemma_first_active_is(tracks[k].items@, t, 0, i);
    lemma_resolve_keeps(tracks, t, k, tracks.len() as int);
    let a = track_layer(tracks[k], k, t)->Some_0;
    let r = resolve_spec(tracks, t);
    let x = choose|x: int| 0 <= x < r.len() && #[trigger] r[x] == a;
    assert(a.track == k && a.item == i);
    assert(r[x].track == k && r[x].item == i);
}

} // verus!
