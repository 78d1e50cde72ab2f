//! Snapping: candidate alignment points derived from the timeline (zero,
//! item edges, markers) and the nearest-point search used for UI-assisted
//! positioning.

use vstd::prelude::*;
use crate::ids::Id;
use crate::time::{abs_int, TimeUs};
use crate::types::{Timeline, TimelineV};

verus! {

/// The distance between a probe position and a candidate point.
pub open spec fn snap_dist(position: int, point: int) -> int {
    abs_int(position - point)
}

/// Find the candidate minimizing absolute distance to `position`; return
/// it if that minimal distance is within the threshold, else return
/// `position` unchanged. Among exact ties the candidate encountered
/// first wins.
pub fn find_snap_point(position_us: TimeUs, snap_points: &Vec<TimeUs>, threshold_us: TimeUs) -> (r:
    TimeUs)
    ensures
        (forall|j: int|
            0 <= j < snap_points@.len() ==> snap_dist(
                position_us.0 as int,
                (#[trigger] snap_points@[j]).0 as int,
            ) > threshold_us.0 as int) ==> r == position_us,
        (exists|j: int|
            0 <= j < snap_points@.len() && snap_dist(
                position_us.0 as int,
                (#[trigger] snap_points@[j]).0 as int,
            ) <= threshold_us.0 as int) ==> exists|i: int|
            0 <= i < snap_points@.len() && r == snap_points@[i] && snap_dist(
                position_us.0 as int,
                r.0 as int,
            ) <= threshold_us.0 as int && (forall|j: int|
                0 <= j < snap_points@.len() ==> snap_dist(
                    position_us.0 as int,
                    (#[trigger] snap_points@[j]).0 as int,
                ) >= snap_dist(position_us.0 as int, r.0 as int)) && (forall|j: int|
                0 <= j < i ==> snap_dist(position_us.0 as int, (#[trigger] snap_points@[j]).0 as int)
                    > snap_dist(position_us.0 as int, r.0 as int)),
{
    let pos = position_us.0 as i128;
    let mut best = position_us;
    let mut best_dist: i128 = threshold_us.0 as i128 + 1;
    let n = snap_points.len();
    let mut k: usize = 0;
    while k < n
        invariant
            n == snap_points@.len(),
            0 <= k <= n,
            pos == position_us.0 as int,
            best_dist <= threshold_us.0 as i128 + 1,
            best_dist == threshold_us.0 as i128 + 1 ==> best == position_us && (forall|j: int|
                0 <= j < k ==> snap_dist(position_us.0 as int, (#[trigger] snap_points@[j]).0 as int)
                    > threshold_us.0 as int),
            best_dist < threshold_us.0 as i128 + 1 ==> exists|i: int|
                0 <= i < k && best == snap_points@[i] && best_dist as int == snap_dist(
                    position_us.0 as int,
                    best.0 as int,
                ) && (forall|j: int|
                    0 <= j < k ==> snap_dist(
                        position_us.0 as int,
                        (#[trigger] snap_points@[j]).0 as int,
                    ) >= best_dist as int) && (forall|j: int|
                    0 <= j < i ==> snap_dist(
                        position_us.0 as int,
                        (#[trigger] snap_points@[j]).0 as int,
                    ) > best_dist as int),
        decreases n - k,
    {
        let point = snap_points[k];
        let diff = pos - point.0 as i128;
        let dist = if diff < 0 {
            -diff
        } else {
            diff
        };
        proof {
            assert(dist as int == snap_dist(position_us.0 as int, point.0 as int));
        }
        if dist < best_dist {
            best = point;
            best_dist = dist;
        }
        k += 1;
    }
    if best_dist <= threshold_us.0 as i128 {
        best
    } else {
        position_us
    }
}

/// Whether `v` is a snap point of the timeline when the given item is
/// excluded: zero, a non-excluded item's start or end, or a marker's
/// timestamp.
pub open spec fn is_snap_point(tl: TimelineV, exclude: Option<Id>, v: int) -> bool {
    v == 0 || (exists|t: int, i: int|
        0 <= t < tl.tracks.len() && 0 <= i < tl.tracks[t].items.len() && Some(
            (#[trigger] tl.tracks[t].items[i]).id(),
        ) != exclude && (v == tl.tracks[t].items[i].start() || v == tl.tracks[t].items[i].end()))
        || (exists|m: int| 0 <= m < tl.markers.len() && (#[trigger] tl.markers[m]).time == v)
}

/// Whether every item's timeline end fits in a 64-bit count, so that the
/// collected points are representable.
pub open spec fn ends_representable(tl: TimelineV) -> bool {
    forall|t: int, i: int|
        0 <= t < tl.tracks.len() && 0 <= i < tl.tracks[t].items.len() ==> i64::MIN <= (
        #[trigger] tl.tracks[t].items[i]).end() <= i64::MAX
}

/// Whether some collected point carries the value `x`.
pub open spec fn covered(points: Seq<TimeUs>, x: int) -> bool {
    exists|w: TimeUs| #[trigger] points.contains(w) && w.0 as int == x
}

/// Insert a value into a strictly sorted vector unless already present.
fn insert_sorted_unique(points: &mut Vec<TimeUs>, v: TimeUs)
    requires
        forall|a: int, b: int|
            0 <= a < b < old(points)@.len() ==> (#[trigger] old(points)@[a]).0 < (
            #[trigger] old(points)@[b]).0,
    ensures
        forall|a: int, b: int|
            0 <= a < b < final(points)@.len() ==> (#[trigger] final(points)@[a]).0 < (
            #[trigger] final(points)@[b]).0,
        forall|w: TimeUs| #[trigger]
            final(points)@.contains(w) <==> (old(points)@.contains(w) || w == v),
{
    let n = points.len();
    let mut k: usize = 0;
    while k < n && points[k].0 < v.0
        invariant
            n == points@.len(),
            0 <= k <= n,
            points@ == old(points)@,
            forall|a: int| 0 <= a < k ==> (#[trigger] points@[a]).0 < v.0,
        decreases n - k,
    {
        k += 1;
    }
    if k < n && points[k].0 == v.0 {
        proof {
            assert(points@[k as int] == v);
            assert(points@.contains(v));
        }
        return ;
    }
    let ghost pre = points@;
    points.insert(k, v);
    proof {
        pre.insert_ensures(k as int, v);
        assert forall|a: int, b: int|
            0 <= a < b < points@.len() implies (#[trigger] points@[a]).0 < (
        #[trigger] points@[b]).0 by {
            if b < k {
                assert(points@[a] == pre[a] && points@[b] == pre[b]);
            } else if b == k {
                assert(points@[a] == pre[a]);
                assert(points@[b] == v);
            } else {
                if k < pre.len() {
                    assert(pre[k as int].0 > v.0);
                }
                if a < k {
                    assert(points@[a] == pre[a] && points@[b] == pre[b - 1]);
                    if a == b - 1 {
                    } else {
                        assert(pre[a].0 < pre[b - 1].0);
                    }
                } else if a == k {
                    assert(points@[a] == v && points@[b] == pre[b - 1]);
                    assert(b - 1 >= k);
                    if b - 1 > k {
                        assert(pre[k as int].0 < pre[b - 1].0);
                    }
                } else {
                    assert(points@[a] == pre[a - 1] && points@[b] == pre[b - 1]);
                }
            }
        }
        assert forall|w: TimeUs| #[trigger]
            points@.contains(w) <==> (pre.contains(w) || w == v) by {
            if points@.contains(w) {
                let x = choose|x: int| 0 <= x < points@.len() && points@[x] == w;
                if x < k {
                    assert(pre[x] == w);
                    assert(pre.contains(w));
                } else if x > k {
                    assert(pre[x - 1] == w);
                    assert(pre.contains(w));
                }
            }
            if pre.contains(w) {
                let x = choose|x: int| 0 <= x < pre.len() && pre[x] == w;
                if x < k {
                    assert(points@[x] == w);
                    assert(points@.contains(w));
                } else {
                    assert(points@[x + 1] == w);
                    assert(points@.contains(w));
                }
            }
            if w == v {
                assert(points@[k as int] == w);
                assert(points@.contains(w));
            }
        }
    }
}

/// Collect the sorted, deduplicated candidate alignment timestamps of a
/// timeline: zero, every non-excluded item's start and end, and every
/// marker's timestamp.
pub fn collect_snap_points(timeline: &Timeline, exclude_item_id: Option<Id>) -> (r: Vec<TimeUs>)
    requires
        ends_representable(timeline@),
    ensures
        forall|a: int, b: int|
            0 <= a < b < r@.len() ==> (#[trigger] r@[a]).0 < (#[trigger] r@[b]).0,
        forall|v: TimeUs| #[trigger] r@.contains(v) <==> is_snap_point(
            timeline@,
            exclude_item_id,
            v.0 as int,
        ),
{
    let mut points: Vec<TimeUs> = Vec::new();
    insert_sorted_unique(&mut points, TimeUs(0));
    proof {
        assert(points@.contains(TimeUs(0)));
        assert(covered(points@, 0));
    }
    let n = timeline.tracks.len();
    let mut ti: usize = 0;
    while ti < n
        invariant
            n == timeline.tracks.len(),
            0 <= ti <= n,
            ends_representable(timeline@),
            forall|a: int, b: int|
                0 <= a < b < points@.len() ==> (#[trigger] points@[a]).0 < (
                #[trigger] points@[b]).0,
            forall|v: TimeUs| #[trigger]
                points@.contains(v) ==> is_snap_point(timeline@, exclude_item_id, v.0 as int),
            covered(points@, 0),
            forall|t: int, i: int|
                0 <= t < ti && 0 <= i < timeline@.tracks[t].items.len() && Some(
                    (#[trigger] timeline@.tracks[t].items[i]).id(),
                ) != exclude_item_id ==> covered(points@, timeline@.tracks[t].items[i].start())
                    && covered(points@, timeline@.tracks[t].items[i].end()),
        decreases n - ti,
    {
        let m = timeline.tracks[ti].items.len();
        let mut ii: usize = 0;
        while ii < m
            invariant
                n == timeline.tracks.len(),
                0 <= ti < n,
                m == timeline.tracks[ti as int].items.len(),
                0 <= ii <= m,
                ends_representable(timeline@),
                forall|a: int, b: int|
                    0 <= a < b < points@.len() ==> (#[trigger] points@[a]).0 < (
                    #[trigger] points@[b]).0,
                forall|v: TimeUs| #[trigger]
                    points@.contains(v) ==> is_snap_point(timeline@, exclude_item_id, v.0 as int),
                covered(points@, 0),
                forall|t: int, i: int|
                    0 <= t < ti && 0 <= i < timeline@.tracks[t].items.len() && Some(
                        (#[trigger] timeline@.tracks[t].items[i]).id(),
                    ) != exclude_item_id ==> covered(points@, timeline@.tracks[t].items[i].start())
                        && covered(points@, timeline@.tracks[t].items[i].end()),
                forall|i: int|
                    0 <= i < ii && Some(
                        (#[trigger] timeline@.tracks[ti as int].items[i]).id(),
                    ) != exclude_item_id ==> covered(
                        points@,
                        timeline@.tracks[ti as int].items[i].start(),
                    ) && covered(points@, timeline@.tracks[ti as int].items[i].end()),
            decreases m - ii,
        {
            let item = &timeline.tracks[ti].items[ii];
            proof {
                assert(timeline@.tracks[ti as int].items[ii as int] == item@);
            }
            let excluded = match exclude_item_id {
                Some(ex) => item.id() == ex,
                None => false,
            };
            if !excluded {
                let start = item.timeline_start_us();
                let end_wide = crate::editing::item_end_wide(item);
                let end = TimeUs(end_wide as i64);
                let ghost p0 = points@;
                insert_sorted_unique(&mut points, start);
                let ghost p1 = points@;
                insert_sorted_unique(&mut points, end);
                proof {
                    assert forall|x: int| covered(p0, x) implies #[trigger] covered(
                        points@,
                        x,
                    ) by {
                        let w = choose|w: TimeUs| #[trigger] p0.contains(w) && w.0 as int == x;
                        assert(p1.contains(w));
                        assert(points@.contains(w));
                    }
                    assert(points@.contains(start));
                    assert(points@.contains(end));
                    assert(covered(points@, start.0 as int));
                    assert(covered(points@, end.0 as int));
                    assert(covered(points@, 0));
                }
            }
            ii += 1;
        }
        ti += 1;
    }
    let mn = timeline.markers.len();
    let mut mi: usize = 0;
    while mi < mn
        invariant
            mn == timeline.markers.len(),
            0 <= mi <= mn,
            forall|a: int, b: int|
                0 <= a < b < points@.len() ==> (#[trigger] points@[a]).0 < (
                #[trigger] points@[b]).0,
            forall|v: TimeUs| #[trigger]
                points@.contains(v) ==> is_snap_point(timeline@, exclude_item_id, v.0 as int),
            covered(points@, 0),
            forall|t: int, i: int|
                0 <= t < timeline@.tracks.len() && 0 <= i < timeline@.tracks[t].items.len() && Some(
                    (#[trigger] timeline@.tracks[t].items[i]).id(),
                ) != exclude_item_id ==> covered(points@, timeline@.tracks[t].items[i].start())
                    && covered(points@, timeline@.tracks[t].items[i].end()),
            forall|j: int|
                0 <= j < mi ==> covered(points@, (#[trigger] timeline@.markers[j]).time),
        decreases mn - mi,
    {
        let t = timeline.markers[mi].time_us;
        proof {
            assert(timeline@.markers[mi as int].time == t.0 as int);
        }
        let ghost p0 = points@;
        insert_sorted_unique(&mut points, t);
        proof {
            assert forall|x: int| covered(p0, x) implies #[trigger] covered(points@, x) by {
                let w = choose|w: TimeUs| #[trigger] p0.contains(w) && w.0 as int == x;
                assert(points@.contains(w));
            }
            assert(points@.contains(t));
            assert(covered(points@, t.0 as int));
            assert(covered(points@, 0));
        }
        mi += 1;
    }
    proof {
        assert forall|v: TimeUs|
            is_snap_point(timeline@, exclude_item_id, v.0 as int) implies #[trigger] points@.contains(
            v,
        ) by {
            if v.0 as int == 0 {
                let w = choose|w: TimeUs| #[trigger] points@.contains(w) && w.0 as int == 0;
                assert(w == v);
            } else if exists|t: int, i: int|
                0 <= t < timeline@.tracks.len() && 0 <= i < timeline@.tracks[t].items.len() && Some(
                    (#[trigger] timeline@.tracks[t].items[i]).id(),
                ) != exclude_item_id && (v.0 as int == timeline@.tracks[t].items[i].start()
                    || v.0 as int == timeline@.tracks[t].items[i].end()) {
                let (t, i) = choose|t: int, i: int|
                    0 <= t < timeline@.tracks.len() && 0 <= i < timeline@.tracks[t].items.len()
                        && Some((#[trigger] timeline@.tracks[t].items[i]).id()) != exclude_item_id
                        && (v.0 as int == timeline@.tracks[t].items[i].start() || v.0 as int
                        == timeline@.tracks[t].items[i].end());
                if v.0 as int == timeline@.tracks[t].items[i].start() {
                    let w = choose|w: TimeUs| #[trigger]
                        points@.contains(w) && w.0 as int == timeline@.tracks[t].items[i].start();
                    assert(w == v);
                } else {
                    let w = choose|w: TimeUs| #[trigger]
                        points@.contains(w) && w.0 as int == timeline@.tracks[t].items[i].end();
                    assert(w == v);
                }
            } else {
                let m = choose|m: int|
                    0 <= m < timeline@.markers.len() && (#[trigger] timeline@.markers[m]).time
                        == v.0 as int;
                let w = choose|w: TimeUs| #[trigger]
                    points@.contains(w) && w.0 as int == timeline@.markers[m].time;
                assert(w == v);
            }
        }
    }
    points
}

} // verus!
