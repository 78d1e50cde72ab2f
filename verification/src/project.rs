//! Projects and their construction: presets for common output settings,
//! the project file-name rule, asset removal, and the total duration a
//! progress display measures an export against.

use vstd::prelude::*;
use vstd::string::StrSliceExecFns;
use crate::ids::{fresh_id, Id};
use crate::time::TimeUs;
use crate::types::{Project, ProjectSettings, Timeline, Track, TrackKind};

verus! {

impl Timeline {
    /// An empty timeline.
    pub fn new() -> (r: Timeline)
        ensures
            r@.tracks.len() == 0,
            r@.markers.len() == 0,
    {
        let r = Timeline { tracks: Vec::new(), markers: Vec::new() };
        proof {
            assert(r@.tracks =~= Seq::empty());
            assert(r@.markers =~= Seq::empty());
        }
        r
    }
}

impl Default for Timeline {
    /// The default timeline is empty.
    fn default() -> (r: Timeline)
        ensures
            r@.tracks.len() == 0,
            r@.markers.len() == 0,
    {
        Timeline::new()
    }
}

impl Project {
    /// A new empty project with a fresh identifier.
    pub fn new(name: String, settings: ProjectSettings) -> (r: Project)
        ensures
            r@.name == name@,
            r@.settings == settings,
            r@.assets.len() == 0,
            r@.timeline.tracks.len() == 0,
            r@.timeline.markers.len() == 0,
    {
        let r = Project { id: fresh_id(), name, settings, assets: Vec::new(), timeline: Timeline::new() };
        proof {
            assert(r@.assets =~= Seq::empty());
        }
        r
    }

    /// Remove every asset with the given identifier; items referencing it
    /// keep their reference and are treated as having no playable source.
    pub fn remove_asset(&mut self, asset_id: Id)
        ensures
            final(self)@ == (crate::types::ProjectV {
                assets: keep_assets(old(self)@.assets, asset_id),
                ..old(self)@
            }),
    {
        let n = self.assets.len();
        let mut kept: Vec<crate::types::Asset> = Vec::new();
        proof {
            assert(self@.assets.subrange(0, 0) =~= Seq::empty());
            assert(kept.deep_view() =~= keep_assets(self@.assets.subrange(0, 0), asset_id));
        }
        let mut i: usize = 0;
        while i < n
            invariant
                n == self.assets@.len(),
                0 <= i <= n,
                self@ == old(self)@,
                kept.deep_view() == keep_assets(self@.assets.subrange(0, i as int), asset_id),
            decreases n - i,
        {
            let ghost prefix = self@.assets.subrange(0, i as int);
            if self.assets[i].id != asset_id {
                let ghost pre = kept.deep_view();
                let a = clone_asset(&self.assets[i]);
                kept.push(a);
                proof {
                    assert(kept.deep_view() =~~= pre.push(self@.assets[i as int]));
                }
            }
            proof {
                assert(self@.assets.subrange(0, i + 1).drop_last() =~= prefix);
                assert(self@.assets.subrange(0, i + 1).last() == self@.assets[i as int]);
                assert(kept.deep_view() =~= keep_assets(
                    self@.assets.subrange(0, i + 1),
                    asset_id,
                ));
            }
            i += 1;
        }
        proof {
            assert(self@.assets.subrange(0, n as int) =~= self@.assets);
        }
        self.assets = kept;
    }
}

/// The assets that survive a removal: everything whose identifier
/// differs.
pub open spec fn keep_assets(assets: Seq<crate::types::AssetV>, asset_id: Id) -> Seq<
    crate::types::AssetV,
>
    decreases assets.len(),
{
    if assets.len() == 0 {
        Seq::empty()
    } else {
        keep_assets(assets.drop_last(), asset_id) + (if assets.last().id == asset_id {
            Seq::empty()
        } else {
            seq![assets.last()]
        })
    }
}

/// Duplicate an asset value.
fn clone_asset(a: &crate::types::Asset) -> (r: crate::types::Asset)
    ensures
        r@ == a@,
{
    crate::types::Asset {
        id: a.id,
        name: a.name.clone(),
        path: a.path.clone(),
        kind: a.kind,
        probe: match &a.probe {
            Some(p) => Some(
                crate::types::ProbeResult {
                    duration_us: p.duration_us,
                    width: p.width,
                    height: p.height,
                    fps_milli: p.fps_milli,
                    codec: p.codec.clone(),
                    audio_channels: p.audio_channels,
                    audio_sample_rate: p.audio_sample_rate,
                },
            ),
            None => None,
        },
    }
}

/// Full HD at thirty frames per second.
pub fn preset_1080p() -> (r: ProjectSettings)
    ensures
        r == (ProjectSettings { width: 1920, height: 1080, fps: 30, sample_rate: 48000 }),
{
    ProjectSettings { width: 1920, height: 1080, fps: 30, sample_rate: 48000 }
}

/// Vertical full HD at thirty frames per second.
pub fn preset_shorts() -> (r: ProjectSettings)
    ensures
        r == (ProjectSettings { width: 1080, height: 1920, fps: 30, sample_rate: 48000 }),
{
    ProjectSettings { width: 1080, height: 1920, fps: 30, sample_rate: 48000 }
}

/// HD at thirty frames per second.
pub fn preset_720p() -> (r: ProjectSettings)
    ensures
        r == (ProjectSettings { width: 1280, height: 720, fps: 30, sample_rate: 48000 }),
{
    ProjectSettings { width: 1280, height: 720, fps: 30, sample_rate: 48000 }
}

/// Ultra HD at thirty frames per second.
pub fn preset_4k() -> (r: ProjectSettings)
    ensures
        r == (ProjectSettings { width: 3840, height: 2160, fps: 30, sample_rate: 48000 }),
{
    ProjectSettings { width: 3840, height: 2160, fps: 30, sample_rate: 48000 }
}

/// Full HD at sixty frames per second.
pub fn preset_1080p_60() -> (r: ProjectSettings)
    ensures
        r == (ProjectSettings { width: 1920, height: 1080, fps: 60, sample_rate: 48000 }),
{
    ProjectSettings { width: 1920, height: 1080, fps: 60, sample_rate: 48000 }
}

/// Whether the text ends in the project file suffix.
pub open spec fn has_project_suffix(s: Seq<char>) -> bool {
    s.len() >= 9 && s.subrange(s.len() - 9, s.len() as int) == ".forgecut"@
}

/// Append the project file suffix unless the path already carries it.
pub fn ensure_extension(path: &str) -> (r: String)
    ensures
        has_project_suffix(path@) ==> r@ == path@,
        !has_project_suffix(path@) ==> r@ == path@ + ".forgecut"@,
{
    proof {
        reveal_strlit(".forgecut");
    }
    let n = path.unicode_len();
    let mut matched = n >= 9;
    if matched {
        let mut j: usize = 0;
        while j < 9
            invariant
                n == path@.len(),
                n >= 9,
                0 <= j <= 9,
                matched ==> forall|x: int| 0 <= x < j ==> path@[n - 9 + x] == ".forgecut"@[x],
                !matched ==> !has_project_suffix(path@),
            decreases 9 - j,
        {
            proof {
                reveal_strlit(".forgecut");
            }
            if path.get_char(n - 9 + j) != ".forgecut".get_char(j) {
                proof {
                    if has_project_suffix(path@) {
                        assert(path@.subrange(n - 9, n as int)[j as int] == path@[n - 9 + j]);
                    }
                }
                matched = false;
                j = 9;
            } else {
                j += 1;
            }
        }
    } else {
        proof {
            assert(!has_project_suffix(path@));
        }
    }
    let mut out = String::from_str(path);
    if matched {
        proof {
            assert(path@.subrange(n - 9, n as int) =~= ".forgecut"@);
        }
    } else {
        out.append(".forgecut");
    }
    out
}

/// The snapshot's total content duration: the latest item end, or zero
/// for an empty timeline (ends before zero do not shorten it).
pub fn timeline_total_duration(timeline: &Timeline) -> (r: TimeUs)
    requires
        crate::snapping::ends_representable(timeline@),
    ensures
        r.0 >= 0,
        forall|t: int, i: int|
            0 <= t < timeline@.tracks.len() && 0 <= i < timeline@.tracks[t].items.len() ==> (
            #[trigger] timeline@.tracks[t].items[i]).end() <= r.0 as int,
        r.0 == 0 || exists|t: int, i: int|
            0 <= t < timeline@.tracks.len() && 0 <= i < timeline@.tracks[t].items.len() && (
            #[trigger] timeline@.tracks[t].items[i]).end() == r.0 as int,
{
    let mut max_end: i64 = 0;
    let n = timeline.tracks.len();
    let mut ti: usize = 0;
    while ti < n
        invariant
            n == timeline.tracks@.len(),
            0 <= ti <= n,
            crate::snapping::ends_representable(timeline@),
            max_end >= 0,
            forall|t: int, i: int|
                0 <= t < ti && 0 <= i < timeline@.tracks[t].items.len() ==> (
                #[trigger] timeline@.tracks[t].items[i]).end() <= max_end as int,
            max_end == 0 || exists|t: int, i: int|
                0 <= t < timeline@.tracks.len() && 0 <= i < timeline@.tracks[t].items.len() && (
                #[trigger] timeline@.tracks[t].items[i]).end() == max_end as int,
        decreases n - ti,
    {
        let m = timeline.tracks[ti].items.len();
        let mut ii: usize = 0;
        while ii < m
            invariant
                n == timeline.tracks@.len(),
                0 <= ti < n,
                m == timeline.tracks@[ti as int].items@.len(),
                0 <= ii <= m,
                crate::snapping::ends_representable(timeline@),
                max_end >= 0,
                forall|t: int, i: int|
                    0 <= t < ti && 0 <= i < timeline@.tracks[t].items.len() ==> (
                    #[trigger] timeline@.tracks[t].items[i]).end() <= max_end as int,
                forall|i: int|
                    0 <= i < ii ==> (#[trigger] timeline@.tracks[ti as int].items[i]).end()
                        <= max_end as int,
                max_end == 0 || exists|t: int, i: int|
                    0 <= t < timeline@.tracks.len() && 0 <= i < timeline@.tracks[t].items.len()
                        && (#[trigger] timeline@.tracks[t].items[i]).end() == max_end as int,
            decreases m - ii,
        {
            let item = &timeline.tracks[ti].items[ii];
            proof {
                assert(timeline@.tracks[ti as int].items[ii as int] == item@);
            }
            let end_wide = crate::editing::item_end_wide(item);
            let end = end_wide as i64;
            if end > max_end {
                max_end = end;
            }
            ii += 1;
        }
        ti += 1;
    }
    TimeUs(max_end)
}

} // verus!
