//! The render compiler: turns a project snapshot into a linear ffmpeg
//! pipeline plan — a deduplicated input list, a textual filter graph
//! (trim/concat/overlay/mix/draw stages), and the output encoding
//! arguments. `compile` is pure; the whole plan is specified as a
//! function of the project view and the executable code is proved to
//! produce exactly that plan.

use vstd::prelude::*;
use vstd::string::StringExecFns;
use vstd::string::StrSliceExecFns;
use crate::error::RenderError;
use crate::ids::Id;
use crate::strfmt::{dec_int, dec_nat, milli_text, push_i64, push_milli, push_sec, push_u64, sec_text};
use crate::types::{Item, ItemV, Project, ProjectV, TrackKind, TrackV};

verus! {

// ---------------------------------------------------------------------------
// Plan types
// ---------------------------------------------------------------------------

/// One distinct media file feeding the render, with its input index.
#[derive(Debug)]
pub struct RenderInput {
    pub path: String,
    pub index: usize,
}

/// Mathematical view of a render input.
#[verifier::ext_equal]
pub ghost struct RenderInputV {
    pub path: Seq<char>,
    pub index: int,
}

impl View for RenderInput {
    type V = RenderInputV;

    open spec fn view(&self) -> RenderInputV {
        RenderInputV { path: self.path@, index: self.index as int }
    }
}

impl DeepView for RenderInput {
    type V = RenderInputV;

    open spec fn deep_view(&self) -> RenderInputV {
        self.view()
    }
}

/// A compiled render plan ready for ffmpeg execution. The output path is
/// a placeholder that the caller overwrites.
#[derive(Debug)]
pub struct RenderPlan {
    pub inputs: Vec<RenderInput>,
    pub filter_graph: String,
    pub output_args: Vec<String>,
    pub output_path: String,
}

/// Mathematical view of a render plan.
#[verifier::ext_equal]
pub ghost struct RenderPlanV {
    pub inputs: Seq<RenderInputV>,
    pub filter_graph: Seq<char>,
    pub output_args: Seq<Seq<char>>,
    pub output_path: Seq<char>,
}

impl View for RenderPlan {
    type V = RenderPlanV;

    open spec fn view(&self) -> RenderPlanV {
        RenderPlanV {
            inputs: self.inputs.deep_view(),
            filter_graph: self.filter_graph@,
            output_args: self.output_args.deep_view(),
            output_path: self.output_path@,
        }
    }
}

// ---------------------------------------------------------------------------
// Spec layer: track and item selection
// ---------------------------------------------------------------------------

/// Whether `i` is the first track of the given kind.
pub open spec fn first_kind_at(tracks: Seq<TrackV>, kind: TrackKind, i: int) -> bool {
    0 <= i < tracks.len() && tracks[i].kind == kind && forall|j: int|
        0 <= j < i ==> tracks[j].kind != kind
}

/// The index of the first track of the given kind.
pub open spec fn first_track_of_kind(tracks: Seq<TrackV>, kind: TrackKind) -> Option<int> {
    if exists|i: int| first_kind_at(tracks, kind, i) {
        Some(choose|i: int| first_kind_at(tracks, kind, i))
    } else {
        None
    }
}

/// First tracks of a kind are unique.
pub proof fn lemma_first_track_of_kind_is(tracks: Seq<TrackV>, kind: TrackKind, i: int)
    requires
        first_kind_at(tracks, kind, i),
    ensures
        first_track_of_kind(tracks, kind) == Some(i),
{
    let k = choose|i: int| first_kind_at(tracks, kind, i);
    if k < i {
        assert(tracks[k].kind == kind);
        assert(false);
    } else if i < k {
        assert(tracks[i].kind == kind);
        assert(false);
    }
}

/// The video-clip items of a sequence, order kept.
pub open spec fn filter_video(items: Seq<ItemV>) -> Seq<ItemV>
    decreases items.len(),
{
    if items.len() == 0 {
        Seq::empty()
    } else {
        filter_video(items.drop_last()) + (if items.last() is VideoClip {
            seq![items.last()]
        } else {
            Seq::empty()
        })
    }
}

/// The audio-clip items of a sequence, order kept.
pub open spec fn filter_audio(items: Seq<ItemV>) -> Seq<ItemV>
    decreases items.len(),
{
    if items.len() == 0 {
        Seq::empty()
    } else {
        filter_audio(items.drop_last()) + (if items.last() is AudioClip {
            seq![items.last()]
        } else {
            Seq::empty()
        })
    }
}

/// The image-overlay items of a sequence, order kept.
pub open spec fn filter_image(items: Seq<ItemV>) -> Seq<ItemV>
    decreases items.len(),
{
    if items.len() == 0 {
        Seq::empty()
    } else {
        filter_image(items.drop_last()) + (if items.last() is ImageOverlay {
            seq![items.last()]
        } else {
            Seq::empty()
        })
    }
}

/// The text-overlay items of a sequence, order kept.
pub open spec fn filter_text(items: Seq<ItemV>) -> Seq<ItemV>
    decreases items.len(),
{
    if items.len() == 0 {
        Seq::empty()
    } else {
        filter_text(items.drop_last()) + (if items.last() is TextOverlay {
            seq![items.last()]
        } else {
            Seq::empty()
        })
    }
}

/// The video clips of every video track other than the primary one, in
/// track order: the picture-in-picture overlays.
pub open spec fn pip_items(tracks: Seq<TrackV>, primary: int) -> Seq<ItemV>
    decreases tracks.len(),
{
    if tracks.len() == 0 {
        Seq::empty()
    } else {
        pip_items(tracks.drop_last(), primary) + (if tracks.last().kind == TrackKind::Video
            && tracks.len() - 1 != primary {
            filter_video(tracks.last().items)
        } else {
            Seq::empty()
        })
    }
}

/// The image overlays of every image-overlay track, in track order.
pub open spec fn image_items(tracks: Seq<TrackV>) -> Seq<ItemV>
    decreases tracks.len(),
{
    if tracks.len() == 0 {
        Seq::empty()
    } else {
        image_items(tracks.drop_last()) + (if tracks.last().kind == TrackKind::OverlayImage {
            filter_image(tracks.last().items)
        } else {
            Seq::empty()
        })
    }
}

/// The audio clips of every audio track, in track order.
pub open spec fn audio_items(tracks: Seq<TrackV>) -> Seq<ItemV>
    decreases tracks.len(),
{
    if tracks.len() == 0 {
        Seq::empty()
    } else {
        audio_items(tracks.drop_last()) + (if tracks.last().kind == TrackKind::Audio {
            filter_audio(tracks.last().items)
        } else {
            Seq::empty()
        })
    }
}

/// The text overlays of every text-overlay track, in track order.
pub open spec fn text_items(tracks: Seq<TrackV>) -> Seq<ItemV>
    decreases tracks.len(),
{
    if tracks.len() == 0 {
        Seq::empty()
    } else {
        text_items(tracks.drop_last()) + (if tracks.last().kind == TrackKind::OverlayText {
            filter_text(tracks.last().items)
        } else {
            Seq::empty()
        })
    }
}

// ---------------------------------------------------------------------------
// Spec layer: stable sort by timeline start
// ---------------------------------------------------------------------------

/// Insert an item behind every element whose start is not later: the
/// insertion step of a stable insertion sort by timeline start.
pub open spec fn insert_by_start(s: Seq<ItemV>, x: ItemV) -> Seq<ItemV>
    decreases s.len(),
{
    if s.len() == 0 {
        seq![x]
    } else if s.last().start() <= x.start() {
        s.push(x)
    } else {
        insert_by_start(s.drop_last(), x).push(s.last())
    }
}

/// Stable sort by timeline start: equal starts keep their relative
/// order.
pub open spec fn sort_by_start(s: Seq<ItemV>) -> Seq<ItemV>
    decreases s.len(),
{
    if s.len() == 0 {
        Seq::empty()
    } else {
        insert_by_start(sort_by_start(s.drop_last()), s.last())
    }
}

/// Non-strict ordering by start.
pub open spec fn sorted_by_start(s: Seq<ItemV>) -> bool {
    forall|a: int, b: int| 0 <= a < b < s.len() ==> (#[trigger] s[a]).start() <= (
    #[trigger] s[b]).start()
}

/// The insertion step inserts exactly at the position scanned from the
/// end, and keeps the sequence sorted.
pub proof fn lemma_insert_by_start(s: Seq<ItemV>, x: ItemV, pos: int)
    requires
        sorted_by_start(s),
        0 <= pos <= s.len(),
        forall|j: int| pos <= j < s.len() ==> (#[trigger] s[j]).start() > x.start(),
        pos > 0 ==> s[pos - 1].start() <= x.start(),
    ensures
        insert_by_start(s, x) == s.insert(pos, x),
        sorted_by_start(s.insert(pos, x)),
    decreases s.len(),
{
    s.insert_ensures(pos, x);
    if s.len() == 0 {
        assert(insert_by_start(s, x) =~= s.insert(pos, x));
    } else if s.last().start() <= x.start() {
        assert(pos == s.len());
        assert(s.push(x) =~= s.insert(pos, x));
    } else {
        let t = s.drop_last();
        assert forall|j: int| pos <= j < t.len() implies (#[trigger] t[j]).start() > x.start() by {
            assert(t[j] == s[j]);
        }
        assert forall|a: int, b: int|
            0 <= a < b < t.len() implies (#[trigger] t[a]).start() <= (#[trigger] t[b]).start() by {
            assert(t[a] == s[a] && t[b] == s[b]);
        }
        lemma_insert_by_start(t, x, pos);
        assert(insert_by_start(s, x) == t.insert(pos, x).push(s.last()));
        t.insert_ensures(pos, x);
        assert(t.insert(pos, x).push(s.last()) =~= s.insert(pos, x));
    }
    assert forall|a: int, b: int|
        0 <= a < b < s.insert(pos, x).len() implies (#[trigger] s.insert(pos, x)[a]).start() <= (
    #[trigger] s.insert(pos, x)[b]).start() by {
        if b < pos {
        } else if a > pos {
        } else if a == pos && b > pos {
            assert(s.insert(pos, x)[a] == x && s.insert(pos, x)[b] == s[b - 1]);
        } else if b == pos {
            assert(s.insert(pos, x)[a] == s[a] && s.insert(pos, x)[b] == x);
            assert(s[a].start() <= s[pos - 1].start());
        } else {
            assert(a < pos && b > pos);
            assert(s.insert(pos, x)[a] == s[a] && s.insert(pos, x)[b] == s[b - 1]);
            if a <= b - 1 - 1 || a == b - 1 {
                if a == b - 1 {
                    assert(a == pos - 1 || a < pos - 1);
                    assert(s[a].start() <= s[pos - 1].start());
                    assert(s[b - 1] == s[a]);
                } else {
                    assert(s[a].start() <= s[b - 1].start());
                }
            }
        }
    }
}

/// A sorted sequence is its own stable sort; more usefully, the sort of
/// any sequence is sorted.
pub proof fn lemma_sort_by_start_sorted(s: Seq<ItemV>)
    ensures
        sorted_by_start(sort_by_start(s)),
    decreases s.len(),
{
    if s.len() > 0 {
        lemma_sort_by_start_sorted(s.drop_last());
        lemma_insert_sorted(sort_by_start(s.drop_last()), s.last());
    }
}

/// Inserting into a sorted sequence keeps it sorted.
pub proof fn lemma_insert_sorted(s: Seq<ItemV>, x: ItemV)
    requires
        sorted_by_start(s),
    ensures
        sorted_by_start(insert_by_start(s, x)),
    decreases s.len(),
{
    let pos = choose_insert_pos(s, x);
    lemma_choose_insert_pos(s, x);
    lemma_insert_by_start(s, x, pos);
}

/// The position the insertion step lands on: the number of leading
/// elements whose start is not later than the candidate's.
pub open spec fn choose_insert_pos(s: Seq<ItemV>, x: ItemV) -> int
    decreases s.len(),
{
    if s.len() == 0 {
        0
    } else if s.last().start() <= x.start() {
        s.len() as int
    } else {
        choose_insert_pos(s.drop_last(), x)
    }
}

/// The chosen position satisfies the insertion step's requirements.
pub proof fn lemma_choose_insert_pos(s: Seq<ItemV>, x: ItemV)
    requires
        sorted_by_start(s),
    ensures
        0 <= choose_insert_pos(s, x) <= s.len(),
        forall|j: int|
            choose_insert_pos(s, x) <= j < s.len() ==> (#[trigger] s[j]).start() > x.start(),
        choose_insert_pos(s, x) > 0 ==> s[choose_insert_pos(s, x) - 1].start() <= x.start(),
    decreases s.len(),
{
    if s.len() > 0 && s.last().start() > x.start() {
        let t = s.drop_last();
        assert forall|a: int, b: int|
            0 <= a < b < t.len() implies (#[trigger] t[a]).start() <= (#[trigger] t[b]).start() by {
            assert(t[a] == s[a] && t[b] == s[b]);
        }
        lemma_choose_insert_pos(t, x);
        assert forall|j: int|
            choose_insert_pos(s, x) <= j < s.len() implies (#[trigger] s[j]).start()
            > x.start() by {
            if j < s.len() - 1 {
                assert(t[j] == s[j]);
            }
        }
    }
}

// ---------------------------------------------------------------------------
// Exec layer: selection and sorting
// ---------------------------------------------------------------------------

/// Stable-sort items by timeline start with insertion sort.
fn sort_items_by_start(items: Vec<Item>) -> (r: Vec<Item>)
    ensures
        r.deep_view() == sort_by_start(items.deep_view()),
{
    let mut out: Vec<Item> = Vec::new();
    let n = items.len();
    let mut i: usize = 0;
    while i < n
        invariant
            n == items@.len(),
            0 <= i <= n,
            out.deep_view() == sort_by_start(items.deep_view().subrange(0, i as int)),
            sorted_by_start(out.deep_view()),
        decreases n - i,
    {
        let ghost prefix = items.deep_view().subrange(0, i as int);
        let x = &items[i];
        let ghost xv = items.deep_view()[i as int];
        proof {
            assert(x@ == xv);
        }
        let xs = x.timeline_start_us();
        let m = out.len();
        let mut pos: usize = m;
        while pos > 0 && out[pos - 1].timeline_start_us().0 > xs.0
            invariant
                m == out@.len(),
                0 <= pos <= m,
                xs.0 as int == xv.start(),
                forall|j: int|
                    pos <= j < m ==> (#[trigger] out.deep_view()[j]).start() > xv.start(),
            decreases pos,
        {
            pos -= 1;
        }
        let ghost pre_out = out.deep_view();
        let ghost pre_sh = out@;
        out.insert(pos, x.clone());
        proof {
            assert(out.deep_view() =~~= pre_out.insert(pos as int, xv));
            if pos > 0 {
                assert(pre_out[pos as int - 1].start() <= xv.start());
            }
            lemma_insert_by_start(pre_out, xv, pos as int);
            assert(items.deep_view().subrange(0, i + 1).drop_last() =~= prefix);
            assert(items.deep_view().subrange(0, i + 1).last() == xv);
        }
        i += 1;
    }
    proof {
        assert(items.deep_view().subrange(0, n as int) =~= items.deep_view());
    }
    out
}

// ---------------------------------------------------------------------------
// Spec layer: assets and input registration
// ---------------------------------------------------------------------------

/// Whether `i` is the first asset with the given identifier.
pub open spec fn first_asset_at(p: ProjectV, aid: Id, i: int) -> bool {
    0 <= i < p.assets.len() && p.assets[i].id == aid && forall|j: int|
        0 <= j < i ==> p.assets[j].id != aid
}

/// The first asset with the given identifier.
pub open spec fn find_asset_spec(p: ProjectV, aid: Id) -> Option<int> {
    if exists|i: int| first_asset_at(p, aid, i) {
        Some(choose|i: int| first_asset_at(p, aid, i))
    } else {
        None
    }
}

/// First assets are unique.
pub proof fn lemma_find_asset_is(p: ProjectV, aid: Id, i: int)
    requires
        first_asset_at(p, aid, i),
    ensures
        find_asset_spec(p, aid) == Some(i),
{
    let k = choose|i: int| first_asset_at(p, aid, i);
    if k < i {
        assert(p.assets[k].id == aid);
        assert(false);
    } else if i < k {
        assert(p.assets[i].id == aid);
        assert(false);
    }
}

/// The asset identifier of an item that references one (the
/// registration lists never hold text overlays).
pub open spec fn item_asset(item: ItemV) -> Id {
    item.asset_id().unwrap()
}

/// The filesystem path an item renders from.
pub open spec fn item_path(p: ProjectV, item: ItemV) -> Seq<char> {
    p.assets[find_asset_spec(p, item_asset(item)).unwrap()].path
}

/// Register the distinct asset paths of the items in order: each item's
/// asset is resolved by identifier, a missing asset aborts with that
/// identifier, and each distinct path is kept once, in first-use order.
pub open spec fn collect_paths(p: ProjectV, items: Seq<ItemV>, acc: Seq<Seq<char>>) -> Result<
    Seq<Seq<char>>,
    Id,
>
    decreases items.len(),
{
    if items.len() == 0 {
        Ok(acc)
    } else {
        let aid = item_asset(items[0]);
        match find_asset_spec(p, aid) {
            None => Err(aid),
            Some(k) => {
                let path = p.assets[k].path;
                let acc2 = if acc.contains(path) {
                    acc
                } else {
                    acc.push(path)
                };
                collect_paths(p, items.drop_first(), acc2)
            },
        }
    }
}

/// A successful registration resolves every item's asset.
pub proof fn lemma_collect_ok_assets(p: ProjectV, items: Seq<ItemV>, acc: Seq<Seq<char>>)
    requires
        collect_paths(p, items, acc) is Ok,
    ensures
        forall|i: int|
            0 <= i < items.len() ==> find_asset_spec(p, item_asset(#[trigger] items[i])) is Some,
        forall|i: int|
            0 <= i < items.len() ==> collect_paths(p, items, acc).unwrap().contains(
                item_path(p, #[trigger] items[i]),
            ),
        forall|x: Seq<char>|
            acc.contains(x) ==> collect_paths(p, items, acc).unwrap().contains(x),
    decreases items.len(),
{
    if items.len() > 0 {
        let aid = item_asset(items[0]);
        let k = find_asset_spec(p, aid).unwrap();
        let path = p.assets[k].path;
        let acc2 = if acc.contains(path) {
            acc
        } else {
            acc.push(path)
        };
        lemma_collect_ok_assets(p, items.drop_first(), acc2);
        assert forall|x: Seq<char>| acc.contains(x) implies collect_paths(
            p,
            items,
            acc,
        ).unwrap().contains(x) by {
            if !acc.contains(path) {
                let w = choose|w: int| 0 <= w < acc.len() && acc[w] == x;
                assert(acc2[w] == x);
                assert(acc2.contains(x));
            }
        }
        assert(acc2.contains(path)) by {
            if !acc.contains(path) {
                assert(acc2[acc2.len() - 1] == path);
            }
        }
        assert forall|i: int|
            0 <= i < items.len() implies find_asset_spec(p, item_asset(#[trigger] items[i]))
            is Some by {
            if i > 0 {
                assert(items.drop_first()[i - 1] == items[i]);
            }
        }
        assert forall|i: int|
            0 <= i < items.len() implies collect_paths(p, items, acc).unwrap().contains(
            item_path(p, #[trigger] items[i]),
        ) by {
            if i > 0 {
                assert(items.drop_first()[i - 1] == items[i]);
            }
        }
    }
}

/// Every item of the item sequences the compiler registers references an
/// asset.
pub open spec fn all_with_asset(s: Seq<ItemV>) -> bool {
    forall|i: int| 0 <= i < s.len() ==> (#[trigger] s[i]).asset_id() is Some
}

/// Video-clip filtering yields items with assets.
pub proof fn lemma_filter_video_assets(s: Seq<ItemV>)
    ensures
        all_with_asset(filter_video(s)),
        forall|i: int| 0 <= i < filter_video(s).len() ==> (#[trigger] filter_video(s)[i]) is VideoClip,
    decreases s.len(),
{
    if s.len() > 0 {
        lemma_filter_video_assets(s.drop_last());
    }
}

/// Audio-clip filtering yields items with assets.
pub proof fn lemma_filter_audio_assets(s: Seq<ItemV>)
    ensures
        all_with_asset(filter_audio(s)),
        forall|i: int| 0 <= i < filter_audio(s).len() ==> (#[trigger] filter_audio(s)[i]) is AudioClip,
    decreases s.len(),
{
    if s.len() > 0 {
        lemma_filter_audio_assets(s.drop_last());
    }
}

/// Image-overlay filtering yields items with assets.
pub proof fn lemma_filter_image_assets(s: Seq<ItemV>)
    ensures
        all_with_asset(filter_image(s)),
        forall|i: int|
            0 <= i < filter_image(s).len() ==> (#[trigger] filter_image(s)[i]) is ImageOverlay,
    decreases s.len(),
{
    if s.len() > 0 {
        lemma_filter_image_assets(s.drop_last());
    }
}

/// Picture-in-picture collection yields video clips with assets.
pub proof fn lemma_pip_items_assets(tracks: Seq<TrackV>, primary: int)
    ensures
        all_with_asset(pip_items(tracks, primary)),
        forall|i: int|
            0 <= i < pip_items(tracks, primary).len() ==> (#[trigger] pip_items(tracks, primary)[i])
                is VideoClip,
    decreases tracks.len(),
{
    if tracks.len() > 0 {
        lemma_pip_items_assets(tracks.drop_last(), primary);
        lemma_filter_video_assets(tracks.last().items);
    }
}

/// Image-overlay collection yields overlays with assets.
pub proof fn lemma_image_items_assets(tracks: Seq<TrackV>)
    ensures
        all_with_asset(image_items(tracks)),
        forall|i: int|
            0 <= i < image_items(tracks).len() ==> (#[trigger] image_items(tracks)[i])
                is ImageOverlay,
    decreases tracks.len(),
{
    if tracks.len() > 0 {
        lemma_image_items_assets(tracks.drop_last());
        lemma_filter_image_assets(tracks.last().items);
    }
}

/// Audio collection yields audio clips with assets.
pub proof fn lemma_audio_items_assets(tracks: Seq<TrackV>)
    ensures
        all_with_asset(audio_items(tracks)),
        forall|i: int|
            0 <= i < audio_items(tracks).len() ==> (#[trigger] audio_items(tracks)[i])
                is AudioClip,
    decreases tracks.len(),
{
    if tracks.len() > 0 {
        lemma_audio_items_assets(tracks.drop_last());
        lemma_filter_audio_assets(tracks.last().items);
    }
}

/// The stable sort keeps every element property that does not depend on
/// position: here, being an asset-referencing clip of a given shape.
pub proof fn lemma_sort_preserves_video(s: Seq<ItemV>)
    requires
        forall|i: int| 0 <= i < s.len() ==> (#[trigger] s[i]) is VideoClip,
    ensures
        forall|i: int|
            0 <= i < sort_by_start(s).len() ==> (#[trigger] sort_by_start(s)[i]) is VideoClip,
        all_with_asset(sort_by_start(s)) <== all_with_asset(s),
        sort_by_start(s).len() == s.len(),
    decreases s.len(),
{
    lemma_sort_elements(s);
}

/// Every element of the sort is an element of the input, and the lengths
/// agree.
pub proof fn lemma_sort_elements(s: Seq<ItemV>)
    ensures
        sort_by_start(s).len() == s.len(),
        forall|i: int|
            0 <= i < sort_by_start(s).len() ==> s.contains(#[trigger] sort_by_start(s)[i]),
    decreases s.len(),
{
    if s.len() > 0 {
        let t = s.drop_last();
        lemma_sort_elements(t);
        lemma_sort_by_start_sorted(t);
        let sorted = sort_by_start(t);
        let x = s.last();
        let pos = choose_insert_pos(sorted, x);
        lemma_choose_insert_pos(sorted, x);
        lemma_insert_by_start(sorted, x, pos);
        sorted.insert_ensures(pos, x);
        assert forall|i: int|
            0 <= i < sort_by_start(s).len() implies s.contains(#[trigger] sort_by_start(s)[i]) by {
            let v = sort_by_start(s)[i];
            if i < pos {
                assert(v == sorted[i]);
                assert(t.contains(v));
                let w = choose|w: int| 0 <= w < t.len() && t[w] == v;
                assert(s[w] == v);
            } else if i == pos {
                assert(v == x);
                assert(s[s.len() - 1] == v);
            } else {
                assert(v == sorted[i - 1]);
                assert(t.contains(v));
                let w = choose|w: int| 0 <= w < t.len() && t[w] == v;
                assert(s[w] == v);
            }
        }
    }
}

// ---------------------------------------------------------------------------
// Exec layer: collection
// ---------------------------------------------------------------------------

impl Project {
    /// Borrow the first asset with the given identifier.
    fn find_asset(&self, aid: Id) -> (r: Option<&crate::types::Asset>)
        ensures
            match r {
                Some(a) => find_asset_spec(self@, aid) matches Some(k) && a@ == self@.assets[k],
                None => find_asset_spec(self@, aid) is None,
            },
    {
        let n = self.assets.len();
        let mut i: usize = 0;
        while i < n
            invariant
                n == self.assets@.len(),
                0 <= i <= n,
                forall|j: int| 0 <= j < i ==> self@.assets[j].id != aid,
            decreases n - i,
        {
            if self.assets[i].id == aid {
                proof {
                    assert(self@.assets[i as int] == self.assets@[i as int]@);
                    assert(first_asset_at(self@, aid, i as int));
                    lemma_find_asset_is(self@, aid, i as int);
                }
                let a = &self.assets[i];
                proof {
                    assert(a@ == self@.assets[i as int]);
                }
                return Some(a);
            }
            i += 1;
        }
        proof {
            assert forall|i2: int| !first_asset_at(self@, aid, i2) by {}
        }
        None
    }
}

/// Collect the video clips of one track, order kept.
fn collect_video(items: &Vec<Item>) -> (r: Vec<Item>)
    ensures
        r.deep_view() == filter_video(items.deep_view()),
{
    let n = items.len();
    let mut out: Vec<Item> = Vec::new();
    let mut i: usize = 0;
    while i < n
        invariant
            n == items@.len(),
            0 <= i <= n,
            out.deep_view() == filter_video(items.deep_view().subrange(0, i as int)),
        decreases n - i,
    {
        let ghost prefix = items.deep_view().subrange(0, i as int);
        let keep = match &items[i] {
            Item::VideoClip { .. } => true,
            _ => false,
        };
        if keep {
            let ghost pre = out.deep_view();
            out.push(items[i].clone());
            proof {
                assert(out.deep_view() =~~= pre.push(items.deep_view()[i as int]));
            }
        }
        proof {
            assert(items.deep_view().subrange(0, i + 1).drop_last() =~= prefix);
            assert(items.deep_view().subrange(0, i + 1).last() == items.deep_view()[i as int]);
            assert(out.deep_view() =~= filter_video(items.deep_view().subrange(0, i + 1)));
        }
        i += 1;
    }
    proof {
        assert(items.deep_view().subrange(0, n as int) =~= items.deep_view());
    }
    out
}

/// Collect the picture-in-picture clips: video clips of every video
/// track other than the primary one.
fn collect_pip(tracks: &Vec<crate::types::Track>, primary: usize) -> (r: Vec<Item>)
    ensures
        r.deep_view() == pip_items(tracks.deep_view(), primary as int),
{
    let n = tracks.len();
    let mut out: Vec<Item> = Vec::new();
    let mut t: usize = 0;
    while t < n
        invariant
            n == tracks@.len(),
            0 <= t <= n,
            out.deep_view() == pip_items(tracks.deep_view().subrange(0, t as int), primary as int),
        decreases n - t,
    {
        let ghost prefix = tracks.deep_view().subrange(0, t as int);
        if tracks[t].kind == TrackKind::Video && t != primary {
            let mut clips = collect_video(&tracks[t].items);
            let ghost pre = out.deep_view();
            let ghost add = clips.deep_view();
            out.append(&mut clips);
            proof {
                assert(tracks.deep_view()[t as int] == tracks@[t as int]@);
                assert(out.deep_view() =~~= pre + add);
            }
        }
        proof {
            assert(tracks.deep_view().subrange(0, t + 1).drop_last() =~= prefix);
            assert(tracks.deep_view().subrange(0, t + 1).last() == tracks.deep_view()[t as int]);
            assert(tracks.deep_view()[t as int] == tracks@[t as int]@);
            assert(out.deep_view() =~= pip_items(
                tracks.deep_view().subrange(0, t + 1),
                primary as int,
            ));
        }
        t += 1;
    }
    proof {
        assert(tracks.deep_view().subrange(0, n as int) =~= tracks.deep_view());
    }
    out
}

/// Collect every image overlay of the image-overlay tracks.
fn collect_images(tracks: &Vec<crate::types::Track>) -> (r: Vec<Item>)
    ensures
        r.deep_view() == image_items(tracks.deep_view()),
{
    let n = tracks.len();
    let mut out: Vec<Item> = Vec::new();
    let mut t: usize = 0;
    while t < n
        invariant
            n == tracks@.len(),
            0 <= t <= n,
            out.deep_view() == image_items(tracks.deep_view().subrange(0, t as int)),
        decreases n - t,
    {
        let ghost prefix = tracks.deep_view().subrange(0, t as int);
        if tracks[t].kind == TrackKind::OverlayImage {
            let mut ovs = collect_image_items(&tracks[t].items);
            let ghost pre = out.deep_view();
            let ghost add = ovs.deep_view();
            out.append(&mut ovs);
            proof {
                assert(tracks.deep_view()[t as int] == tracks@[t as int]@);
                assert(out.deep_view() =~~= pre + add);
            }
        }
        proof {
            assert(tracks.deep_view().subrange(0, t + 1).drop_last() =~= prefix);
            assert(tracks.deep_view().subrange(0, t + 1).last() == tracks.deep_view()[t as int]);
            assert(tracks.deep_view()[t as int] == tracks@[t as int]@);
            assert(out.deep_view() =~= image_items(tracks.deep_view().subrange(0, t + 1)));
        }
        t += 1;
    }
    proof {
        assert(tracks.deep_view().subrange(0, n as int) =~= tracks.deep_view());
    }
    out
}

/// Collect every audio clip of the audio tracks.
fn collect_audio(tracks: &Vec<crate::types::Track>) -> (r: Vec<Item>)
    ensures
        r.deep_view() == audio_items(tracks.deep_view()),
{
    let n = tracks.len();
    let mut out: Vec<Item> = Vec::new();
    let mut t: usize = 0;
    while t < n
        invariant
            n == tracks@.len(),
            0 <= t <= n,
            out.deep_view() == audio_items(tracks.deep_view().subrange(0, t as int)),
        decreases n - t,
    {
        let ghost prefix = tracks.deep_view().subrange(0, t as int);
        if tracks[t].kind == TrackKind::Audio {
            let mut clips = collect_audio_items(&tracks[t].items);
            let ghost pre = out.deep_view();
            let ghost add = clips.deep_view();
            out.append(&mut clips);
            proof {
                assert(tracks.deep_view()[t as int] == tracks@[t as int]@);
                assert(out.deep_view() =~~= pre + add);
            }
        }
        proof {
            assert(tracks.deep_view().subrange(0, t + 1).drop_last() =~= prefix);
            assert(tracks.deep_view().subrange(0, t + 1).last() == tracks.deep_view()[t as int]);
            assert(tracks.deep_view()[t as int] == tracks@[t as int]@);
            assert(out.deep_view() =~= audio_items(tracks.deep_view().subrange(0, t + 1)));
        }
        t += 1;
    }
    proof {
        assert(tracks.deep_view().subrange(0, n as int) =~= tracks.deep_view());
    }
    out
}

/// Collect every text overlay of the text-overlay tracks.
fn collect_texts(tracks: &Vec<crate::types::Track>) -> (r: Vec<Item>)
    ensures
        r.deep_view() == text_items(tracks.deep_view()),
{
    let n = tracks.len();
    let mut out: Vec<Item> = Vec::new();
    let mut t: usize = 0;
    while t < n
        invariant
            n == tracks@.len(),
            0 <= t <= n,
            out.deep_view() == text_items(tracks.deep_view().subrange(0, t as int)),
        decreases n - t,
    {
        let ghost prefix = tracks.deep_view().subrange(0, t as int);
        if tracks[t].kind == TrackKind::OverlayText {
            let mut ovs = collect_text_items(&tracks[t].items);
            let ghost pre = out.deep_view();
            let ghost add = ovs.deep_view();
            out.append(&mut ovs);
            proof {
                assert(tracks.deep_view()[t as int] == tracks@[t as int]@);
                assert(out.deep_view() =~~= pre + add);
            }
        }
        proof {
            assert(tracks.deep_view().subrange(0, t + 1).drop_last() =~= prefix);
            assert(tracks.deep_view().subrange(0, t + 1).last() == tracks.deep_view()[t as int]);
            assert(tracks.deep_view()[t as int] == tracks@[t as int]@);
            assert(out.deep_view() =~= text_items(tracks.deep_view().subrange(0, t + 1)));
        }
        t += 1;
    }
    proof {
        assert(tracks.deep_view().subrange(0, n as int) =~= tracks.deep_view());
    }
    out
}

/// Collect the audio clips of one track, order kept.
fn collect_audio_items(items: &Vec<Item>) -> (r: Vec<Item>)
    ensures
        r.deep_view() == filter_audio(items.deep_view()),
{
    let n = items.len();
    let mut out: Vec<Item> = Vec::new();
    let mut i: usize = 0;
    while i < n
        invariant
            n == items@.len(),
            0 <= i <= n,
            out.deep_view() == filter_audio(items.deep_view().subrange(0, i as int)),
        decreases n - i,
    {
        let ghost prefix = items.deep_view().subrange(0, i as int);
        let keep = match &items[i] {
            Item::AudioClip { .. } => true,
            _ => false,
        };
        if keep {
            let ghost pre = out.deep_view();
            out.push(items[i].clone());
            proof {
                assert(out.deep_view() =~~= pre.push(items.deep_view()[i as int]));
            }
        }
        proof {
            assert(items.deep_view().subrange(0, i + 1).drop_last() =~= prefix);
            assert(items.deep_view().subrange(0, i + 1).last() == items.deep_view()[i as int]);
            assert(out.deep_view() =~= filter_audio(items.deep_view().subrange(0, i + 1)));
        }
        i += 1;
    }
    proof {
        assert(items.deep_view().subrange(0, n as int) =~= items.deep_view());
    }
    out
}

/// Collect the image overlays of one track, order kept.
fn collect_image_items(items: &Vec<Item>) -> (r: Vec<Item>)
    ensures
        r.deep_view() == filter_image(items.deep_view()),
{
    let n = items.len();
    let mut out: Vec<Item> = Vec::new();
    let mut i: usize = 0;
    while i < n
        invariant
            n == items@.len(),
            0 <= i <= n,
            out.deep_view() == filter_image(items.deep_view().subrange(0, i as int)),
        decreases n - i,
    {
        let ghost prefix = items.deep_view().subrange(0, i as int);
        let keep = match &items[i] {
            Item::ImageOverlay { .. } => true,
            _ => false,
        };
        if keep {
            let ghost pre = out.deep_view();
            out.push(items[i].clone());
            proof {
                assert(out.deep_view() =~~= pre.push(items.deep_view()[i as int]));
            }
        }
        proof {
            assert(items.deep_view().subrange(0, i + 1).drop_last() =~= prefix);
            assert(items.deep_view().subrange(0, i + 1).last() == items.deep_view()[i as int]);
            assert(out.deep_view() =~= filter_image(items.deep_view().subrange(0, i + 1)));
        }
        i += 1;
    }
    proof {
        assert(items.deep_view().subrange(0, n as int) =~= items.deep_view());
    }
    out
}

/// Collect the text overlays of one track, order kept.
fn collect_text_items(items: &Vec<Item>) -> (r: Vec<Item>)
    ensures
        r.deep_view() == filter_text(items.deep_view()),
{
    let n = items.len();
    let mut out: Vec<Item> = Vec::new();
    let mut i: usize = 0;
    while i < n
        invariant
            n == items@.len(),
            0 <= i <= n,
            out.deep_view() == filter_text(items.deep_view().subrange(0, i as int)),
        decreases n - i,
    {
        let ghost prefix = items.deep_view().subrange(0, i as int);
        let keep = match &items[i] {
            Item::TextOverlay { .. } => true,
            _ => false,
        };
        if keep {
            let ghost pre = out.deep_view();
            out.push(items[i].clone());
            proof {
                assert(out.deep_view() =~~= pre.push(items.deep_view()[i as int]));
            }
        }
        proof {
            assert(items.deep_view().subrange(0, i + 1).drop_last() =~= prefix);
            assert(items.deep_view().subrange(0, i + 1).last() == items.deep_view()[i as int]);
            assert(out.deep_view() =~= filter_text(items.deep_view().subrange(0, i + 1)));
        }
        i += 1;
    }
    proof {
        assert(items.deep_view().subrange(0, n as int) =~= items.deep_view());
    }
    out
}

// ---------------------------------------------------------------------------
// Spec layer: the filter graph text
// ---------------------------------------------------------------------------

/// The paths of an input list, in order.
pub open spec fn paths_of(inputs: Seq<RenderInputV>) -> Seq<Seq<char>> {
    Seq::new(inputs.len(), |i: int| inputs[i].path)
}

/// Whether `i` is the first input carrying the given path.
pub open spec fn first_path_at(paths: Seq<Seq<char>>, path: Seq<char>, i: int) -> bool {
    0 <= i < paths.len() && paths[i] == path && forall|j: int| 0 <= j < i ==> paths[j] != path
}

/// The input index of a path: its first position in the input list.
pub open spec fn path_index(paths: Seq<Seq<char>>, path: Seq<char>) -> int {
    choose|i: int| first_path_at(paths, path, i)
}

/// First positions are unique.
pub proof fn lemma_path_index_is(paths: Seq<Seq<char>>, path: Seq<char>, i: int)
    requires
        first_path_at(paths, path, i),
    ensures
        path_index(paths, path) == i,
{
    let k = path_index(paths, path);
    assert(first_path_at(paths, path, i));
    if first_path_at(paths, path, k) {
        if k < i {
            assert(paths[k] == path);
            assert(false);
        } else if i < k {
            assert(paths[i] == path);
            assert(false);
        }
    }
}

/// The letterbox scale suffix of a primary clip: present exactly when
/// the probed dimensions differ from the project's output dimensions.
pub open spec fn scale_part(p: ProjectV, item: ItemV) -> Seq<char> {
    let a = p.assets[find_asset_spec(p, item_asset(item)).unwrap()];
    let needs = match a.probe {
        Some(pr) => pr.width != p.settings.width || pr.height != p.settings.height,
        None => false,
    };
    if needs {
        ",scale="@ + dec_nat(p.settings.width as int) + ":"@ + dec_nat(p.settings.height as int)
            + ":force_original_aspect_ratio=decrease,pad="@ + dec_nat(p.settings.width as int)
            + ":"@ + dec_nat(p.settings.height as int) + ":(ow-iw)/2:(oh-ih)/2"@
    } else {
        Seq::empty()
    }
}

/// The source window of a clip item.
pub open spec fn clip_src_in(item: ItemV) -> int {
    match item {
        ItemV::VideoClip { src_in, .. } => src_in,
        ItemV::AudioClip { src_in, .. } => src_in,
        _ => 0,
    }
}

/// The source out-point of a clip item.
pub open spec fn clip_src_out(item: ItemV) -> int {
    match item {
        ItemV::VideoClip { src_out, .. } => src_out,
        ItemV::AudioClip { src_out, .. } => src_out,
        _ => 0,
    }
}

/// The trim/setpts/scale stage of primary clip `i`'s video sub-stream.
pub open spec fn clip_video_entry(p: ProjectV, paths: Seq<Seq<char>>, item: ItemV, i: int) -> Seq<
    char,
> {
    "["@ + dec_nat(path_index(paths, item_path(p, item))) + ":v]trim=start="@ + sec_text(
        clip_src_in(item),
    ) + ":end="@ + sec_text(clip_src_out(item)) + ",setpts=PTS-STARTPTS"@ + scale_part(p, item)
        + "[v"@ + dec_nat(i) + "]"@
}

/// The atrim/asetpts stage of primary clip `i`'s audio sub-stream.
pub open spec fn clip_audio_entry(p: ProjectV, paths: Seq<Seq<char>>, item: ItemV, i: int) -> Seq<
    char,
> {
    "["@ + dec_nat(path_index(paths, item_path(p, item))) + ":a]atrim=start="@ + sec_text(
        clip_src_in(item),
    ) + ":end="@ + sec_text(clip_src_out(item)) + ",asetpts=PTS-STARTPTS[a"@ + dec_nat(i) + "]"@
}

/// The trim stages of all primary clips, video and audio interleaved.
pub open spec fn clip_entries(p: ProjectV, paths: Seq<Seq<char>>, clips: Seq<ItemV>) -> Seq<
    Seq<char>,
>
    decreases clips.len(),
{
    if clips.len() == 0 {
        Seq::empty()
    } else {
        clip_entries(p, paths, clips.drop_last()) + seq![
            clip_video_entry(p, paths, clips.last(), clips.len() - 1),
            clip_audio_entry(p, paths, clips.last(), clips.len() - 1),
        ]
    }
}

/// The `[v0][a0][v1][a1]...` pair list feeding the concat stage.
pub open spec fn concat_pairs(n: int) -> Seq<char>
    decreases n,
{
    if n <= 0 {
        Seq::empty()
    } else {
        concat_pairs(n - 1) + "[v"@ + dec_nat(n - 1) + "][a"@ + dec_nat(n - 1) + "]"@
    }
}

/// The concat stage joining all primary clips into the base stream.
pub open spec fn concat_entry(n: int, cv: Seq<char>, ca: Seq<char>) -> Seq<char> {
    concat_pairs(n) + "concat=n="@ + dec_nat(n) + ":v=1:a=1["@ + cv + "]["@ + ca + "]"@
}

/// A chained label `pip_{i}`.
pub open spec fn label_pip(i: int) -> Seq<char> {
    "pip_"@ + dec_nat(i)
}

/// The two stages of picture-in-picture overlay `i`: trim+scale, then a
/// time-gated composite onto the running video stream.
pub open spec fn pip_entry_pair(
    p: ProjectV,
    paths: Seq<Seq<char>>,
    item: ItemV,
    i: int,
    total: int,
    width: u32,
    height: u32,
    base: Seq<char>,
    out_label: Seq<char>,
) -> Seq<Seq<char>> {
    let pw = width as int / 4;
    let ph = height as int / 4;
    let px = width as int - pw - 20;
    let py = height as int - ph - 20;
    let cur = if i == 0 {
        base
    } else {
        label_pip(i - 1)
    };
    let next = if i == total - 1 {
        out_label
    } else {
        label_pip(i)
    };
    let scaled = "pip_scaled_"@ + dec_nat(i);
    seq![
        "["@ + dec_nat(path_index(paths, item_path(p, item))) + ":v]trim=start="@ + sec_text(
            clip_src_in(item),
        ) + ":end="@ + sec_text(clip_src_out(item)) + ",setpts=PTS-STARTPTS,scale="@ + dec_nat(pw)
            + ":"@ + dec_nat(ph) + "["@ + scaled + "]"@,
        "["@ + cur + "]["@ + scaled + "]overlay=x="@ + dec_nat(px) + ":y="@ + dec_nat(py)
            + ":enable='between(t,"@ + sec_text(item.start()) + ","@ + sec_text(
            item.start() + (clip_src_out(item) - clip_src_in(item)),
        ) + ")'["@ + next + "]"@,
    ]
}

/// The stages of all picture-in-picture overlays from index `i` on.
pub open spec fn pip_entries(
    p: ProjectV,
    paths: Seq<Seq<char>>,
    pips: Seq<ItemV>,
    i: int,
    width: u32,
    height: u32,
    base: Seq<char>,
    out_label: Seq<char>,
) -> Seq<Seq<char>>
    decreases pips.len() - i,
{
    if i < 0 || i >= pips.len() {
        Seq::empty()
    } else {
        pip_entry_pair(p, paths, pips[i], i, pips.len() as int, width, height, base, out_label)
            + pip_entries(p, paths, pips, i + 1, width, height, base, out_label)
    }
}

/// The trim/volume/fade/delay stage of overlay audio clip `i`.
pub open spec fn audio_entry(p: ProjectV, paths: Seq<Seq<char>>, item: ItemV, i: int) -> Seq<
    char,
> {
    let dur = clip_src_out(item) - clip_src_in(item);
    let fade_out_start = if dur - 100000 > 0 {
        dur - 100000
    } else {
        0
    };
    let delay_ms = crate::time::truncating_div(item.start(), 1000);
    let vol = match item {
        ItemV::AudioClip { volume_milli, .. } => volume_milli as int,
        _ => 0,
    };
    "["@ + dec_nat(path_index(paths, item_path(p, item))) + ":a]atrim=start="@ + sec_text(
        clip_src_in(item),
    ) + ":end="@ + sec_text(clip_src_out(item)) + ",asetpts=PTS-STARTPTS,volume="@ + milli_text(
        vol,
    ) + ",afade=t=in:d=0.1,afade=t=out:st="@ + sec_text(fade_out_start) + ":d=0.1,adelay="@
        + dec_int(delay_ms) + "|"@ + dec_int(delay_ms) + "[ovla"@ + dec_nat(i) + "]"@
}

/// The stages of all overlay audio clips.
pub open spec fn audio_entries(p: ProjectV, paths: Seq<Seq<char>>, audios: Seq<ItemV>) -> Seq<
    Seq<char>,
>
    decreases audios.len(),
{
    if audios.len() == 0 {
        Seq::empty()
    } else {
        audio_entries(p, paths, audios.drop_last()) + seq![
            audio_entry(p, paths, audios.last(), audios.len() - 1),
        ]
    }
}

/// The `[ovla0][ovla1]...` label list feeding the mix stage.
pub open spec fn ovla_labels(n: int) -> Seq<char>
    decreases n,
{
    if n <= 0 {
        Seq::empty()
    } else {
        ovla_labels(n - 1) + "[ovla"@ + dec_nat(n - 1) + "]"@
    }
}

/// The longest-duration mix of the base audio with every overlay clip.
pub open spec fn amix_entry(n: int, ca: Seq<char>) -> Seq<char> {
    "["@ + ca + "]"@ + ovla_labels(n) + "amix=inputs="@ + dec_nat(n + 1)
        + ":duration=longest:dropout_transition=0[outa]"@
}

/// A chained label `ov_{i}`.
pub open spec fn label_ov(i: int) -> Seq<char> {
    "ov_"@ + dec_nat(i)
}

/// The three stages of image overlay `i`: scale, opacity via an alpha
/// channel, and a time-gated composite onto the running video stream.
pub open spec fn image_entry_triple(
    p: ProjectV,
    paths: Seq<Seq<char>>,
    item: ItemV,
    i: int,
    total: int,
) -> Seq<Seq<char>> {
    let cur = if i == 0 {
        "basev"@
    } else {
        label_ov(i - 1)
    };
    let next = if i == total - 1 {
        "outv"@
    } else {
        label_ov(i)
    };
    let scaled = "img_scaled_"@ + dec_nat(i);
    let alpha = "img_alpha_"@ + dec_nat(i);
    let geometry = match item {
        ItemV::ImageOverlay { x, y, width, height, opacity_milli, .. } => (
            x as int,
            y as int,
            width as int,
            height as int,
            opacity_milli as int,
        ),
        _ => (0int, 0int, 0int, 0int, 0int),
    };
    seq![
        "["@ + dec_nat(path_index(paths, item_path(p, item))) + ":v]scale="@ + dec_nat(geometry.2)
            + ":"@ + dec_nat(geometry.3) + "["@ + scaled + "]"@,
        "["@ + scaled + "]format=rgba,colorchannelmixer=aa="@ + milli_text(geometry.4) + "["@
            + alpha + "]"@,
        "["@ + cur + "]["@ + alpha + "]overlay=x="@ + dec_int(geometry.0) + ":y="@ + dec_int(
            geometry.1,
        ) + ":enable='between(t,"@ + sec_text(item.start()) + ","@ + sec_text(item.end()) + ")'["@
            + next + "]"@,
    ]
}

/// The stages of all image overlays from index `i` on.
pub open spec fn image_entries(
    p: ProjectV,
    paths: Seq<Seq<char>>,
    images: Seq<ItemV>,
    i: int,
) -> Seq<Seq<char>>
    decreases images.len() - i,
{
    if i < 0 || i >= images.len() {
        Seq::empty()
    } else {
        image_entry_triple(p, paths, images[i], i, images.len() as int) + image_entries(
            p,
            paths,
            images,
            i + 1,
        )
    }
}

/// A text with every single quote escaped for the draw stage.
pub open spec fn escape_quotes(s: Seq<char>) -> Seq<char>
    decreases s.len(),
{
    if s.len() == 0 {
        Seq::empty()
    } else {
        escape_quotes(s.drop_last()) + (if s.last() == '\'' {
            seq!['\'', '\\', '\'', '\'']
        } else {
            seq![s.last()]
        })
    }
}

/// A color with a leading `#` removed.
pub open spec fn strip_hash(s: Seq<char>) -> Seq<char> {
    if s.len() > 0 && s[0] == '#' {
        s.drop_first()
    } else {
        s
    }
}

/// One time-gated draw stage of a text overlay.
pub open spec fn drawtext_item(item: ItemV) -> Seq<char> {
    match item {
        ItemV::TextOverlay { text, font_size, color, x, y, .. } => {
            "drawtext=text='"@ + escape_quotes(text) + "':fontsize="@ + dec_nat(font_size as int)
                + ":fontcolor=0x"@ + strip_hash(color) + ":x="@ + dec_int(x as int) + ":y="@
                + dec_int(y as int) + ":enable='between(t,"@ + sec_text(item.start()) + ","@
                + sec_text(item.end()) + ")'"@
        },
        _ => Seq::empty(),
    }
}

/// The comma-joined chain of all draw stages.
pub open spec fn drawtext_chain(texts: Seq<ItemV>) -> Seq<char>
    decreases texts.len(),
{
    if texts.len() == 0 {
        Seq::empty()
    } else if texts.len() == 1 {
        drawtext_item(texts[0])
    } else {
        drawtext_chain(texts.drop_last()) + ","@ + drawtext_item(texts.last())
    }
}

/// The draw stage appended after all video compositing.
pub open spec fn drawtext_entry(texts: Seq<ItemV>) -> Seq<char> {
    "[outv]"@ + drawtext_chain(texts) + "[outv_txt]"@
}

/// Filter entries joined with semicolons.
pub open spec fn join_sc(parts: Seq<Seq<char>>) -> Seq<char>
    decreases parts.len(),
{
    if parts.len() == 0 {
        Seq::empty()
    } else if parts.len() == 1 {
        parts[0]
    } else {
        join_sc(parts.drop_last()) + ";"@ + parts.last()
    }
}

/// The full entry list of the filter graph, in emission order.
pub open spec fn graph_entries(
    p: ProjectV,
    paths: Seq<Seq<char>>,
    clips: Seq<ItemV>,
    pips: Seq<ItemV>,
    images: Seq<ItemV>,
    audios: Seq<ItemV>,
    texts: Seq<ItemV>,
) -> Seq<Seq<char>> {
    let has_pip = pips.len() > 0;
    let has_img = images.len() > 0;
    let has_aud = audios.len() > 0;
    let has_text = texts.len() > 0;
    let cv = if has_pip {
        "concatv"@
    } else if has_img {
        "basev"@
    } else {
        "outv"@
    };
    let ca = if has_aud {
        "concat_a"@
    } else {
        "outa"@
    };
    let pip_out = if has_img {
        "basev"@
    } else {
        "outv"@
    };
    clip_entries(p, paths, clips) + seq![concat_entry(clips.len() as int, cv, ca)] + (if has_pip {
        seq![
            join_sc(
                pip_entries(p, paths, pips, 0, p.settings.width, p.settings.height, cv, pip_out),
            ),
        ]
    } else {
        Seq::empty()
    }) + (if has_aud {
        audio_entries(p, paths, audios) + seq![amix_entry(audios.len() as int, ca)]
    } else {
        Seq::empty()
    }) + (if has_img {
        image_entries(p, paths, images, 0)
    } else {
        Seq::empty()
    }) + (if has_text {
        seq![drawtext_entry(texts)]
    } else {
        Seq::empty()
    })
}

/// The output encoding arguments: H.264 at constant quality, AAC audio,
/// a 4:2:0 pixel format, and a constant frame rate matching the project
/// settings.
pub open spec fn output_args_spec(fps: u32, has_text: bool) -> Seq<Seq<char>> {
    seq![
        "-map"@,
        if has_text {
            "[outv_txt]"@
        } else {
            "[outv]"@
        },
        "-map"@,
        "[outa]"@,
        "-c:v"@,
        "libx264"@,
        "-crf"@,
        "23"@,
        "-c:a"@,
        "aac"@,
        "-b:a"@,
        "192k"@,
        "-ar"@,
        "48000"@,
        "-pix_fmt"@,
        "yuv420p"@,
        "-vsync"@,
        "cfr"@,
        "-r"@,
        dec_nat(fps as int),
    ]
}

/// The abstract error cases of compilation.
pub ghost enum CompileErr {
    NoClips,
    AssetNotFound(Id),
}

/// What `compile` produces for a project view: the whole plan, or the
/// error, as a function of the snapshot.
pub open spec fn spec_compile(p: ProjectV) -> Result<RenderPlanV, CompileErr> {
    match first_track_of_kind(p.timeline.tracks, TrackKind::Video) {
        None => Err(CompileErr::NoClips),
        Some(k) => {
            let clips = sort_by_start(filter_video(p.timeline.tracks[k].items));
            if clips.len() == 0 {
                Err(CompileErr::NoClips)
            } else {
                let pips = pip_items(p.timeline.tracks, k);
                let images = sort_by_start(image_items(p.timeline.tracks));
                let audios = sort_by_start(audio_items(p.timeline.tracks));
                let texts = text_items(p.timeline.tracks);
                let reg = clips + images + pips + audios;
                match collect_paths(p, reg, Seq::empty()) {
                    Err(aid) => Err(CompileErr::AssetNotFound(aid)),
                    Ok(paths) => Ok(
                        RenderPlanV {
                            inputs: Seq::new(
                                paths.len(),
                                |i: int| RenderInputV { path: paths[i], index: i },
                            ),
                            filter_graph: join_sc(
                                graph_entries(p, paths, clips, pips, images, audios, texts),
                            ),
                            output_args: output_args_spec(p.settings.fps, texts.len() > 0),
                            output_path: "output.mp4"@,
                        },
                    ),
                }
            }
        },
    }
}

/// The machine bound the picture-in-picture geometry needs: when
/// secondary video clips exist, a quarter frame plus the corner margin
/// fits inside the output frame.
pub open spec fn pip_geometry_ok(p: ProjectV) -> bool {
    match first_track_of_kind(p.timeline.tracks, TrackKind::Video) {
        None => true,
        Some(k) => pip_items(p.timeline.tracks, k).len() > 0 ==> p.settings.width as int / 4 + 20
            <= p.settings.width as int && p.settings.height as int / 4 + 20 <= p.settings.height as int,
    }
}

// ---------------------------------------------------------------------------
// Exec layer: the filter graph text
// ---------------------------------------------------------------------------

/// Every input's index is its position.
pub open spec fn inputs_wf(inputs: Seq<RenderInputV>) -> bool {
    forall|j: int| 0 <= j < inputs.len() ==> (#[trigger] inputs[j]).index == j
}

/// The input index of a registered path.
fn find_input(inputs: &Vec<RenderInput>, path: &String) -> (r: usize)
    requires
        paths_of(inputs.deep_view()).contains(path@),
    ensures
        r < inputs.deep_view().len(),
        path_index(paths_of(inputs.deep_view()), path@) == r as int,
{
    let ghost paths = paths_of(inputs.deep_view());
    let n = inputs.len();
    let mut j: usize = 0;
    while j < n
        invariant
            n == inputs@.len(),
            0 <= j <= n,
            paths == paths_of(inputs.deep_view()),
            paths_of(inputs.deep_view()).contains(path@),
            forall|x: int| 0 <= x < j ==> paths_of(inputs.deep_view())[x] != path@,
        decreases n - j,
    {
        if inputs[j].path.eq(path) {
            proof {
                assert(inputs.deep_view()[j as int] == inputs@[j as int]@);
                assert(first_path_at(paths, path@, j as int));
                lemma_path_index_is(paths, path@, j as int);
            }
            return j;
        }
        proof {
            assert(inputs.deep_view()[j as int] == inputs@[j as int]@);
            assert(paths_of(inputs.deep_view())[j as int] == inputs.deep_view()[j as int].path);
        }
        j += 1;
    }
    proof {
        let w = choose|w: int| 0 <= w < paths.len() && paths[w] == path@;
        assert(false);
    }
    0
}

/// The input index an item's asset resolves to.
fn item_input_index(project: &Project, inputs: &Vec<RenderInput>, item: &Item) -> (r: usize)
    requires
        item@.asset_id() is Some,
        find_asset_spec(project@, item_asset(item@)) is Some,
        paths_of(inputs.deep_view()).contains(item_path(project@, item@)),
    ensures
        r as int == path_index(paths_of(inputs.deep_view()), item_path(project@, item@)),
{
    let aid = match item.asset_id() {
        Some(aid) => aid,
        None => {
            proof {
                assert(false);
            }
            Id(0)
        },
    };
    let asset = match project.find_asset(aid) {
        Some(a) => a,
        None => {
            proof {
                assert(false);
            }
            loop
                invariant
                    false,
                decreases 0int,
            {
            }
        },
    };
    find_input(inputs, &asset.path)
}

/// Append the trim window `trim=start={in}:end={out}` text shared by the
/// clip stages.
fn push_window(out: &mut String, src_in: i64, src_out: i64)
    ensures
        final(out)@ == old(out)@ + sec_text(src_in as int) + ":end="@ + sec_text(src_out as int),
{
    push_sec(out, src_in as i128);
    out.append(":end=");
    push_sec(out, src_out as i128);
}

/// The source window of a clip item.
fn clip_window(item: &Item) -> (r: (i64, i64))
    ensures
        r.0 as int == clip_src_in(item@),
        r.1 as int == clip_src_out(item@),
{
    match item {
        Item::VideoClip { source_in_us, source_out_us, .. } => (source_in_us.0, source_out_us.0),
        Item::AudioClip { source_in_us, source_out_us, .. } => (source_in_us.0, source_out_us.0),
        _ => (0, 0),
    }
}

/// Build the video trim stage of primary clip `i`.
fn build_clip_video_entry(project: &Project, inputs: &Vec<RenderInput>, item: &Item, i: usize) -> (r:
    String)
    requires
        item@.asset_id() is Some,
        find_asset_spec(project@, item_asset(item@)) is Some,
        paths_of(inputs.deep_view()).contains(item_path(project@, item@)),
    ensures
        r@ == clip_video_entry(project@, paths_of(inputs.deep_view()), item@, i as int),
{
    let idx = item_input_index(project, inputs, item);
    let (src_in, src_out) = clip_window(item);
    let aid = match item.asset_id() {
        Some(aid) => aid,
        None => {
            proof {
                assert(false);
            }
            Id(0)
        },
    };
    let asset = match project.find_asset(aid) {
        Some(a) => a,
        None => {
            proof {
                assert(false);
            }
            loop
                invariant
                    false,
                decreases 0int,
            {
            }
        },
    };
    let needs_scale = match &asset.probe {
        Some(pr) => pr.width != project.settings.width || pr.height != project.settings.height,
        None => false,
    };
    let mut s = String::new();
    s.append("[");
    push_u64(&mut s, idx as u64);
    s.append(":v]trim=start=");
    push_window(&mut s, src_in, src_out);
    s.append(",setpts=PTS-STARTPTS");
    if needs_scale {
        s.append(",scale=");
        push_u64(&mut s, project.settings.width as u64);
        s.append(":");
        push_u64(&mut s, project.settings.height as u64);
        s.append(":force_original_aspect_ratio=decrease,pad=");
        push_u64(&mut s, project.settings.width as u64);
        s.append(":");
        push_u64(&mut s, project.settings.height as u64);
        s.append(":(ow-iw)/2:(oh-ih)/2");
    }
    s.append("[v");
    push_u64(&mut s, i as u64);
    s.append("]");
    proof {
        assert(s@ =~= clip_video_entry(project@, paths_of(inputs.deep_view()), item@, i as int));
    }
    s
}

/// Build the audio trim stage of primary clip `i`.
fn build_clip_audio_entry(project: &Project, inputs: &Vec<RenderInput>, item: &Item, i: usize) -> (r:
    String)
    requires
        item@.asset_id() is Some,
        find_asset_spec(project@, item_asset(item@)) is Some,
        paths_of(inputs.deep_view()).contains(item_path(project@, item@)),
    ensures
        r@ == clip_audio_entry(project@, paths_of(inputs.deep_view()), item@, i as int),
{
    let idx = item_input_index(project, inputs, item);
    let (src_in, src_out) = clip_window(item);
    let mut s = String::new();
    s.append("[");
    push_u64(&mut s, idx as u64);
    s.append(":a]atrim=start=");
    push_window(&mut s, src_in, src_out);
    s.append(",asetpts=PTS-STARTPTS[a");
    push_u64(&mut s, i as u64);
    s.append("]");
    proof {
        assert(s@ =~= clip_audio_entry(project@, paths_of(inputs.deep_view()), item@, i as int));
    }
    s
}

/// Build the concat stage over `n` primary clips.
fn build_concat_entry(n: usize, cv: &str, ca: &str) -> (r: String)
    ensures
        r@ == concat_entry(n as int, cv@, ca@),
{
    let mut s = String::new();
    let mut i: usize = 0;
    while i < n
        invariant
            0 <= i <= n,
            s@ == concat_pairs(i as int),
        decreases n - i,
    {
        s.append("[v");
        push_u64(&mut s, i as u64);
        s.append("][a");
        push_u64(&mut s, i as u64);
        s.append("]");
        proof {
            assert(s@ =~= concat_pairs(i as int + 1));
        }
        i += 1;
    }
    s.append("concat=n=");
    push_u64(&mut s, n as u64);
    s.append(":v=1:a=1[");
    s.append(cv);
    s.append("][");
    s.append(ca);
    s.append("]");
    proof {
        assert(s@ =~= concat_entry(n as int, cv@, ca@));
    }
    s
}

/// Build the two stages of picture-in-picture overlay `i` and push them.
#[verifier::rlimit(60)]
fn push_pip_pair(
    entries: &mut Vec<String>,
    project: &Project,
    inputs: &Vec<RenderInput>,
    item: &Item,
    i: usize,
    total: usize,
    base: &str,
    out_label: &str,
)
    requires
        item@.asset_id() is Some,
        find_asset_spec(project@, item_asset(item@)) is Some,
        paths_of(inputs.deep_view()).contains(item_path(project@, item@)),
        i < total,
        project@.settings.width as int / 4 + 20 <= project@.settings.width as int,
        project@.settings.height as int / 4 + 20 <= project@.settings.height as int,
    ensures
        final(entries).deep_view() == old(entries).deep_view() + pip_entry_pair(
            project@,
            paths_of(inputs.deep_view()),
            item@,
            i as int,
            total as int,
            project@.settings.width,
            project@.settings.height,
            base@,
            out_label@,
        ),
{
    let idx = item_input_index(project, inputs, item);
    let (src_in, src_out) = clip_window(item);
    let width = project.settings.width;
    let height = project.settings.height;
    let pw = width / 4;
    let ph = height / 4;
    let px = width - pw - 20;
    let py = height - ph - 20;
    let mut scaled = String::from_str("pip_scaled_");
    push_u64(&mut scaled, i as u64);
    let mut line1 = String::new();
    line1.append("[");
    push_u64(&mut line1, idx as u64);
    line1.append(":v]trim=start=");
    push_window(&mut line1, src_in, src_out);
    line1.append(",setpts=PTS-STARTPTS,scale=");
    push_u64(&mut line1, pw as u64);
    line1.append(":");
    push_u64(&mut line1, ph as u64);
    line1.append("[");
    line1.append(scaled.as_str());
    line1.append("]");
    let mut line2 = String::new();
    line2.append("[");
    if i == 0 {
        line2.append(base);
    } else {
        line2.append("pip_");
        push_u64(&mut line2, (i - 1) as u64);
    }
    line2.append("][");
    line2.append(scaled.as_str());
    line2.append("]overlay=x=");
    push_u64(&mut line2, px as u64);
    line2.append(":y=");
    push_u64(&mut line2, py as u64);
    line2.append(":enable='between(t,");
    let start = item.timeline_start_us();
    push_sec(&mut line2, start.0 as i128);
    line2.append(",");
    push_sec(&mut line2, start.0 as i128 + (src_out as i128 - src_in as i128));
    line2.append(")'[");
    if i == total - 1 {
        line2.append(out_label);
    } else {
        line2.append("pip_");
        push_u64(&mut line2, i as u64);
    }
    line2.append("]");
    let ghost pair = pip_entry_pair(
        project@,
        paths_of(inputs.deep_view()),
        item@,
        i as int,
        total as int,
        project@.settings.width,
        project@.settings.height,
        base@,
        out_label@,
    );
    proof {
        assert(line1@ =~= pair[0]);
        assert(line2@ =~= pair[1]);
    }
    let ghost pre = entries.deep_view();
    entries.push(line1);
    entries.push(line2);
    proof {
        assert(entries.deep_view() =~~= pre + pair);
    }
}

/// Build the trim/volume/fade/delay stage of overlay audio clip `i`.
fn build_audio_entry(project: &Project, inputs: &Vec<RenderInput>, item: &Item, i: usize) -> (r:
    String)
    requires
        item@.asset_id() is Some,
        find_asset_spec(project@, item_asset(item@)) is Some,
        paths_of(inputs.deep_view()).contains(item_path(project@, item@)),
    ensures
        r@ == audio_entry(project@, paths_of(inputs.deep_view()), item@, i as int),
{
    let idx = item_input_index(project, inputs, item);
    let (src_in, src_out) = clip_window(item);
    let volume_milli = match item {
        Item::AudioClip { volume_milli, .. } => *volume_milli,
        _ => 0,
    };
    let dur: i128 = src_out as i128 - src_in as i128;
    let fade_out_start: i128 = if dur - 100000 > 0 {
        dur - 100000
    } else {
        0
    };
    let start = item.timeline_start_us();
    let delay_ms = trunc_div_1000(start.0);
    let mut s = String::new();
    s.append("[");
    push_u64(&mut s, idx as u64);
    s.append(":a]atrim=start=");
    push_window(&mut s, src_in, src_out);
    s.append(",asetpts=PTS-STARTPTS,volume=");
    push_milli(&mut s, volume_milli);
    s.append(",afade=t=in:d=0.1,afade=t=out:st=");
    push_sec(&mut s, fade_out_start);
    s.append(":d=0.1,adelay=");
    push_i64(&mut s, delay_ms);
    s.append("|");
    push_i64(&mut s, delay_ms);
    s.append("[ovla");
    push_u64(&mut s, i as u64);
    s.append("]");
    proof {
        assert(s@ =~= audio_entry(project@, paths_of(inputs.deep_view()), item@, i as int));
    }
    s
}

/// Millisecond delay of a microsecond timestamp, truncating toward zero.
fn trunc_div_1000(v: i64) -> (r: i64)
    ensures
        r as int == crate::time::truncating_div(v as int, 1000),
{
    let neg = v < 0;
    let mag: u64 = if neg {
        (-(v as i128)) as u64
    } else {
        v as u64
    };
    let q = mag / 1000;
    if neg {
        -(q as i64)
    } else {
        q as i64
    }
}

/// Build the mix stage over `n` overlay audio clips.
fn build_amix_entry(n: usize, ca: &str) -> (r: String)
    ensures
        r@ == amix_entry(n as int, ca@),
{
    let mut s = String::new();
    s.append("[");
    s.append(ca);
    s.append("]");
    let mut i: usize = 0;
    while i < n
        invariant
            0 <= i <= n,
            s@ == "["@ + ca@ + "]"@ + ovla_labels(i as int),
        decreases n - i,
    {
        s.append("[ovla");
        push_u64(&mut s, i as u64);
        s.append("]");
        proof {
            assert(s@ =~= "["@ + ca@ + "]"@ + ovla_labels(i as int + 1));
        }
        i += 1;
    }
    s.append("amix=inputs=");
    let cnt = crate::strfmt::u128_string(n as u128 + 1);
    s.append(cnt.as_str());
    s.append(":duration=longest:dropout_transition=0[outa]");
    proof {
        assert(s@ =~= amix_entry(n as int, ca@));
    }
    s
}

/// Build the three stages of image overlay `i` and push them.
fn push_image_triple(
    entries: &mut Vec<String>,
    project: &Project,
    inputs: &Vec<RenderInput>,
    item: &Item,
    i: usize,
    total: usize,
)
    requires
        item@ is ImageOverlay,
        item@.asset_id() is Some,
        find_asset_spec(project@, item_asset(item@)) is Some,
        paths_of(inputs.deep_view()).contains(item_path(project@, item@)),
        i < total,
    ensures
        final(entries).deep_view() == old(entries).deep_view() + image_entry_triple(
            project@,
            paths_of(inputs.deep_view()),
            item@,
            i as int,
            total as int,
        ),
{
    let idx = item_input_index(project, inputs, item);
    let (x, y, width, height, opacity_milli, start, dur) = match item {
        Item::ImageOverlay { x, y, width, height, opacity_milli, timeline_start_us, duration_us, .. } => (
            *x,
            *y,
            *width,
            *height,
            *opacity_milli,
            *timeline_start_us,
            *duration_us,
        ),
        _ => {
            proof {
                assert(false);
            }
            (0, 0, 0, 0, 0, crate::time::TimeUs(0), crate::time::TimeUs(0))
        },
    };
    let mut scaled = String::from_str("img_scaled_");
    push_u64(&mut scaled, i as u64);
    let mut alpha = String::from_str("img_alpha_");
    push_u64(&mut alpha, i as u64);
    let mut line1 = String::new();
    line1.append("[");
    push_u64(&mut line1, idx as u64);
    line1.append(":v]scale=");
    push_u64(&mut line1, width as u64);
    line1.append(":");
    push_u64(&mut line1, height as u64);
    line1.append("[");
    line1.append(scaled.as_str());
    line1.append("]");
    let mut line2 = String::new();
    line2.append("[");
    line2.append(scaled.as_str());
    line2.append("]format=rgba,colorchannelmixer=aa=");
    push_milli(&mut line2, opacity_milli);
    line2.append("[");
    line2.append(alpha.as_str());
    line2.append("]");
    let mut line3 = String::new();
    line3.append("[");
    if i == 0 {
        line3.append("basev");
    } else {
        line3.append("ov_");
        push_u64(&mut line3, (i - 1) as u64);
    }
    line3.append("][");
    line3.append(alpha.as_str());
    line3.append("]overlay=x=");
    push_i64(&mut line3, x as i64);
    line3.append(":y=");
    push_i64(&mut line3, y as i64);
    line3.append(":enable='between(t,");
    push_sec(&mut line3, start.0 as i128);
    line3.append(",");
    push_sec(&mut line3, start.0 as i128 + dur.0 as i128);
    line3.append(")'[");
    if i == total - 1 {
        line3.append("outv");
    } else {
        line3.append("ov_");
        push_u64(&mut line3, i as u64);
    }
    line3.append("]");
    let ghost triple = image_entry_triple(
        project@,
        paths_of(inputs.deep_view()),
        item@,
        i as int,
        total as int,
    );
    proof {
        assert(line1@ =~= triple[0]);
        assert(line2@ =~= triple[1]);
        assert(line3@ =~= triple[2]);
    }
    let ghost pre = entries.deep_view();
    entries.push(line1);
    entries.push(line2);
    entries.push(line3);
    proof {
        assert(entries.deep_view() =~~= pre + triple);
    }
}

/// Escape every single quote in a draw-stage text.
fn escape_quotes_exec(s: &str) -> (r: String)
    ensures
        r@ == escape_quotes(s@),
{
    let n = s.unicode_len();
    let mut out = String::new();
    let mut i: usize = 0;
    while i < n
        invariant
            n == s@.len(),
            0 <= i <= n,
            out@ == escape_quotes(s@.subrange(0, i as int)),
        decreases n - i,
    {
        let ghost prefix = s@.subrange(0, i as int);
        let c = s.get_char(i);
        if c == '\'' {
            out.append("'\\''");
            proof {
                reveal_strlit("'\\''");
                assert("'\\''"@ =~= seq!['\'', '\\', '\'', '\'']);
            }
        } else {
            let piece = s.substring_char(i, i + 1);
            out.append(piece);
            proof {
                assert(piece@ =~= seq![s@[i as int]]);
            }
        }
        proof {
            assert(s@.subrange(0, i + 1).drop_last() =~= prefix);
            assert(s@.subrange(0, i + 1).last() == s@[i as int]);
            assert(out@ =~= escape_quotes(s@.subrange(0, i + 1)));
        }
        i += 1;
    }
    proof {
        assert(s@.subrange(0, n as int) =~= s@);
    }
    out
}

/// A color with a leading `#` removed.
fn strip_hash_exec(s: &str) -> (r: &str)
    ensures
        r@ == strip_hash(s@),
{
    let n = s.unicode_len();
    if n > 0 && s.get_char(0) == '#' {
        let r = s.substring_char(1, n);
        proof {
            assert(r@ =~= s@.drop_first());
        }
        r
    } else {
        s
    }
}

/// Build the chained draw stage over all text overlays.
fn build_drawtext_entry(texts: &Vec<Item>) -> (r: String)
    ensures
        r@ == drawtext_entry(texts.deep_view()),
{
    let mut chain = String::new();
    let n = texts.len();
    let mut i: usize = 0;
    while i < n
        invariant
            n == texts@.len(),
            0 <= i <= n,
            chain@ == drawtext_chain(texts.deep_view().subrange(0, i as int)),
        decreases n - i,
    {
        let ghost prefix = texts.deep_view().subrange(0, i as int);
        if i > 0 {
            chain.append(",");
        }
        let piece = build_drawtext_item(&texts[i]);
        chain.append(piece.as_str());
        proof {
            assert(texts.deep_view().subrange(0, i + 1).drop_last() =~= prefix);
            assert(texts.deep_view().subrange(0, i + 1).last() == texts.deep_view()[i as int]);
            assert(chain@ =~= drawtext_chain(texts.deep_view().subrange(0, i + 1)));
        }
        i += 1;
    }
    let mut s = String::from_str("[outv]");
    s.append(chain.as_str());
    s.append("[outv_txt]");
    proof {
        assert(texts.deep_view().subrange(0, n as int) =~= texts.deep_view());
        assert(s@ =~= drawtext_entry(texts.deep_view()));
    }
    s
}

/// Build one draw stage.
fn build_drawtext_item(item: &Item) -> (r: String)
    ensures
        r@ == drawtext_item(item@),
{
    let (text, font_size, color, x, y, start, dur) = match item {
        Item::TextOverlay { text, font_size, color, x, y, timeline_start_us, duration_us, .. } => (
            text,
            *font_size,
            color,
            *x,
            *y,
            *timeline_start_us,
            *duration_us,
        ),
        _ => {
            return String::new();
        },
    };
    let mut s = String::from_str("drawtext=text='");
    let esc = escape_quotes_exec(text.as_str());
    s.append(esc.as_str());
    s.append("':fontsize=");
    push_u64(&mut s, font_size as u64);
    s.append(":fontcolor=0x");
    s.append(strip_hash_exec(color.as_str()));
    s.append(":x=");
    push_i64(&mut s, x as i64);
    s.append(":y=");
    push_i64(&mut s, y as i64);
    s.append(":enable='between(t,");
    push_sec(&mut s, start.0 as i128);
    s.append(",");
    push_sec(&mut s, start.0 as i128 + dur.0 as i128);
    s.append(")'");
    proof {
        assert(s@ =~= drawtext_item(item@));
    }
    s
}

/// Join filter entries with semicolons.
fn join_semicolon(parts: &Vec<String>) -> (r: String)
    ensures
        r@ == join_sc(parts.deep_view()),
{
    let mut out = String::new();
    let n = parts.len();
    let mut i: usize = 0;
    while i < n
        invariant
            n == parts@.len(),
            0 <= i <= n,
            out@ == join_sc(parts.deep_view().subrange(0, i as int)),
        decreases n - i,
    {
        let ghost prefix = parts.deep_view().subrange(0, i as int);
        if i > 0 {
            out.append(";");
        }
        out.append(parts[i].as_str());
        proof {
            assert(parts.deep_view()[i as int] == parts@[i as int]@);
            assert(parts.deep_view().subrange(0, i + 1).drop_last() =~= prefix);
            assert(parts.deep_view().subrange(0, i + 1).last() == parts.deep_view()[i as int]);
            assert(out@ =~= join_sc(parts.deep_view().subrange(0, i + 1)));
        }
        i += 1;
    }
    proof {
        assert(parts.deep_view().subrange(0, n as int) =~= parts.deep_view());
    }
    out
}

// ---------------------------------------------------------------------------
// Exec layer: input registration and compilation
// ---------------------------------------------------------------------------

/// Registration distributes over concatenation, threading the
/// accumulated paths.
pub proof fn lemma_collect_paths_append(
    p: ProjectV,
    a: Seq<ItemV>,
    b: Seq<ItemV>,
    acc: Seq<Seq<char>>,
)
    ensures
        collect_paths(p, a + b, acc) == (match collect_paths(p, a, acc) {
            Ok(acc2) => collect_paths(p, b, acc2),
            Err(e) => Err(e),
        }),
    decreases a.len(),
{
    if a.len() == 0 {
        assert(a + b =~= b);
    } else {
        assert((a + b)[0] == a[0]);
        let aid = item_asset(a[0]);
        match find_asset_spec(p, aid) {
            None => {},
            Some(k) => {
                let path = p.assets[k].path;
                let acc2 = if acc.contains(path) {
                    acc
                } else {
                    acc.push(path)
                };
                assert((a + b).drop_first() =~= a.drop_first() + b);
                lemma_collect_paths_append(p, a.drop_first(), b, acc2);
            },
        }
    }
}

/// Register the assets of the given items into the input list,
/// deduplicating by path.
fn register_items(project: &Project, items: &Vec<Item>, inputs: &mut Vec<RenderInput>) -> (r:
    Result<(), RenderError>)
    requires
        all_with_asset(items.deep_view()),
        inputs_wf(old(inputs).deep_view()),
    ensures
        match r {
            Ok(()) => inputs_wf(final(inputs).deep_view()) && collect_paths(
                project@,
                items.deep_view(),
                paths_of(old(inputs).deep_view()),
            ) == Ok::<_, Id>(paths_of(final(inputs).deep_view())),
            Err(e) => e matches RenderError::AssetNotFound(aid) && collect_paths(
                project@,
                items.deep_view(),
                paths_of(old(inputs).deep_view()),
            ) == Err::<Seq<Seq<char>>, _>(aid),
        },
{
    let n = items.len();
    proof {
        assert(items.deep_view().subrange(0, n as int) =~= items.deep_view());
    }
    let mut i: usize = 0;
    while i < n
        invariant
            n == items@.len(),
            0 <= i <= n,
            all_with_asset(items.deep_view()),
            inputs_wf(inputs.deep_view()),
            collect_paths(
                project@,
                items.deep_view(),
                paths_of(old(inputs).deep_view()),
            ) == collect_paths(
                project@,
                items.deep_view().subrange(i as int, n as int),
                paths_of(inputs.deep_view()),
            ),
        decreases n - i,
    {
        let ghost rem = items.deep_view().subrange(i as int, n as int);
        let item = &items[i];
        proof {
            assert(item@ == items.deep_view()[i as int]);
            assert(rem[0] == items.deep_view()[i as int]);
        }
        let aid = match item.asset_id() {
            Some(aid) => aid,
            None => {
                proof {
                    assert(false);
                }
                Id(0)
            },
        };
        let asset = match project.find_asset(aid) {
            Some(a) => a,
            None => {
                return Err(RenderError::AssetNotFound(aid));
            },
        };
        let ghost path = asset.path@;
        let m = inputs.len();
        let mut j: usize = 0;
        let mut found = false;
        while j < m && !found
            invariant
                m == inputs@.len(),
                0 <= j <= m,
                path == asset.path@,
                found ==> j > 0 && paths_of(inputs.deep_view()).contains(path),
                !found ==> forall|x: int| 0 <= x < j ==> paths_of(inputs.deep_view())[x] != path,
            decreases m - j,
        {
            if inputs[j].path.eq(&asset.path) {
                proof {
                    assert(inputs.deep_view()[j as int] == inputs@[j as int]@);
                    assert(paths_of(inputs.deep_view())[j as int] == path);
                }
                found = true;
            } else {
                proof {
                    assert(inputs.deep_view()[j as int] == inputs@[j as int]@);
                    assert(paths_of(inputs.deep_view())[j as int] == inputs.deep_view()[
                        j as int
                    ].path);
                }
            }
            j += 1;
        }
        let ghost pre_inputs = inputs.deep_view();
        if !found {
            proof {
                assert forall|x: int|
                    0 <= x < paths_of(inputs.deep_view()).len() implies paths_of(
                    inputs.deep_view(),
                )[x] != path by {}
                if paths_of(inputs.deep_view()).contains(path) {
                    let w = choose|w: int|
                        0 <= w < paths_of(pre_inputs).len() && paths_of(pre_inputs)[w] == path;
                    assert(false);
                }
            }
            let idx = inputs.len();
            inputs.push(RenderInput { path: asset.path.clone(), index: idx });
            proof {
                assert(inputs.deep_view() =~~= pre_inputs.push(
                    RenderInputV { path, index: idx as int },
                ));
                assert(paths_of(inputs.deep_view()) =~= paths_of(pre_inputs).push(path));
                assert forall|x: int|
                    0 <= x < inputs.deep_view().len() implies (#[trigger] inputs.deep_view()[
                    x
                ]).index == x by {
                    if x < pre_inputs.len() {
                        assert(inputs.deep_view()[x] == pre_inputs[x]);
                    }
                }
            }
        } else {
            proof {
                assert(paths_of(inputs.deep_view()).contains(path));
            }
        }
        proof {
            assert(rem.drop_first() =~= items.deep_view().subrange(i + 1, n as int));
            assert(collect_paths(
                project@,
                items.deep_view().subrange(i + 1, n as int),
                paths_of(inputs.deep_view()),
            ) == collect_paths(project@, rem, paths_of(pre_inputs)));
        }
        i += 1;
    }
    proof {
        assert(items.deep_view().subrange(n as int, n as int) =~= Seq::<ItemV>::empty());
    }
    Ok(())
}

/// Build the graph's entry list from the collected and sorted item
/// lists, once every referenced asset is registered.
#[verifier::rlimit(100)]
fn build_graph_entries(
    project: &Project,
    inputs: &Vec<RenderInput>,
    clips: &Vec<Item>,
    pips: &Vec<Item>,
    images: &Vec<Item>,
    audios: &Vec<Item>,
    texts: &Vec<Item>,
) -> (r: Vec<String>)
    requires
        ({
            let p = project@;
            let paths = paths_of(inputs.deep_view());
            &&& clips.deep_view().len() > 0
            &&& (forall|x: int|
                0 <= x < clips.deep_view().len() ==> {
                    let it = #[trigger] clips.deep_view()[x];
                    find_asset_spec(p, item_asset(it)) is Some && paths.contains(item_path(p, it))
                        && it.asset_id() is Some
                })
            &&& (forall|x: int|
                0 <= x < pips.deep_view().len() ==> {
                    let it = #[trigger] pips.deep_view()[x];
                    find_asset_spec(p, item_asset(it)) is Some && paths.contains(item_path(p, it))
                        && it.asset_id() is Some
                })
            &&& (forall|x: int|
                0 <= x < images.deep_view().len() ==> {
                    let it = #[trigger] images.deep_view()[x];
                    find_asset_spec(p, item_asset(it)) is Some && paths.contains(item_path(p, it))
                        && it.asset_id() is Some && it is ImageOverlay
                })
            &&& (forall|x: int|
                0 <= x < audios.deep_view().len() ==> {
                    let it = #[trigger] audios.deep_view()[x];
                    find_asset_spec(p, item_asset(it)) is Some && paths.contains(item_path(p, it))
                        && it.asset_id() is Some
                })
            &&& (pips.deep_view().len() > 0 ==> project@.settings.width as int / 4 + 20
                <= project@.settings.width as int && project@.settings.height as int / 4 + 20
                <= project@.settings.height as int)
        }),
    ensures
        r.deep_view() == graph_entries(
            project@,
            paths_of(inputs.deep_view()),
            clips.deep_view(),
            pips.deep_view(),
            images.deep_view(),
            audios.deep_view(),
            texts.deep_view(),
        ),
{
    let ghost p = project@;
    let ghost paths = paths_of(inputs.deep_view());
    let ghost clips_v = clips.deep_view();
    let ghost pips_v = pips.deep_view();
    let ghost images_v = images.deep_view();
    let ghost audios_v = audios.deep_view();
    let ghost texts_v = texts.deep_view();
    let has_pip = pips.len() > 0;
    let has_img = images.len() > 0;
    let has_aud = audios.len() > 0;
    let has_text = texts.len() > 0;
    let cv: &str = if has_pip {
        "concatv"
    } else if has_img {
        "basev"
    } else {
        "outv"
    };
    let ca: &str = if has_aud {
        "concat_a"
    } else {
        "outa"
    };
    let pip_out: &str = if has_img {
        "basev"
    } else {
        "outv"
    };
    let mut entries: Vec<String> = Vec::new();
    let cn = clips.len();
    let mut i: usize = 0;
    while i < cn
        invariant
            cn == clips@.len(),
            0 <= i <= cn,
            p == project@,
            clips_v == clips.deep_view(),
            paths == paths_of(inputs.deep_view()),
            forall|x: int|
                0 <= x < clips_v.len() ==> find_asset_spec(p, item_asset(#[trigger] clips_v[x]))
                    is Some && paths.contains(item_path(p, clips_v[x])) && clips_v[x].asset_id()
                    is Some,
            entries.deep_view() == clip_entries(p, paths, clips_v.subrange(0, i as int)),
        decreases cn - i,
    {
        let ghost prefix = clips_v.subrange(0, i as int);
        proof {
            assert(clips.deep_view()[i as int] == clips@[i as int]@);
        }
        let e1 = build_clip_video_entry(project, &inputs, &clips[i], i);
        let e2 = build_clip_audio_entry(project, &inputs, &clips[i], i);
        let ghost pre = entries.deep_view();
        entries.push(e1);
        entries.push(e2);
        proof {
            assert(clips_v.subrange(0, i + 1).drop_last() =~= prefix);
            assert(clips_v.subrange(0, i + 1).last() == clips_v[i as int]);
            assert(entries.deep_view() =~~= clip_entries(p, paths, clips_v.subrange(0, i + 1)));
        }
        i += 1;
    }
    proof {
        assert(clips_v.subrange(0, cn as int) =~= clips_v);
    }
    let ghost entries1 = entries.deep_view();
    entries.push(build_concat_entry(cn, cv, ca));
    let ghost entries2 = entries.deep_view();
    proof {
        assert(entries2 =~~= entries1 + seq![concat_entry(cn as int, cv@, ca@)]);
    }
    if has_pip {
        let mut pip_entries_vec: Vec<String> = Vec::new();
        let pn = pips.len();
        let mut j: usize = 0;
        while j < pn
            invariant
                pn == pips@.len(),
                pn > 0,
                0 <= j <= pn,
                p == project@,
                pips_v == pips.deep_view(),
                paths == paths_of(inputs.deep_view()),
                project@.settings.width as int / 4 + 20 <= project@.settings.width as int,
                project@.settings.height as int / 4 + 20 <= project@.settings.height as int,
                forall|x: int|
                    0 <= x < pips_v.len() ==> find_asset_spec(p, item_asset(#[trigger] pips_v[x]))
                        is Some && paths.contains(item_path(p, pips_v[x])) && pips_v[x].asset_id()
                        is Some,
                pip_entries_vec.deep_view() + pip_entries(
                    p,
                    paths,
                    pips_v,
                    j as int,
                    p.settings.width,
                    p.settings.height,
                    cv@,
                    pip_out@,
                ) == pip_entries(
                    p,
                    paths,
                    pips_v,
                    0,
                    p.settings.width,
                    p.settings.height,
                    cv@,
                    pip_out@,
                ),
            decreases pn - j,
        {
            proof {
                assert(pips.deep_view()[j as int] == pips@[j as int]@);
            }
            let ghost pre = pip_entries_vec.deep_view();
            push_pip_pair(&mut pip_entries_vec, project, &inputs, &pips[j], j, pn, cv, pip_out);
            proof {
                let ghost pair = pip_entry_pair(
                    p,
                    paths,
                    pips_v[j as int],
                    j as int,
                    pn as int,
                    p.settings.width,
                    p.settings.height,
                    cv@,
                    pip_out@,
                );
                assert(pre + pair + pip_entries(
                    p,
                    paths,
                    pips_v,
                    j as int + 1,
                    p.settings.width,
                    p.settings.height,
                    cv@,
                    pip_out@,
                ) =~= pre + (pair + pip_entries(
                    p,
                    paths,
                    pips_v,
                    j as int + 1,
                    p.settings.width,
                    p.settings.height,
                    cv@,
                    pip_out@,
                )));
            }
            j += 1;
        }
        let section = join_semicolon(&pip_entries_vec);
        let ghost pre = entries.deep_view();
        entries.push(section);
        proof {
            assert(pip_entries(
                p,
                paths,
                pips_v,
                pn as int,
                p.settings.width,
                p.settings.height,
                cv@,
                pip_out@,
            ) =~= Seq::<Seq<char>>::empty());
            assert(entries.deep_view() =~~= pre + seq![
                join_sc(
                    pip_entries(
                        p,
                        paths,
                        pips_v,
                        0,
                        p.settings.width,
                        p.settings.height,
                        cv@,
                        pip_out@,
                    ),
                ),
            ]);
        }
    }
    let ghost entries3 = entries.deep_view();
    if has_aud {
        let an = audios.len();
        let mut j: usize = 0;
        while j < an
            invariant
                an == audios@.len(),
                0 <= j <= an,
                p == project@,
                audios_v == audios.deep_view(),
                paths == paths_of(inputs.deep_view()),
                forall|x: int|
                    0 <= x < audios_v.len() ==> find_asset_spec(
                        p,
                        item_asset(#[trigger] audios_v[x]),
                    ) is Some && paths.contains(item_path(p, audios_v[x])) && audios_v[x].asset_id()
                        is Some,
                entries.deep_view() == entries3 + audio_entries(
                    p,
                    paths,
                    audios_v.subrange(0, j as int),
                ),
            decreases an - j,
        {
            let ghost prefix = audios_v.subrange(0, j as int);
            proof {
                assert(audios.deep_view()[j as int] == audios@[j as int]@);
            }
            let e = build_audio_entry(project, &inputs, &audios[j], j);
            let ghost pre = entries.deep_view();
            entries.push(e);
            proof {
                assert(audios_v.subrange(0, j + 1).drop_last() =~= prefix);
                assert(audios_v.subrange(0, j + 1).last() == audios_v[j as int]);
                assert(entries.deep_view() =~~= pre.push(
                    audio_entry(p, paths, audios_v[j as int], j as int),
                ));
                assert(audio_entries(p, paths, audios_v.subrange(0, j + 1)) == audio_entries(
                    p,
                    paths,
                    prefix,
                ) + seq![audio_entry(p, paths, audios_v[j as int], j as int)]);
                assert(entries.deep_view() =~~= entries3 + audio_entries(
                    p,
                    paths,
                    audios_v.subrange(0, j + 1),
                ));
            }
            j += 1;
        }
        proof {
            assert(audios_v.subrange(0, an as int) =~= audios_v);
        }
        let ghost pre = entries.deep_view();
        entries.push(build_amix_entry(an, ca));
        proof {
            assert(entries.deep_view() =~~= pre + seq![amix_entry(an as int, ca@)]);
        }
    }
    let ghost entries4 = entries.deep_view();
    if has_img {
        let mn = images.len();
        let mut j: usize = 0;
        while j < mn
            invariant
                mn == images@.len(),
                mn > 0,
                0 <= j <= mn,
                p == project@,
                images_v == images.deep_view(),
                paths == paths_of(inputs.deep_view()),
                forall|x: int|
                    0 <= x < images_v.len() ==> find_asset_spec(
                        p,
                        item_asset(#[trigger] images_v[x]),
                    ) is Some && paths.contains(item_path(p, images_v[x])) && images_v[x].asset_id()
                        is Some && images_v[x] is ImageOverlay,
                entries.deep_view() + image_entries(p, paths, images_v, j as int) == entries4
                    + image_entries(p, paths, images_v, 0),
            decreases mn - j,
        {
            proof {
                assert(images.deep_view()[j as int] == images@[j as int]@);
            }
            let ghost pre = entries.deep_view();
            push_image_triple(&mut entries, project, &inputs, &images[j], j, mn);
            proof {
                let ghost triple = image_entry_triple(
                    p,
                    paths,
                    images_v[j as int],
                    j as int,
                    mn as int,
                );
                assert(pre + triple + image_entries(p, paths, images_v, j as int + 1) =~= pre + (
                triple + image_entries(p, paths, images_v, j as int + 1)));
            }
            j += 1;
        }
        proof {
            assert(image_entries(p, paths, images_v, mn as int) =~= Seq::<Seq<char>>::empty());
        }
    }
    if has_text {
        let ghost pre = entries.deep_view();
        entries.push(build_drawtext_entry(&texts));
        proof {
            assert(entries.deep_view() =~~= pre + seq![drawtext_entry(texts_v)]);
        }
    }
    proof {
        assert(entries.deep_view() =~~= graph_entries(
            p,
            paths,
            clips_v,
            pips_v,
            images_v,
            audios_v,
            texts_v,
        ));
    }
    entries
}

/// Compile a project snapshot into a render plan: the primary video
/// track's clips concatenated in timeline order, secondary video clips
/// composited picture-in-picture, overlay audio mixed in, image and text
/// overlays drawn on top, with every distinct source file registered
/// once as an input.
#[verifier::rlimit(100)]
pub fn compile(project: &Project) -> (r: Result<RenderPlan, RenderError>)
    requires
        pip_geometry_ok(project@),
    ensures
        match r {
            Ok(plan) => spec_compile(project@) == Ok::<_, CompileErr>(plan@),
            Err(e) => match e {
                RenderError::NoClips => spec_compile(project@) == Err::<RenderPlanV, _>(
                    CompileErr::NoClips,
                ),
                RenderError::AssetNotFound(aid) => spec_compile(project@) == Err::<RenderPlanV, _>(
                    CompileErr::AssetNotFound(aid),
                ),
                _ => false,
            },
        },
{
    let ghost p = project@;
    let tracks = &project.timeline.tracks;
    let tn = tracks.len();
    let mut primary: usize = 0;
    let mut have_primary = false;
    while primary < tn && !have_primary
        invariant
            tn == tracks@.len(),
            0 <= primary <= tn,
            p == project@,
            p.timeline.tracks == tracks.deep_view(),
            have_primary ==> primary > 0 && first_kind_at(
                p.timeline.tracks,
                TrackKind::Video,
                primary as int - 1,
            ),
            !have_primary ==> forall|j: int|
                0 <= j < primary ==> p.timeline.tracks[j].kind != TrackKind::Video,
        decreases tn - primary,
    {
        if tracks[primary].kind == TrackKind::Video {
            proof {
                assert(p.timeline.tracks[primary as int] == tracks@[primary as int]@);
            }
            have_primary = true;
        } else {
            proof {
                assert(p.timeline.tracks[primary as int] == tracks@[primary as int]@);
            }
        }
        primary += 1;
    }
    if !have_primary {
        proof {
            assert forall|i2: int| !first_kind_at(p.timeline.tracks, TrackKind::Video, i2) by {}
        }
        return Err(RenderError::NoClips);
    }
    let primary = primary - 1;
    proof {
        lemma_first_track_of_kind_is(p.timeline.tracks, TrackKind::Video, primary as int);
    }
    let clips = sort_items_by_start(collect_video(&tracks[primary].items));
    let ghost clips_v = sort_by_start(filter_video(p.timeline.tracks[primary as int].items));
    proof {
        assert(p.timeline.tracks[primary as int] == tracks@[primary as int]@);
        assert(clips.deep_view() == clips_v);
    }
    if clips.len() == 0 {
        return Err(RenderError::NoClips);
    }
    let pips = collect_pip(tracks, primary);
    let images = sort_items_by_start(collect_images(tracks));
    let audios = sort_items_by_start(collect_audio(tracks));
    let texts = collect_texts(tracks);
    let ghost pips_v = pip_items(p.timeline.tracks, primary as int);
    let ghost images_v = sort_by_start(image_items(p.timeline.tracks));
    let ghost audios_v = sort_by_start(audio_items(p.timeline.tracks));
    let ghost texts_v = text_items(p.timeline.tracks);
    let ghost reg = clips_v + images_v + pips_v + audios_v;
    proof {
        lemma_filter_video_assets(p.timeline.tracks[primary as int].items);
        lemma_sort_preserves_video(filter_video(p.timeline.tracks[primary as int].items));
        lemma_pip_items_assets(p.timeline.tracks, primary as int);
        lemma_image_items_assets(p.timeline.tracks);
        lemma_audio_items_assets(p.timeline.tracks);
        lemma_sort_elements(image_items(p.timeline.tracks));
        lemma_sort_elements(audio_items(p.timeline.tracks));
        assert(all_with_asset(images_v)) by {
            assert forall|i: int| 0 <= i < images_v.len() implies (#[trigger] images_v[i]).asset_id()
                is Some by {
                assert(image_items(p.timeline.tracks).contains(images_v[i]));
                let w = choose|w: int|
                    0 <= w < image_items(p.timeline.tracks).len() && image_items(p.timeline.tracks)[w]
                        == images_v[i];
            }
        }
        assert(all_with_asset(audios_v)) by {
            assert forall|i: int| 0 <= i < audios_v.len() implies (#[trigger] audios_v[i]).asset_id()
                is Some by {
                assert(audio_items(p.timeline.tracks).contains(audios_v[i]));
                let w = choose|w: int|
                    0 <= w < audio_items(p.timeline.tracks).len() && audio_items(p.timeline.tracks)[w]
                        == audios_v[i];
            }
        }
    }
    let mut inputs: Vec<RenderInput> = Vec::new();
    proof {
        assert(inputs.deep_view() =~= Seq::<RenderInputV>::empty());
        assert(paths_of(inputs.deep_view()) =~= Seq::<Seq<char>>::empty());
    }
    match register_items(project, &clips, &mut inputs) {
        Ok(()) => {},
        Err(e) => {
            proof {
                lemma_collect_paths_append(p, clips_v, images_v + pips_v + audios_v, Seq::empty());
                assert(clips_v + (images_v + pips_v + audios_v) =~= reg);
            }
            return Err(e);
        },
    }
    let ghost acc1 = paths_of(inputs.deep_view());
    match register_items(project, &images, &mut inputs) {
        Ok(()) => {},
        Err(e) => {
            proof {
                lemma_collect_paths_append(p, clips_v, images_v + pips_v + audios_v, Seq::empty());
                assert(clips_v + (images_v + pips_v + audios_v) =~= reg);
                lemma_collect_paths_append(p, images_v, pips_v + audios_v, acc1);
                assert(images_v + (pips_v + audios_v) =~= images_v + pips_v + audios_v);
            }
            return Err(e);
        },
    }
    let ghost acc2 = paths_of(inputs.deep_view());
    match register_items(project, &pips, &mut inputs) {
        Ok(()) => {},
        Err(e) => {
            proof {
                lemma_collect_paths_append(p, clips_v, images_v + pips_v + audios_v, Seq::empty());
                assert(clips_v + (images_v + pips_v + audios_v) =~= reg);
                lemma_collect_paths_append(p, images_v, pips_v + audios_v, acc1);
                assert(images_v + (pips_v + audios_v) =~= images_v + pips_v + audios_v);
                lemma_collect_paths_append(p, pips_v, audios_v, acc2);
            }
            return Err(e);
        },
    }
    match register_items(project, &audios, &mut inputs) {
        Ok(()) => {},
        Err(e) => {
            proof {
                lemma_collect_paths_append(p, clips_v, images_v + pips_v + audios_v, Seq::empty());
                assert(clips_v + (images_v + pips_v + audios_v) =~= reg);
                lemma_collect_paths_append(p, images_v, pips_v + audios_v, acc1);
                assert(images_v + (pips_v + audios_v) =~= images_v + pips_v + audios_v);
                lemma_collect_paths_append(p, pips_v, audios_v, acc2);
            }
            return Err(e);
        },
    }
    let ghost paths = paths_of(inputs.deep_view());
    proof {
        lemma_collect_paths_append(p, clips_v, images_v + pips_v + audios_v, Seq::empty());
        assert(clips_v + (images_v + pips_v + audios_v) =~= reg);
        lemma_collect_paths_append(p, images_v, pips_v + audios_v, acc1);
        assert(images_v + (pips_v + audios_v) =~= images_v + pips_v + audios_v);
        lemma_collect_paths_append(p, pips_v, audios_v, acc2);
        assert(collect_paths(p, reg, Seq::empty()) == Ok::<_, Id>(paths));
        lemma_collect_ok_assets(p, reg, Seq::empty());
        assert forall|i: int| 0 <= i < clips_v.len() implies find_asset_spec(
            p,
            item_asset(#[trigger] clips_v[i]),
        ) is Some && paths.contains(item_path(p, clips_v[i])) by {
            assert(reg[i] == clips_v[i]);
        }
        assert forall|i: int| 0 <= i < images_v.len() implies find_asset_spec(
            p,
            item_asset(#[trigger] images_v[i]),
        ) is Some && paths.contains(item_path(p, images_v[i])) by {
            assert(reg[clips_v.len() + i] == images_v[i]);
        }
        assert forall|i: int| 0 <= i < pips_v.len() implies find_asset_spec(
            p,
            item_asset(#[trigger] pips_v[i]),
        ) is Some && paths.contains(item_path(p, pips_v[i])) by {
            assert(reg[clips_v.len() + images_v.len() + i] == pips_v[i]);
        }
        assert forall|i: int| 0 <= i < audios_v.len() implies find_asset_spec(
            p,
            item_asset(#[trigger] audios_v[i]),
        ) is Some && paths.contains(item_path(p, audios_v[i])) by {
            assert(reg[clips_v.len() + images_v.len() + pips_v.len() + i] == audios_v[i]);
        }
        assert forall|i: int|
            0 <= i < images_v.len() implies (#[trigger] images_v[i]) is ImageOverlay by {
            assert(image_items(p.timeline.tracks).contains(images_v[i]));
            let w = choose|w: int|
                0 <= w < image_items(p.timeline.tracks).len() && image_items(p.timeline.tracks)[w]
                    == images_v[i];
        }
    }
    let entries = build_graph_entries(project, &inputs, &clips, &pips, &images, &audios, &texts);
    proof {
        assert(entries.deep_view() == graph_entries(
            p,
            paths,
            clips_v,
            pips_v,
            images_v,
            audios_v,
            texts_v,
        ));
    }
    let filter_graph = join_semicolon(&entries);
    let has_text = texts.len() > 0;
    let mut output_args: Vec<String> = Vec::new();
    output_args.push(String::from_str("-map"));
    if has_text {
        output_args.push(String::from_str("[outv_txt]"));
    } else {
        output_args.push(String::from_str("[outv]"));
    }
    output_args.push(String::from_str("-map"));
    output_args.push(String::from_str("[outa]"));
    output_args.push(String::from_str("-c:v"));
    output_args.push(String::from_str("libx264"));
    output_args.push(String::from_str("-crf"));
    output_args.push(String::from_str("23"));
    output_args.push(String::from_str("-c:a"));
    output_args.push(String::from_str("aac"));
    output_args.push(String::from_str("-b:a"));
    output_args.push(String::from_str("192k"));
    output_args.push(String::from_str("-ar"));
    output_args.push(String::from_str("48000"));
    output_args.push(String::from_str("-pix_fmt"));
    output_args.push(String::from_str("yuv420p"));
    output_args.push(String::from_str("-vsync"));
    output_args.push(String::from_str("cfr"));
    output_args.push(String::from_str("-r"));
    output_args.push(crate::strfmt::u64_string(project.settings.fps as u64));
    proof {
        assert(output_args.deep_view() =~~= output_args_spec(p.settings.fps, has_text));
    }
    let plan = RenderPlan {
        inputs,
        filter_graph,
        output_args,
        output_path: String::from_str("output.mp4"),
    };
    proof {
        assert(plan@.inputs =~~= Seq::new(
            paths.len(),
            |i: int| RenderInputV { path: paths[i], index: i },
        ));
        let ghost target = spec_compile(p);
        assert(target matches Ok(pl) && plan@ =~~= pl);
    }
    Ok(plan)
}

// ---------------------------------------------------------------------------
// Process arguments
// ---------------------------------------------------------------------------

/// The full ffmpeg argument list of a plan: the overwrite flag, each
/// input behind its selection flag, the graph as one complex-filter
/// argument, the output arguments, and the output path.
pub open spec fn args_spec(plan: RenderPlanV) -> Seq<Seq<char>> {
    seq!["-y"@] + input_args(plan.inputs) + seq!["-filter_complex"@, plan.filter_graph]
        + plan.output_args + seq![plan.output_path]
}

/// The `-i {path}` pairs of the input list.
pub open spec fn input_args(inputs: Seq<RenderInputV>) -> Seq<Seq<char>>
    decreases inputs.len(),
{
    if inputs.len() == 0 {
        Seq::empty()
    } else {
        input_args(inputs.drop_last()) + seq!["-i"@, inputs.last().path]
    }
}

/// Build the ffmpeg argument list from a plan.
pub fn build_ffmpeg_args(plan: &RenderPlan) -> (r: Vec<String>)
    ensures
        r.deep_view() == args_spec(plan@),
{
    let mut args: Vec<String> = Vec::new();
    args.push(String::from_str("-y"));
    let n = plan.inputs.len();
    proof {
        assert(args.deep_view() =~~= seq!["-y"@] + input_args(plan@.inputs.subrange(0, 0)));
    }
    let mut i: usize = 0;
    while i < n
        invariant
            n == plan.inputs@.len(),
            0 <= i <= n,
            args.deep_view() == seq!["-y"@] + input_args(plan@.inputs.subrange(0, i as int)),
        decreases n - i,
    {
        let ghost prefix = plan@.inputs.subrange(0, i as int);
        args.push(String::from_str("-i"));
        args.push(plan.inputs[i].path.clone());
        proof {
            assert(plan@.inputs[i as int] == plan.inputs@[i as int]@);
            assert(plan@.inputs.subrange(0, i + 1).drop_last() =~= prefix);
            assert(plan@.inputs.subrange(0, i + 1).last() == plan@.inputs[i as int]);
            assert(input_args(plan@.inputs.subrange(0, i + 1)) == input_args(prefix) + seq![
                "-i"@,
                plan@.inputs[i as int].path,
            ]);
            assert(args.deep_view() =~~= (seq!["-y"@] + input_args(prefix)) + seq![
                "-i"@,
                plan@.inputs[i as int].path,
            ]);
            assert(args.deep_view() =~~= seq!["-y"@] + input_args(
                plan@.inputs.subrange(0, i + 1),
            ));
        }
        i += 1;
    }
    proof {
        assert(plan@.inputs.subrange(0, n as int) =~= plan@.inputs);
    }
    args.push(String::from_str("-filter_complex"));
    args.push(plan.filter_graph.clone());
    let m = plan.output_args.len();
    let ghost mid = args.deep_view();
    let mut j: usize = 0;
    while j < m
        invariant
            m == plan.output_args@.len(),
            0 <= j <= m,
            mid == seq!["-y"@] + input_args(plan@.inputs) + seq![
                "-filter_complex"@,
                plan@.filter_graph,
            ],
            args.deep_view() == mid + plan@.output_args.subrange(0, j as int),
        decreases m - j,
    {
        let ghost pre_args = args.deep_view();
        args.push(plan.output_args[j].clone());
        proof {
            assert(plan@.output_args[j as int] == plan.output_args@[j as int]@);
            assert(args.deep_view() =~~= pre_args.push(plan@.output_args[j as int]));
            assert(plan@.output_args.subrange(0, j + 1) =~= plan@.output_args.subrange(
                0,
                j as int,
            ).push(plan@.output_args[j as int]));
            assert(args.deep_view() =~~= mid + plan@.output_args.subrange(0, j + 1));
        }
        j += 1;
    }
    proof {
        assert(plan@.output_args.subrange(0, m as int) =~= plan@.output_args);
    }
    args.push(plan.output_path.clone());
    proof {
        assert(args.deep_view() =~~= args_spec(plan@));
    }
    args
}

} // verus!

