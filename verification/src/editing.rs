//! Editing operations on the timeline: add, remove, move, trim, split and
//! reorder, all enforcing the per-track no-overlap invariant over half-open
//! intervals. Every operation has a functional specification (`spec_...`)
//! over timeline views; the executable methods are proved to realize those
//! specifications exactly, error case by error case.

use vstd::prelude::*;
use crate::error::CoreError;
use crate::ids::Id;
use crate::time::TimeUs;
use crate::types::{Item, ItemV, Timeline, TimelineV, TrackV};

verus! {

// ---------------------------------------------------------------------------
// Spec layer: lookups, overlap, outcomes
// ---------------------------------------------------------------------------

/// The index of the first track with the given identifier.
pub open spec fn first_track_with(tracks: Seq<TrackV>, id: Id) -> Option<int>
    decreases tracks.len(),
{
    if tracks.len() == 0 {
        None
    } else if tracks[0].id == id {
        Some(0int)
    } else {
        match first_track_with(tracks.drop_first(), id) {
            Some(i) => Some(i + 1),
            None => None,
        }
    }
}

/// The index of the first item with the given identifier within one track.
pub open spec fn first_item_with(items: Seq<ItemV>, id: Id) -> Option<int>
    decreases items.len(),
{
    if items.len() == 0 {
        None
    } else if items[0].id() == id {
        Some(0int)
    } else {
        match first_item_with(items.drop_first(), id) {
            Some(i) => Some(i + 1),
            None => None,
        }
    }
}

/// The first (track index, item index) holding an item with the given
/// identifier, searching tracks in order.
pub open spec fn find_loc_tracks(tracks: Seq<TrackV>, id: Id) -> Option<(int, int)>
    decreases tracks.len(),
{
    if tracks.len() == 0 {
        None
    } else {
        match first_item_with(tracks[0].items, id) {
            Some(ii) => Some((0int, ii)),
            None => match find_loc_tracks(tracks.drop_first(), id) {
                Some(loc) => Some((loc.0 + 1, loc.1)),
                None => None,
            },
        }
    }
}

/// The location of the item with the given identifier on the timeline.
pub open spec fn find_loc(tl: TimelineV, id: Id) -> Option<(int, int)> {
    find_loc_tracks(tl.tracks, id)
}

/// The item with the given identifier, if any.
pub open spec fn spec_target_item(tl: TimelineV, item_id: Id) -> Option<ItemV> {
    match find_loc(tl, item_id) {
        Some(loc) => Some(tl.tracks[loc.0].items[loc.1]),
        None => None,
    }
}

/// Two items overlap iff their half-open timeline intervals intersect;
/// touching endpoints do not overlap.
pub open spec fn overlaps(a: ItemV, b: ItemV) -> bool {
    a.start() < b.end() && b.start() < a.end()
}

/// Whether the candidate overlaps any item of the sequence.
pub open spec fn overlaps_any(items: Seq<ItemV>, candidate: ItemV) -> bool {
    exists|j: int| 0 <= j < items.len() && #[trigger] overlaps(items[j], candidate)
}

/// Whether the candidate overlaps any item of the sequence other than the
/// one at the excluded index.
pub open spec fn overlaps_any_except(items: Seq<ItemV>, candidate: ItemV, except: int) -> bool {
    exists|j: int| 0 <= j < items.len() && j != except && #[trigger] overlaps(items[j], candidate)
}

/// Overlap against a sequence with one index removed is overlap against
/// the original sequence away from that index.
pub proof fn lemma_overlaps_any_remove(items: Seq<ItemV>, candidate: ItemV, i: int)
    requires
        0 <= i < items.len(),
    ensures
        overlaps_any(items.remove(i), candidate) == overlaps_any_except(items, candidate, i),
{
    let rest = items.remove(i);
    items.remove_ensures(i);
    if overlaps_any(rest, candidate) {
        let j = choose|j: int| 0 <= j < rest.len() && #[trigger] overlaps(rest[j], candidate);
        if j < i {
            assert(overlaps(items[j], candidate));
        } else {
            assert(overlaps(items[j + 1], candidate));
        }
    }
    if overlaps_any_except(items, candidate, i) {
        let j = choose|j: int|
            0 <= j < items.len() && j != i && #[trigger] overlaps(items[j], candidate);
        if j < i {
            assert(overlaps(rest[j], candidate));
        } else {
            assert(overlaps(rest[j - 1], candidate));
        }
    }
}

/// The timeline with track `k`'s item sequence replaced.
pub open spec fn with_track_items(tl: TimelineV, k: int, items: Seq<ItemV>) -> TimelineV {
    TimelineV {
        tracks: tl.tracks.update(k, TrackV { items, ..tl.tracks[k] }),
        markers: tl.markers,
    }
}

/// The abstract error cases of an editing operation.
pub ghost enum EditErr {
    ItemNotFound(Id),
    TrackNotFound(Id),
    Overlap,
    Invalid,
}

/// The outcome of an editing operation: the timeline after the call and
/// the error reported, if any. Note that an operation may both report an
/// error and leave the timeline changed (the trim operations do).
pub ghost struct EditStep {
    pub tl: TimelineV,
    pub err: Option<EditErr>,
}

/// Whether a concrete error value realizes an abstract error case.
pub open spec fn core_err_matches(e: CoreError, t: EditErr) -> bool {
    match t {
        EditErr::ItemNotFound(i) => e matches CoreError::ItemNotFound(j) && j == i,
        EditErr::TrackNotFound(i) => e matches CoreError::TrackNotFound(j) && j == i,
        EditErr::Overlap => e matches CoreError::OverlapDetected,
        EditErr::Invalid => e matches CoreError::InvalidOperation(_),
    }
}

/// Whether a concrete result realizes an abstract outcome.
pub open spec fn result_matches<T>(r: Result<T, CoreError>, err: Option<EditErr>) -> bool {
    match err {
        None => r is Ok,
        Some(t) => r matches Err(e) && core_err_matches(e, t),
    }
}

// ---------------------------------------------------------------------------
// Spec layer: characterization of the first-match lookups
// ---------------------------------------------------------------------------

/// `first_item_with` finds a valid first match, or there is none.
pub proof fn lemma_first_item_with(items: Seq<ItemV>, id: Id)
    ensures
        match first_item_with(items, id) {
            Some(i) => 0 <= i < items.len() && items[i].id() == id && (forall|j: int|
                0 <= j < i ==> items[j].id() != id),
            None => forall|j: int| 0 <= j < items.len() ==> items[j].id() != id,
        },
    decreases items.len(),
{
    if items.len() != 0 && items[0].id() != id {
        lemma_first_item_with(items.drop_first(), id);
        assert forall|j: int| 1 <= j < items.len() implies items.drop_first()[j - 1] == items[j] by {}
    }
}

/// A valid first match pins `first_item_with` down.
pub proof fn lemma_first_item_with_is(items: Seq<ItemV>, id: Id, i: int)
    requires
        0 <= i < items.len(),
        items[i].id() == id,
        forall|j: int| 0 <= j < i ==> items[j].id() != id,
    ensures
        first_item_with(items, id) == Some(i),
    decreases items.len(),
{
    if i > 0 {
        lemma_first_item_with_is(items.drop_first(), id, i - 1);
    }
}

/// `first_item_with` is `None` when no item matches.
pub proof fn lemma_first_item_with_none(items: Seq<ItemV>, id: Id)
    requires
        forall|j: int| 0 <= j < items.len() ==> items[j].id() != id,
    ensures
        first_item_with(items, id) is None,
    decreases items.len(),
{
    if items.len() > 0 {
        lemma_first_item_with_none(items.drop_first(), id);
    }
}

/// A valid first match pins `first_track_with` down.
pub proof fn lemma_first_track_with_is(tracks: Seq<TrackV>, id: Id, i: int)
    requires
        0 <= i < tracks.len(),
        tracks[i].id == id,
        forall|j: int| 0 <= j < i ==> tracks[j].id != id,
    ensures
        first_track_with(tracks, id) == Some(i),
    decreases tracks.len(),
{
    if i > 0 {
        lemma_first_track_with_is(tracks.drop_first(), id, i - 1);
    }
}

/// `first_track_with` is `None` when no track matches.
pub proof fn lemma_first_track_with_none(tracks: Seq<TrackV>, id: Id)
    requires
        forall|j: int| 0 <= j < tracks.len() ==> tracks[j].id != id,
    ensures
        first_track_with(tracks, id) is None,
    decreases tracks.len(),
{
    if tracks.len() > 0 {
        lemma_first_track_with_none(tracks.drop_first(), id);
    }
}

/// A valid first location pins `find_loc_tracks` down.
pub proof fn lemma_find_loc_tracks_is(tracks: Seq<TrackV>, id: Id, ti: int, ii: int)
    requires
        0 <= ti < tracks.len(),
        0 <= ii < tracks[ti].items.len(),
        tracks[ti].items[ii].id() == id,
        forall|t: int, j: int|
            0 <= t < ti && 0 <= j < tracks[t].items.len() ==> tracks[t].items[j].id() != id,
        forall|j: int| 0 <= j < ii ==> tracks[ti].items[j].id() != id,
    ensures
        find_loc_tracks(tracks, id) == Some((ti, ii)),
    decreases tracks.len(),
{
    if ti == 0 {
        lemma_first_item_with_is(tracks[0].items, id, ii);
    } else {
        lemma_first_item_with_none(tracks[0].items, id);
        assert forall|t: int, j: int|
            0 <= t < ti - 1 && 0 <= j < tracks.drop_first()[t].items.len() implies tracks.drop_first()[t].items[j].id()
            != id by {
            assert(tracks.drop_first()[t] == tracks[t + 1]);
        }
        assert(tracks.drop_first()[ti - 1] == tracks[ti]);
        lemma_find_loc_tracks_is(tracks.drop_first(), id, ti - 1, ii);
    }
}

/// `find_loc_tracks` is `None` when no item matches anywhere.
pub proof fn lemma_find_loc_tracks_none(tracks: Seq<TrackV>, id: Id)
    requires
        forall|t: int, j: int|
            0 <= t < tracks.len() && 0 <= j < tracks[t].items.len() ==> tracks[t].items[j].id()
                != id,
    ensures
        find_loc_tracks(tracks, id) is None,
    decreases tracks.len(),
{
    if tracks.len() > 0 {
        lemma_first_item_with_none(tracks[0].items, id);
        assert forall|t: int, j: int|
            0 <= t < tracks.drop_first().len() && 0 <= j
                < tracks.drop_first()[t].items.len() implies tracks.drop_first()[t].items[j].id()
            != id by {
            assert(tracks.drop_first()[t] == tracks[t + 1]);
        }
        lemma_find_loc_tracks_none(tracks.drop_first(), id);
    }
}

/// What a `Some` answer of `find_loc_tracks` means.
pub proof fn lemma_find_loc_tracks_sound(tracks: Seq<TrackV>, id: Id)
    ensures
        match find_loc_tracks(tracks, id) {
            Some(loc) => 0 <= loc.0 < tracks.len() && 0 <= loc.1 < tracks[loc.0].items.len()
                && tracks[loc.0].items[loc.1].id() == id,
            None => true,
        },
    decreases tracks.len(),
{
    if tracks.len() > 0 {
        lemma_first_item_with(tracks[0].items, id);
        lemma_find_loc_tracks_sound(tracks.drop_first(), id);
        if first_item_with(tracks[0].items, id) is None {
            match find_loc_tracks(tracks.drop_first(), id) {
                Some(loc) => {
                    assert(tracks.drop_first()[loc.0] == tracks[loc.0 + 1]);
                },
                None => {},
            }
        }
    }
}

// ---------------------------------------------------------------------------
// Exec layer: lookups and the overlap test
// ---------------------------------------------------------------------------

/// One past the item's last microsecond, computed in 128 bits so that no
/// input can overflow.
pub(crate) fn item_end_wide(item: &Item) -> (r: i128)
    ensures
        r as int == item@.end(),
{
    match item {
        Item::VideoClip { timeline_start_us, source_in_us, source_out_us, .. } => {
            timeline_start_us.0 as i128 + (source_out_us.0 as i128 - source_in_us.0 as i128)
        },
        Item::AudioClip { timeline_start_us, source_in_us, source_out_us, .. } => {
            timeline_start_us.0 as i128 + (source_out_us.0 as i128 - source_in_us.0 as i128)
        },
        Item::ImageOverlay { timeline_start_us, duration_us, .. } => {
            timeline_start_us.0 as i128 + duration_us.0 as i128
        },
        Item::TextOverlay { timeline_start_us, duration_us, .. } => {
            timeline_start_us.0 as i128 + duration_us.0 as i128
        },
    }
}

/// The half-open interval intersection test behind the no-overlap
/// invariant.
pub fn items_overlap(a: &Item, b: &Item) -> (r: bool)
    ensures
        r == overlaps(a@, b@),
{
    let a_end = item_end_wide(a);
    let b_end = item_end_wide(b);
    ((a.timeline_start_us().0 as i128) < b_end) && ((b.timeline_start_us().0 as i128) < a_end)
}

/// Re-home the item on another track.
fn set_track_id(item: &mut Item, t: Id)
    ensures
        final(item)@ == old(item)@.with_track(t),
{
    match item {
        Item::VideoClip { track_id, .. } => {
            *track_id = t;
        },
        Item::AudioClip { track_id, .. } => {
            *track_id = t;
        },
        Item::ImageOverlay { track_id, .. } => {
            *track_id = t;
        },
        Item::TextOverlay { track_id, .. } => {
            *track_id = t;
        },
    }
}

/// Place the item at a new timeline start.
fn set_timeline_start(item: &mut Item, new_start: TimeUs)
    ensures
        final(item)@ == old(item)@.with_start(new_start.0 as int),
{
    match item {
        Item::VideoClip { timeline_start_us, .. } => {
            *timeline_start_us = new_start;
        },
        Item::AudioClip { timeline_start_us, .. } => {
            *timeline_start_us = new_start;
        },
        Item::ImageOverlay { timeline_start_us, .. } => {
            *timeline_start_us = new_start;
        },
        Item::TextOverlay { timeline_start_us, .. } => {
            *timeline_start_us = new_start;
        },
    }
}

impl Timeline {
    /// The index of the first track with the given identifier.
    fn find_track_index(&self, track_id: Id) -> (r: Option<usize>)
        ensures
            match r {
                Some(k) => k < self.tracks@.len() && self@.tracks[k as int].id == track_id
                    && first_track_with(self@.tracks, track_id) == Some(k as int),
                None => first_track_with(self@.tracks, track_id) is None,
            },
    {
        let n = self.tracks.len();
        let mut k: usize = 0;
        while k < n
            invariant
                n == self.tracks.len(),
                0 <= k <= n,
                forall|j: int| 0 <= j < k ==> self@.tracks[j].id != track_id,
            decreases n - k,
        {
            if self.tracks[k].id == track_id {
                proof {
                    lemma_first_track_with_is(self@.tracks, track_id, k as int);
                }
                return Some(k);
            }
            k += 1;
        }
        proof {
            lemma_first_track_with_none(self@.tracks, track_id);
        }
        None
    }

    /// The first (track index, item index) for a given item identifier.
    pub(crate) fn find_item_location(&self, item_id: Id) -> (r: Option<(usize, usize)>)
        ensures
            match r {
                Some(loc) => loc.0 < self.tracks@.len() && loc.1 < self@.tracks[loc.0 as int].items.len()
                    && self@.tracks[loc.0 as int].items[loc.1 as int].id() == item_id
                    && find_loc(self@, item_id) == Some((loc.0 as int, loc.1 as int)),
                None => find_loc(self@, item_id) is None,
            },
    {
        let n = self.tracks.len();
        let mut ti: usize = 0;
        while ti < n
            invariant
                n == self.tracks.len(),
                0 <= ti <= n,
                forall|t: int, j: int|
                    0 <= t < ti && 0 <= j < self@.tracks[t].items.len()
                        ==> self@.tracks[t].items[j].id() != item_id,
            decreases n - ti,
        {
            let m = self.tracks[ti].items.len();
            let mut ii: usize = 0;
            while ii < m
                invariant
                    n == self.tracks.len(),
                    0 <= ti < n,
                    m == self.tracks[ti as int].items.len(),
                    0 <= ii <= m,
                    forall|j: int| 0 <= j < ii ==> self@.tracks[ti as int].items[j].id() != item_id,
                    forall|t: int, j: int|
                        0 <= t < ti && 0 <= j < self@.tracks[t].items.len()
                            ==> self@.tracks[t].items[j].id() != item_id,
                decreases m - ii,
            {
                if self.tracks[ti].items[ii].id() == item_id {
                    proof {
                        lemma_find_loc_tracks_is(self@.tracks, item_id, ti as int, ii as int);
                    }
                    return Some((ti, ii));
                }
                ii += 1;
            }
            ti += 1;
        }
        proof {
            lemma_find_loc_tracks_none(self@.tracks, item_id);
        }
        None
    }
}

impl Timeline {
    /// Borrow the item with the given identifier, if any.
    pub fn find_item(&self, item_id: Id) -> (r: Option<&Item>)
        ensures
            match r {
                Some(it) => spec_target_item(self@, item_id) == Some(it@),
                None => spec_target_item(self@, item_id) is None,
            },
    {
        match self.find_item_location(item_id) {
            Some((ti, ii)) => {
                let it = &self.tracks[ti].items[ii];
                proof {
                    assert(it@ == self@.tracks[ti as int].items[ii as int]);
                }
                Some(it)
            },
            None => None,
        }
    }
}

// ---------------------------------------------------------------------------
// add_item
// ---------------------------------------------------------------------------

/// What `add_item` does to a timeline view.
pub open spec fn spec_add_item(tl: TimelineV, track_id: Id, item: ItemV) -> EditStep {
    match first_track_with(tl.tracks, track_id) {
        None => EditStep { tl, err: Some(EditErr::TrackNotFound(track_id)) },
        Some(k) => {
            if overlaps_any(tl.tracks[k].items, item) {
                EditStep { tl, err: Some(EditErr::Overlap) }
            } else {
                EditStep { tl: with_track_items(tl, k, tl.tracks[k].items.push(item)), err: None }
            }
        },
    }
}

impl Timeline {
    /// Add an item to a track. Fails if the track is absent or if the
    /// item's interval intersects any existing item's interval on that
    /// track; on failure the timeline is unchanged.
    pub fn add_item(&mut self, track_id: Id, item: Item) -> (r: Result<(), CoreError>)
        ensures
            final(self)@ == spec_add_item(old(self)@, track_id, item@).tl,
            result_matches(r, spec_add_item(old(self)@, track_id, item@).err),
    {
        let k = match self.find_track_index(track_id) {
            Some(k) => k,
            None => {
                return Err(CoreError::TrackNotFound(track_id));
            },
        };
        let m = self.tracks[k].items.len();
        let mut j: usize = 0;
        while j < m
            invariant
                self@ == old(self)@,
                k < self.tracks.len(),
                first_track_with(old(self)@.tracks, track_id) == Some(k as int),
                m == self.tracks[k as int].items.len(),
                0 <= j <= m,
                forall|i: int| 0 <= i < j ==> !overlaps(self@.tracks[k as int].items[i], item@),
            decreases m - j,
        {
            if items_overlap(&self.tracks[k].items[j], &item) {
                proof {
                    assert(overlaps(old(self)@.tracks[k as int].items[j as int], item@));
                }
                return Err(CoreError::OverlapDetected);
            }
            j += 1;
        }
        let ghost pre = self@;
        let ghost itemv = item@;
        self.tracks[k].items.push(item);
        proof {
            assert(self@.tracks =~~= with_track_items(
                pre,
                k as int,
                pre.tracks[k as int].items.push(itemv),
            ).tracks);
        }
        Ok(())
    }
}

// ---------------------------------------------------------------------------
// remove_item
// ---------------------------------------------------------------------------

/// What `remove_item` does to a timeline view.
pub open spec fn spec_remove_item(tl: TimelineV, item_id: Id) -> EditStep {
    match find_loc(tl, item_id) {
        None => EditStep { tl, err: Some(EditErr::ItemNotFound(item_id)) },
        Some(loc) => EditStep {
            tl: with_track_items(tl, loc.0, tl.tracks[loc.0].items.remove(loc.1)),
            err: None,
        },
    }
}

/// The item that `remove_item` removes and returns (meaningful only when
/// the item exists).
pub open spec fn spec_removed_item(tl: TimelineV, item_id: Id) -> ItemV {
    match find_loc(tl, item_id) {
        Some(loc) => tl.tracks[loc.0].items[loc.1],
        None => arbitrary(),
    }
}

// ---------------------------------------------------------------------------
// move_item
// ---------------------------------------------------------------------------

/// What `move_item` does to a timeline view. The operation is
/// transactional: a colliding move leaves the timeline exactly as it was.
/// A successful move re-appends the item at the end of its track's
/// sequence.
pub open spec fn spec_move_item(tl: TimelineV, item_id: Id, new_start: int) -> EditStep {
    match find_loc(tl, item_id) {
        None => EditStep { tl, err: Some(EditErr::ItemNotFound(item_id)) },
        Some(loc) => {
            let moved = tl.tracks[loc.0].items[loc.1].with_start(new_start);
            let rest = tl.tracks[loc.0].items.remove(loc.1);
            if overlaps_any(rest, moved) {
                EditStep { tl, err: Some(EditErr::Overlap) }
            } else {
                EditStep { tl: with_track_items(tl, loc.0, rest.push(moved)), err: None }
            }
        },
    }
}

impl Timeline {
    /// Remove an item by its identifier from whichever track holds it and
    /// return it.
    pub fn remove_item(&mut self, item_id: Id) -> (r: Result<Item, CoreError>)
        ensures
            final(self)@ == spec_remove_item(old(self)@, item_id).tl,
            result_matches(r, spec_remove_item(old(self)@, item_id).err),
            r matches Ok(it) ==> it@ == spec_removed_item(old(self)@, item_id),
    {
        match self.find_item_location(item_id) {
            None => Err(CoreError::ItemNotFound(item_id)),
            Some((ti, ii)) => {
                let ghost pre = self@;
                let it = self.tracks[ti].items.remove(ii);
                proof {
                    assert(self@.tracks =~~= with_track_items(
                        pre,
                        ti as int,
                        pre.tracks[ti as int].items.remove(ii as int),
                    ).tracks);
                }
                Ok(it)
            },
        }
    }

    /// Relocate an item within its track. If the new position overlaps any
    /// other item of the track, the timeline is left unchanged and the
    /// operation fails: no partial state is observable.
    pub fn move_item(&mut self, item_id: Id, new_start_us: TimeUs) -> (r: Result<(), CoreError>)
        ensures
            final(self)@ == spec_move_item(old(self)@, item_id, new_start_us.0 as int).tl,
            result_matches(r, spec_move_item(old(self)@, item_id, new_start_us.0 as int).err),
    {
        let (ti, ii) = match self.find_item_location(item_id) {
            Some(loc) => loc,
            None => {
                return Err(CoreError::ItemNotFound(item_id));
            },
        };
        let ghost pre = self@;
        let ghost orig = pre.tracks[ti as int].items[ii as int];
        let ghost moved = orig.with_start(new_start_us.0 as int);
        let dur: i128 = item_end_wide(&self.tracks[ti].items[ii]) - (self.tracks[ti].items[
            ii
        ].timeline_start_us().0 as i128);
        let new_start_wide: i128 = new_start_us.0 as i128;
        let moved_end: i128 = new_start_wide + dur;
        proof {
            assert(moved_end as int == moved.end());
        }
        let m = self.tracks[ti].items.len();
        let mut j: usize = 0;
        while j < m
            invariant
                self@ == pre,
                find_loc(pre, item_id) == Some((ti as int, ii as int)),
                ti < self.tracks.len(),
                ii < m,
                m == self.tracks[ti as int].items.len(),
                moved == orig.with_start(new_start_us.0 as int),
                orig == pre.tracks[ti as int].items[ii as int],
                new_start_wide as int == moved.start(),
                moved_end as int == moved.end(),
                0 <= j <= m,
                forall|i: int|
                    0 <= i < j && i != ii as int ==> !overlaps(
                        self@.tracks[ti as int].items[i],
                        moved,
                    ),
            decreases m - j,
        {
            if j != ii {
                let other_end = item_end_wide(&self.tracks[ti].items[j]);
                let other_start = self.tracks[ti].items[j].timeline_start_us().0 as i128;
                if other_start < moved_end && new_start_wide < other_end {
                    proof {
                        assert(overlaps(pre.tracks[ti as int].items[j as int], moved));
                        lemma_overlaps_any_remove(pre.tracks[ti as int].items, moved, ii as int);
                    }
                    return Err(CoreError::OverlapDetected);
                }
            }
            j += 1;
        }
        proof {
            lemma_overlaps_any_remove(pre.tracks[ti as int].items, moved, ii as int);
        }
        let mut item = self.tracks[ti].items.remove(ii);
        proof {
            assert(self@.tracks =~~= with_track_items(
                pre,
                ti as int,
                pre.tracks[ti as int].items.remove(ii as int),
            ).tracks);
        }
        set_timeline_start(&mut item, new_start_us);
        let ghost rest = pre.tracks[ti as int].items.remove(ii as int);
        let ghost mid = self@;
        let ghost mid_sh = self.tracks@;
        self.tracks[ti].items.push(item);
        proof {
            assert(self@.tracks[ti as int].items =~~= mid.tracks[ti as int].items.push(moved));
            assert(self@.tracks.len() == pre.tracks.len());
            assert forall|x: int| 0 <= x < pre.tracks.len() && x != ti as int implies self@.tracks[x]
                == pre.tracks[x] by {
                assert(self.tracks@[x] == mid_sh[x]);
                assert(self@.tracks[x] == self.tracks@[x]@);
                assert(mid.tracks[x] == mid_sh[x]@);
                assert(mid.tracks[x] == pre.tracks[x]);
            }
            assert(self@.tracks[ti as int].id == pre.tracks[ti as int].id);
            assert(self@.tracks[ti as int].kind == pre.tracks[ti as int].kind);
            assert(self@.tracks[ti as int].items =~~= rest.push(moved));
            assert(self@.tracks =~~= with_track_items(pre, ti as int, rest.push(moved)).tracks);
        }
        Ok(())
    }
}

// ---------------------------------------------------------------------------
// trim_in / trim_out
// ---------------------------------------------------------------------------

/// The item after a trim of its in-point, or `None` if the trim is
/// invalid. For clips the new value is the new source in-point and the
/// timeline end is held fixed; for overlays it is the new timeline start
/// and the duration shrinks to keep the end fixed.
pub open spec fn spec_trimmed_in(item: ItemV, v: int) -> Option<ItemV> {
    match item {
        ItemV::VideoClip { id, asset_id, track_id, start, src_in, src_out } => {
            if v >= src_out {
                None
            } else {
                Some(ItemV::VideoClip {
                    id,
                    asset_id,
                    track_id,
                    start: start - src_in + v,
                    src_in: v,
                    src_out,
                })
            }
        },
        ItemV::AudioClip { id, asset_id, track_id, start, src_in, src_out, volume_milli } => {
            if v >= src_out {
                None
            } else {
                Some(ItemV::AudioClip {
                    id,
                    asset_id,
                    track_id,
                    start: start - src_in + v,
                    src_in: v,
                    src_out,
                    volume_milli,
                })
            }
        },
        ItemV::ImageOverlay { id, asset_id, track_id, start, dur, x, y, width, height, opacity_milli } => {
            if v >= start + dur {
                None
            } else {
                Some(ItemV::ImageOverlay {
                    id,
                    asset_id,
                    track_id,
                    start: v,
                    dur: start + dur - v,
                    x,
                    y,
                    width,
                    height,
                    opacity_milli,
                })
            }
        },
        ItemV::TextOverlay { id, track_id, start, dur, text, font_size, color, x, y } => {
            if v >= start + dur {
                None
            } else {
                Some(ItemV::TextOverlay {
                    id,
                    track_id,
                    start: v,
                    dur: start + dur - v,
                    text,
                    font_size,
                    color,
                    x,
                    y,
                })
            }
        },
    }
}

/// The item after a trim of its out-point, or `None` if the trim is
/// invalid. For clips the new value is the new source out-point; for
/// overlays the duration is recomputed so the item ends at the new value.
pub open spec fn spec_trimmed_out(item: ItemV, v: int) -> Option<ItemV> {
    match item {
        ItemV::VideoClip { id, asset_id, track_id, start, src_in, src_out } => {
            if v <= src_in {
                None
            } else {
                Some(ItemV::VideoClip { id, asset_id, track_id, start, src_in, src_out: v })
            }
        },
        ItemV::AudioClip { id, asset_id, track_id, start, src_in, src_out, volume_milli } => {
            if v <= src_in {
                None
            } else {
                Some(ItemV::AudioClip {
                    id,
                    asset_id,
                    track_id,
                    start,
                    src_in,
                    src_out: v,
                    volume_milli,
                })
            }
        },
        ItemV::ImageOverlay { id, asset_id, track_id, start, dur, x, y, width, height, opacity_milli } => {
            if v - start <= 0 {
                None
            } else {
                Some(ItemV::ImageOverlay {
                    id,
                    asset_id,
                    track_id,
                    start,
                    dur: v - start,
                    x,
                    y,
                    width,
                    height,
                    opacity_milli,
                })
            }
        },
        ItemV::TextOverlay { id, track_id, start, dur, text, font_size, color, x, y } => {
            if v - start <= 0 {
                None
            } else {
                Some(ItemV::TextOverlay {
                    id,
                    track_id,
                    start,
                    dur: v - start,
                    text,
                    font_size,
                    color,
                    x,
                    y,
                })
            }
        },
    }
}

/// What a trim does to a timeline view, given the trimmed replacement
/// item (or `None` when invalid). Note the documented quirk: a trim whose
/// result overlaps a neighbour reports the overlap but keeps the
/// mutation; callers are expected to validate beforehand.
pub open spec fn spec_trim_step(tl: TimelineV, item_id: Id, trimmed: Option<ItemV>) -> EditStep {
    match find_loc(tl, item_id) {
        None => EditStep { tl, err: Some(EditErr::ItemNotFound(item_id)) },
        Some(loc) => {
            match trimmed {
                None => EditStep { tl, err: Some(EditErr::Invalid) },
                Some(it2) => {
                    let items2 = tl.tracks[loc.0].items.update(loc.1, it2);
                    let tl2 = with_track_items(tl, loc.0, items2);
                    if overlaps_any_except(items2, it2, loc.1) {
                        EditStep { tl: tl2, err: Some(EditErr::Overlap) }
                    } else {
                        EditStep { tl: tl2, err: None }
                    }
                },
            }
        },
    }
}

/// What `trim_in` does to a timeline view.
pub open spec fn spec_trim_in(tl: TimelineV, item_id: Id, v: int) -> EditStep {
    match find_loc(tl, item_id) {
        None => EditStep { tl, err: Some(EditErr::ItemNotFound(item_id)) },
        Some(loc) => spec_trim_step(tl, item_id, spec_trimmed_in(tl.tracks[loc.0].items[loc.1], v)),
    }
}

/// What `trim_out` does to a timeline view.
pub open spec fn spec_trim_out(tl: TimelineV, item_id: Id, v: int) -> EditStep {
    match find_loc(tl, item_id) {
        None => EditStep { tl, err: Some(EditErr::ItemNotFound(item_id)) },
        Some(loc) => spec_trim_step(tl, item_id, spec_trimmed_out(tl.tracks[loc.0].items[loc.1], v)),
    }
}

/// The machine bound that `trim_in` needs: the recomputed field values of
/// the trimmed item fit in 64 bits.
pub open spec fn trim_in_representable(tl: TimelineV, item_id: Id, v: int) -> bool {
    match find_loc(tl, item_id) {
        None => true,
        Some(loc) => match spec_trimmed_in(tl.tracks[loc.0].items[loc.1], v) {
            None => true,
            Some(it2) => i64::MIN <= it2.start() <= i64::MAX && i64::MIN <= it2.dur() <= i64::MAX,
        },
    }
}

/// The machine bound that `trim_out` needs: the recomputed duration of
/// the trimmed item fits in 64 bits.
pub open spec fn trim_out_representable(tl: TimelineV, item_id: Id, v: int) -> bool {
    match find_loc(tl, item_id) {
        None => true,
        Some(loc) => match spec_trimmed_out(tl.tracks[loc.0].items[loc.1], v) {
            None => true,
            Some(it2) => i64::MIN <= it2.dur() <= i64::MAX,
        },
    }
}

impl Timeline {
    /// Scan the track at `ti` for an overlap of the item at `ii` against
    /// every other item, reporting the trimmed outcome. Shared tail of the
    /// two trim operations, which mutate first and do not roll back.
    fn trim_overlap_check(&mut self, ti: usize, ii: usize) -> (r: Result<(), CoreError>)
        requires
            ti < old(self).tracks@.len(),
            ii < old(self)@.tracks[ti as int].items.len(),
        ensures
            final(self)@ == old(self)@,
            r is Ok <==> !overlaps_any_except(
                old(self)@.tracks[ti as int].items,
                old(self)@.tracks[ti as int].items[ii as int],
                ii as int,
            ),
            r is Err ==> r matches Err(CoreError::OverlapDetected),
    {
        let candidate_start = self.tracks[ti].items[ii].timeline_start_us().0 as i128;
        let candidate_end = item_end_wide(&self.tracks[ti].items[ii]);
        let ghost cand = self@.tracks[ti as int].items[ii as int];
        let m = self.tracks[ti].items.len();
        let mut j: usize = 0;
        while j < m
            invariant
                self@ == old(self)@,
                ti < self.tracks.len(),
                ii < m,
                m == self.tracks[ti as int].items.len(),
                cand == self@.tracks[ti as int].items[ii as int],
                candidate_start as int == cand.start(),
                candidate_end as int == cand.end(),
                0 <= j <= m,
                forall|i: int|
                    0 <= i < j && i != ii as int ==> !overlaps(
                        self@.tracks[ti as int].items[i],
                        cand,
                    ),
            decreases m - j,
        {
            if j != ii {
                let other_end = item_end_wide(&self.tracks[ti].items[j]);
                let other_start = self.tracks[ti].items[j].timeline_start_us().0 as i128;
                if other_start < candidate_end && candidate_start < other_end {
                    proof {
                        assert(overlaps(self@.tracks[ti as int].items[j as int], cand));
                    }
                    return Err(CoreError::OverlapDetected);
                }
            }
            j += 1;
        }
        Ok(())
    }

    /// Trim the in-point of an item. For clips the timeline end is held
    /// fixed, so the timeline start moves; fails if the new in-point is
    /// not strictly before the out-point. For overlays the new value is
    /// the new timeline start; fails if it is not strictly before the
    /// end. A post-trim overlap is reported as an error but the mutation
    /// is kept: callers validate beforehand or accept the overlap.
    pub fn trim_in(&mut self, item_id: Id, new_in_us: TimeUs) -> (r: Result<(), CoreError>)
        requires
            trim_in_representable(old(self)@, item_id, new_in_us.0 as int),
        ensures
            final(self)@ == spec_trim_in(old(self)@, item_id, new_in_us.0 as int).tl,
            result_matches(r, spec_trim_in(old(self)@, item_id, new_in_us.0 as int).err),
    {
        let (ti, ii) = match self.find_item_location(item_id) {
            Some(loc) => loc,
            None => {
                return Err(CoreError::ItemNotFound(item_id));
            },
        };
        let ghost pre = self@;
        let ghost orig = pre.tracks[ti as int].items[ii as int];
        let v = new_in_us.0;
        let orig_end_wide = item_end_wide(&self.tracks[ti].items[ii]);
        let mut it = self.tracks[ti].items[ii].clone();
        match &mut it {
            Item::VideoClip { timeline_start_us, source_in_us, source_out_us, .. } => {
                if v >= source_out_us.0 {
                    return Err(
                        CoreError::InvalidOperation(
                            "source_in must be less than source_out".to_owned(),
                        ),
                    );
                }
                let new_start = orig_end_wide - (source_out_us.0 as i128 - v as i128);
                *source_in_us = TimeUs(v);
                *timeline_start_us = TimeUs(new_start as i64);
            },
            Item::AudioClip { timeline_start_us, source_in_us, source_out_us, .. } => {
                if v >= source_out_us.0 {
                    return Err(
                        CoreError::InvalidOperation(
                            "source_in must be less than source_out".to_owned(),
                        ),
                    );
                }
                let new_start = orig_end_wide - (source_out_us.0 as i128 - v as i128);
                *source_in_us = TimeUs(v);
                *timeline_start_us = TimeUs(new_start as i64);
            },
            Item::ImageOverlay { timeline_start_us, duration_us, .. } => {
                if v as i128 >= orig_end_wide {
                    return Err(
                        CoreError::InvalidOperation("new start must be before end".to_owned()),
                    );
                }
                *duration_us = TimeUs((orig_end_wide - v as i128) as i64);
                *timeline_start_us = TimeUs(v);
            },
            Item::TextOverlay { timeline_start_us, duration_us, .. } => {
                if v as i128 >= orig_end_wide {
                    return Err(
                        CoreError::InvalidOperation("new start must be before end".to_owned()),
                    );
                }
                *duration_us = TimeUs((orig_end_wide - v as i128) as i64);
                *timeline_start_us = TimeUs(v);
            },
        }
        proof {
            assert(spec_trimmed_in(orig, v as int) == Some(it@));
        }
        self.write_item(ti, ii, it);
        proof {
            assert(self.tracks@.len() == self@.tracks.len());
        }
        self.trim_overlap_check(ti, ii)
    }

    /// Trim the out-point of an item. For clips the new value is the new
    /// source out-point; fails if it is not strictly after the in-point.
    /// For overlays the duration is recomputed; fails if it would not be
    /// positive. Same non-rollback overlap behaviour as `trim_in`.
    pub fn trim_out(&mut self, item_id: Id, new_out_us: TimeUs) -> (r: Result<(), CoreError>)
        requires
            trim_out_representable(old(self)@, item_id, new_out_us.0 as int),
        ensures
            final(self)@ == spec_trim_out(old(self)@, item_id, new_out_us.0 as int).tl,
            result_matches(r, spec_trim_out(old(self)@, item_id, new_out_us.0 as int).err),
    {
        let (ti, ii) = match self.find_item_location(item_id) {
            Some(loc) => loc,
            None => {
                return Err(CoreError::ItemNotFound(item_id));
            },
        };
        let ghost pre = self@;
        let ghost orig = pre.tracks[ti as int].items[ii as int];
        let v = new_out_us.0;
        let mut it = self.tracks[ti].items[ii].clone();
        match &mut it {
            Item::VideoClip { source_in_us, source_out_us, .. } => {
                if v <= source_in_us.0 {
                    return Err(
                        CoreError::InvalidOperation(
                            "source_out must be greater than source_in".to_owned(),
                        ),
                    );
                }
                *source_out_us = TimeUs(v);
            },
            Item::AudioClip { source_in_us, source_out_us, .. } => {
                if v <= source_in_us.0 {
                    return Err(
                        CoreError::InvalidOperation(
                            "source_out must be greater than source_in".to_owned(),
                        ),
                    );
                }
                *source_out_us = TimeUs(v);
            },
            Item::ImageOverlay { timeline_start_us, duration_us, .. } => {
                let new_dur = v as i128 - timeline_start_us.0 as i128;
                if new_dur <= 0 {
                    return Err(
                        CoreError::InvalidOperation("new out must be after start".to_owned()),
                    );
                }
                *duration_us = TimeUs(new_dur as i64);
            },
            Item::TextOverlay { timeline_start_us, duration_us, .. } => {
                let new_dur = v as i128 - timeline_start_us.0 as i128;
                if new_dur <= 0 {
                    return Err(
                        CoreError::InvalidOperation("new out must be after start".to_owned()),
                    );
                }
                *duration_us = TimeUs(new_dur as i64);
            },
        }
        proof {
            assert(spec_trimmed_out(orig, v as int) == Some(it@));
        }
        self.write_item(ti, ii, it);
        proof {
            assert(self.tracks@.len() == self@.tracks.len());
        }
        self.trim_overlap_check(ti, ii)
    }

    /// Replace the item at a known location.
    pub(crate) fn write_item(&mut self, ti: usize, ii: usize, it: Item)
        requires
            ti < old(self).tracks@.len(),
            ii < old(self)@.tracks[ti as int].items.len(),
        ensures
            final(self)@ == with_track_items(
                old(self)@,
                ti as int,
                old(self)@.tracks[ti as int].items.update(ii as int, it@),
            ),
    {
        let ghost pre = self@;
        let ghost pre_sh = self.tracks@;
        let ghost itv = it@;
        self.tracks[ti].items[ii] = it;
        proof {
            assert(self@.tracks[ti as int].items =~~= pre.tracks[ti as int].items.update(
                ii as int,
                itv,
            ));
            assert forall|x: int|
                0 <= x < pre.tracks.len() && x != ti as int implies self@.tracks[x] == pre.tracks[x] by {
                assert(self.tracks@[x] == pre_sh[x]);
                assert(self@.tracks[x] == self.tracks@[x]@);
                assert(pre.tracks[x] == pre_sh[x]@);
            }
            assert(self@.tracks =~~= with_track_items(
                pre,
                ti as int,
                pre.tracks[ti as int].items.update(ii as int, itv),
            ).tracks);
        }
    }
}

// ---------------------------------------------------------------------------
// split_at
// ---------------------------------------------------------------------------

/// The two halves of an item split at timeline position `t` (valid only
/// for `item.start() < t < item.end()`). The left half keeps the original
/// identifier and covers up to `t`; the right half gets the fresh
/// identifier and covers from `t`. Clip source windows are split so that
/// the halves' windows are contiguous and together equal the original;
/// every other field is duplicated into both halves.
pub open spec fn spec_split_halves(item: ItemV, t: int, right_id: Id) -> (ItemV, ItemV) {
    match item {
        ItemV::VideoClip { id, asset_id, track_id, start, src_in, src_out } => {
            let split_src = src_in + (t - start);
            (
                ItemV::VideoClip { id, asset_id, track_id, start, src_in, src_out: split_src },
                ItemV::VideoClip {
                    id: right_id,
                    asset_id,
                    track_id,
                    start: t,
                    src_in: split_src,
                    src_out,
                },
            )
        },
        ItemV::AudioClip { id, asset_id, track_id, start, src_in, src_out, volume_milli } => {
            let split_src = src_in + (t - start);
            (
                ItemV::AudioClip {
                    id,
                    asset_id,
                    track_id,
                    start,
                    src_in,
                    src_out: split_src,
                    volume_milli,
                },
                ItemV::AudioClip {
                    id: right_id,
                    asset_id,
                    track_id,
                    start: t,
                    src_in: split_src,
                    src_out,
                    volume_milli,
                },
            )
        },
        ItemV::ImageOverlay { id, asset_id, track_id, start, dur, x, y, width, height, opacity_milli } => {
            (
                ItemV::ImageOverlay {
                    id,
                    asset_id,
                    track_id,
                    start,
                    dur: t - start,
                    x,
                    y,
                    width,
                    height,
                    opacity_milli,
                },
                ItemV::ImageOverlay {
                    id: right_id,
                    asset_id,
                    track_id,
                    start: t,
                    dur: start + dur - t,
                    x,
                    y,
                    width,
                    height,
                    opacity_milli,
                },
            )
        },
        ItemV::TextOverlay { id, track_id, start, dur, text, font_size, color, x, y } => {
            (
                ItemV::TextOverlay {
                    id,
                    track_id,
                    start,
                    dur: t - start,
                    text,
                    font_size,
                    color,
                    x,
                    y,
                },
                ItemV::TextOverlay {
                    id: right_id,
                    track_id,
                    start: t,
                    dur: start + dur - t,
                    text,
                    font_size,
                    color,
                    x,
                    y,
                },
            )
        },
    }
}

/// The error that `split_at` reports, if any; independent of the fresh
/// identifier.
pub open spec fn spec_split_err(tl: TimelineV, item_id: Id, t: int) -> Option<EditErr> {
    match find_loc(tl, item_id) {
        None => Some(EditErr::ItemNotFound(item_id)),
        Some(loc) => {
            let item = tl.tracks[loc.0].items[loc.1];
            if !(item.start() < t < item.end()) {
                Some(EditErr::Invalid)
            } else {
                None
            }
        },
    }
}

/// The timeline after a successful split: the left half replaces the
/// original in place and the right half is inserted directly after it.
pub open spec fn spec_split_tl(tl: TimelineV, item_id: Id, t: int, right_id: Id) -> TimelineV {
    let loc = find_loc(tl, item_id).unwrap();
    let halves = spec_split_halves(tl.tracks[loc.0].items[loc.1], t, right_id);
    with_track_items(
        tl,
        loc.0,
        tl.tracks[loc.0].items.update(loc.1, halves.0).insert(loc.1 + 1, halves.1),
    )
}

/// Splitting preserves duration exactly: the two halves' durations sum to
/// the original's, and both halves are non-empty.
pub proof fn lemma_split_durations(item: ItemV, t: int, right_id: Id)
    requires
        item.start() < t < item.end(),
    ensures
        spec_split_halves(item, t, right_id).0.dur() + spec_split_halves(item, t, right_id).1.dur()
            == item.dur(),
        spec_split_halves(item, t, right_id).0.dur() > 0,
        spec_split_halves(item, t, right_id).1.dur() > 0,
        spec_split_halves(item, t, right_id).0.start() == item.start(),
        spec_split_halves(item, t, right_id).0.end() == t,
        spec_split_halves(item, t, right_id).1.start() == t,
        spec_split_halves(item, t, right_id).1.end() == item.end(),
        spec_split_halves(item, t, right_id).0.id() == item.id(),
        spec_split_halves(item, t, right_id).1.id() == right_id,
{
}

impl Timeline {
    /// Split an item at a timeline position strictly between its start
    /// and end. The left half keeps the original identifier; the right
    /// half gets the freshly generated identifier. Returns both
    /// identifiers as (left, right).
    pub fn split_at(&mut self, item_id: Id, split_time_us: TimeUs) -> (r: Result<
        (Id, Id),
        CoreError,
    >)
        ensures
            result_matches(r, spec_split_err(old(self)@, item_id, split_time_us.0 as int)),
            r is Err ==> final(self)@ == old(self)@,
            r matches Ok(ids) ==> ids.0 == item_id && final(self)@ == spec_split_tl(
                old(self)@,
                item_id,
                split_time_us.0 as int,
                ids.1,
            ),
    {
        let (ti, ii) = match self.find_item_location(item_id) {
            Some(loc) => loc,
            None => {
                return Err(CoreError::ItemNotFound(item_id));
            },
        };
        let ghost pre = self@;
        let ghost orig = pre.tracks[ti as int].items[ii as int];
        let t = split_time_us.0;
        let start = self.tracks[ti].items[ii].timeline_start_us();
        let end_wide = item_end_wide(&self.tracks[ti].items[ii]);
        if t <= start.0 || t as i128 >= end_wide {
            return Err(
                CoreError::InvalidOperation(
                    "split position must be strictly between item start and end".to_owned(),
                ),
            );
        }
        let right_id = crate::ids::fresh_id();
        let (left, right): (Item, Item) = match &self.tracks[ti].items[ii] {
            Item::VideoClip { id, asset_id, track_id, timeline_start_us, source_in_us, source_out_us } => {
                let split_src_wide = source_in_us.0 as i128 + (t as i128
                    - timeline_start_us.0 as i128);
                let split_src = TimeUs(split_src_wide as i64);
                (
                    Item::VideoClip {
                        id: *id,
                        asset_id: *asset_id,
                        track_id: *track_id,
                        timeline_start_us: *timeline_start_us,
                        source_in_us: *source_in_us,
                        source_out_us: split_src,
                    },
                    Item::VideoClip {
                        id: right_id,
                        asset_id: *asset_id,
                        track_id: *track_id,
                        timeline_start_us: TimeUs(t),
                        source_in_us: split_src,
                        source_out_us: *source_out_us,
                    },
                )
            },
            Item::AudioClip {
                id,
                asset_id,
                track_id,
                timeline_start_us,
                source_in_us,
                source_out_us,
                volume_milli,
            } => {
                let split_src_wide = source_in_us.0 as i128 + (t as i128
                    - timeline_start_us.0 as i128);
                let split_src = TimeUs(split_src_wide as i64);
                (
                    Item::AudioClip {
                        id: *id,
                        asset_id: *asset_id,
                        track_id: *track_id,
                        timeline_start_us: *timeline_start_us,
                        source_in_us: *source_in_us,
                        source_out_us: split_src,
                        volume_milli: *volume_milli,
                    },
                    Item::AudioClip {
                        id: right_id,
                        asset_id: *asset_id,
                        track_id: *track_id,
                        timeline_start_us: TimeUs(t),
                        source_in_us: split_src,
                        source_out_us: *source_out_us,
                        volume_milli: *volume_milli,
                    },
                )
            },
            Item::ImageOverlay {
                id,
                asset_id,
                track_id,
                timeline_start_us,
                duration_us,
                x,
                y,
                width,
                height,
                opacity_milli,
            } => {
                let left_dur = TimeUs((t as i128 - timeline_start_us.0 as i128) as i64);
                let right_dur = TimeUs((end_wide - t as i128) as i64);
                (
                    Item::ImageOverlay {
                        id: *id,
                        asset_id: *asset_id,
                        track_id: *track_id,
                        timeline_start_us: *timeline_start_us,
                        duration_us: left_dur,
                        x: *x,
                        y: *y,
                        width: *width,
                        height: *height,
                        opacity_milli: *opacity_milli,
                    },
                    Item::ImageOverlay {
                        id: right_id,
                        asset_id: *asset_id,
                        track_id: *track_id,
                        timeline_start_us: TimeUs(t),
                        duration_us: right_dur,
                        x: *x,
                        y: *y,
                        width: *width,
                        height: *height,
                        opacity_milli: *opacity_milli,
                    },
                )
            },
            Item::TextOverlay { id, track_id, timeline_start_us, duration_us, text, font_size, color, x, y } => {
                let left_dur = TimeUs((t as i128 - timeline_start_us.0 as i128) as i64);
                let right_dur = TimeUs((end_wide - t as i128) as i64);
                (
                    Item::TextOverlay {
                        id: *id,
                        track_id: *track_id,
                        timeline_start_us: *timeline_start_us,
                        duration_us: left_dur,
                        text: text.clone(),
                        font_size: *font_size,
                        color: color.clone(),
                        x: *x,
                        y: *y,
                    },
                    Item::TextOverlay {
                        id: right_id,
                        track_id: *track_id,
                        timeline_start_us: TimeUs(t),
                        duration_us: right_dur,
                        text: text.clone(),
                        font_size: *font_size,
                        color: color.clone(),
                        x: *x,
                        y: *y,
                    },
                )
            },
        };
        proof {
            assert(left@ == spec_split_halves(orig, t as int, right_id).0);
            assert(right@ == spec_split_halves(orig, t as int, right_id).1);
        }
        self.write_item(ti, ii, left);
        proof {
            assert(self.tracks@.len() == self@.tracks.len());
            assert(self.tracks@[ti as int].items@.len() == self@.tracks[ti as int].items.len());
        }
        let ghost mid = self@;
        let ghost mid_sh = self.tracks@;
        let ghost rightv = right@;
        let cur_len = self.tracks[ti].items.len();
        proof {
            assert(ii < cur_len);
        }
        self.tracks[ti].items.insert(ii + 1, right);
        proof {
            assert(self@.tracks[ti as int].items =~~= mid.tracks[ti as int].items.insert(
                ii as int + 1,
                rightv,
            ));
            assert forall|x: int|
                0 <= x < pre.tracks.len() && x != ti as int implies self@.tracks[x] == mid.tracks[x] by {
                assert(self.tracks@[x] == mid_sh[x]);
                assert(self@.tracks[x] == self.tracks@[x]@);
                assert(mid.tracks[x] == mid_sh[x]@);
            }
            assert(self@.tracks.len() == pre.tracks.len());
            assert(self@.tracks[ti as int].id == pre.tracks[ti as int].id);
            assert(self@.tracks[ti as int].kind == pre.tracks[ti as int].kind);
            let ghost halves = spec_split_halves(orig, t as int, right_id);
            let ghost target = with_track_items(
                pre,
                ti as int,
                pre.tracks[ti as int].items.update(ii as int, halves.0).insert(
                    ii as int + 1,
                    halves.1,
                ),
            );
            assert(mid.tracks[ti as int].items == pre.tracks[ti as int].items.update(
                ii as int,
                halves.0,
            ));
            assert(self@.tracks[ti as int].items =~~= target.tracks[ti as int].items);
            assert forall|x: int| 0 <= x < pre.tracks.len() implies self@.tracks[x] =~~= target.tracks[x] by {
                if x == ti as int {
                    assert(self@.tracks[x].items =~~= target.tracks[x].items);
                    assert(self@.tracks[x].id == target.tracks[x].id);
                    assert(self@.tracks[x].kind == target.tracks[x].kind);
                } else {
                    assert(self@.tracks[x] == mid.tracks[x]);
                    assert(mid.tracks[x] == pre.tracks[x]);
                    assert(target.tracks[x] == pre.tracks[x]);
                }
            }
            assert(self@.tracks =~~= target.tracks);
            assert(find_loc(pre, item_id).unwrap() == (ti as int, ii as int));
            assert(spec_split_tl(pre, item_id, t as int, right_id) == target);
        }
        Ok((item_id, right_id))
    }
}

// ---------------------------------------------------------------------------
// reorder_item
// ---------------------------------------------------------------------------

/// What `reorder_item` does to a timeline view: the item moves to a new
/// index within its track's sequence; timeline placement is untouched.
pub open spec fn spec_reorder_item(tl: TimelineV, item_id: Id, new_index: int) -> EditStep {
    match find_loc(tl, item_id) {
        None => EditStep { tl, err: Some(EditErr::ItemNotFound(item_id)) },
        Some(loc) => {
            if new_index >= tl.tracks[loc.0].items.len() {
                EditStep { tl, err: Some(EditErr::Invalid) }
            } else {
                let item = tl.tracks[loc.0].items[loc.1];
                EditStep {
                    tl: with_track_items(
                        tl,
                        loc.0,
                        tl.tracks[loc.0].items.remove(loc.1).insert(new_index, item),
                    ),
                    err: None,
                }
            }
        },
    }
}

// ---------------------------------------------------------------------------
// move_item_to_track
// ---------------------------------------------------------------------------

/// What `move_item_to_track` does to a timeline view: the item leaves its
/// track and is appended to the target track at a new start, unless it
/// would overlap there; a colliding move leaves the timeline unchanged.
pub open spec fn spec_move_item_to_track(tl: TimelineV, item_id: Id, new_track: Id, s: int) -> EditStep {
    match find_loc(tl, item_id) {
        None => EditStep { tl, err: Some(EditErr::ItemNotFound(item_id)) },
        Some(loc) => {
            match first_track_with(tl.tracks, new_track) {
                None => EditStep { tl, err: Some(EditErr::TrackNotFound(new_track)) },
                Some(k) => {
                    let moved = tl.tracks[loc.0].items[loc.1].with_track(new_track).with_start(s);
                    let tl_removed = with_track_items(
                        tl,
                        loc.0,
                        tl.tracks[loc.0].items.remove(loc.1),
                    );
                    if overlaps_any(tl_removed.tracks[k].items, moved) {
                        EditStep { tl, err: Some(EditErr::Overlap) }
                    } else {
                        EditStep {
                            tl: with_track_items(
                                tl_removed,
                                k,
                                tl_removed.tracks[k].items.push(moved),
                            ),
                            err: None,
                        }
                    }
                },
            }
        },
    }
}

impl Timeline {
    /// Move an item to a different index within its track's item
    /// sequence. Fails if the index is out of bounds.
    pub fn reorder_item(&mut self, item_id: Id, new_index: usize) -> (r: Result<(), CoreError>)
        ensures
            final(self)@ == spec_reorder_item(old(self)@, item_id, new_index as int).tl,
            result_matches(r, spec_reorder_item(old(self)@, item_id, new_index as int).err),
    {
        let (ti, ii) = match self.find_item_location(item_id) {
            Some(loc) => loc,
            None => {
                return Err(CoreError::ItemNotFound(item_id));
            },
        };
        let m = self.tracks[ti].items.len();
        if new_index >= m {
            return Err(
                CoreError::InvalidOperation("new index is out of bounds for the track".to_owned()),
            );
        }
        let ghost pre = self@;
        let ghost orig = pre.tracks[ti as int].items[ii as int];
        let item = self.tracks[ti].items.remove(ii);
        proof {
            assert(self@.tracks =~~= with_track_items(
                pre,
                ti as int,
                pre.tracks[ti as int].items.remove(ii as int),
            ).tracks);
            assert(self.tracks@.len() == self@.tracks.len());
            assert(self.tracks@[ti as int].items@.len() == self@.tracks[ti as int].items.len());
        }
        let ghost mid = self@;
        let ghost mid_sh = self.tracks@;
        self.tracks[ti].items.insert(new_index, item);
        proof {
            assert(self@.tracks[ti as int].items =~~= mid.tracks[ti as int].items.insert(
                new_index as int,
                orig,
            ));
            assert forall|x: int|
                0 <= x < pre.tracks.len() && x != ti as int implies self@.tracks[x] == mid.tracks[x] by {
                assert(self.tracks@[x] == mid_sh[x]);
                assert(self@.tracks[x] == self.tracks@[x]@);
                assert(mid.tracks[x] == mid_sh[x]@);
            }
            assert(self@.tracks =~~= spec_reorder_item(pre, item_id, new_index as int).tl.tracks);
        }
        Ok(())
    }

    /// Move an item to another track at a new start position. The
    /// operation is transactional: if the item would overlap on the
    /// target track, the timeline is left unchanged and the operation
    /// fails.
    pub fn move_item_to_track(&mut self, item_id: Id, new_track_id: Id, new_start_us: TimeUs) -> (r:
        Result<(), CoreError>)
        ensures
            final(self)@ == spec_move_item_to_track(
                old(self)@,
                item_id,
                new_track_id,
                new_start_us.0 as int,
            ).tl,
            result_matches(
                r,
                spec_move_item_to_track(old(self)@, item_id, new_track_id, new_start_us.0 as int).err,
            ),
    {
        let (ti, ii) = match self.find_item_location(item_id) {
            Some(loc) => loc,
            None => {
                return Err(CoreError::ItemNotFound(item_id));
            },
        };
        let k = match self.find_track_index(new_track_id) {
            Some(k) => k,
            None => {
                return Err(CoreError::TrackNotFound(new_track_id));
            },
        };
        let ghost pre = self@;
        let ghost orig = pre.tracks[ti as int].items[ii as int];
        let ghost moved = orig.with_track(new_track_id).with_start(new_start_us.0 as int);
        let dur: i128 = item_end_wide(&self.tracks[ti].items[ii]) - (self.tracks[ti].items[
            ii
        ].timeline_start_us().0 as i128);
        let new_start_wide: i128 = new_start_us.0 as i128;
        let moved_end: i128 = new_start_wide + dur;
        proof {
            assert(moved_end as int == moved.end());
        }
        let m = self.tracks[k].items.len();
        let mut j: usize = 0;
        while j < m
            invariant
                self@ == pre,
                find_loc(pre, item_id) == Some((ti as int, ii as int)),
                first_track_with(pre.tracks, new_track_id) == Some(k as int),
                ti < self.tracks.len(),
                k < self.tracks.len(),
                ii < pre.tracks[ti as int].items.len(),
                m == self.tracks[k as int].items.len(),
                moved == orig.with_track(new_track_id).with_start(new_start_us.0 as int),
                orig == pre.tracks[ti as int].items[ii as int],
                new_start_wide as int == moved.start(),
                moved_end as int == moved.end(),
                0 <= j <= m,
                forall|i: int|
                    0 <= i < j && !(k == ti && i == ii as int) ==> !overlaps(
                        self@.tracks[k as int].items[i],
                        moved,
                    ),
            decreases m - j,
        {
            if !(k == ti && j == ii) {
                let other_end = item_end_wide(&self.tracks[k].items[j]);
                let other_start = self.tracks[k].items[j].timeline_start_us().0 as i128;
                if other_start < moved_end && new_start_wide < other_end {
                    proof {
                        assert(overlaps(pre.tracks[k as int].items[j as int], moved));
                        if k == ti {
                            lemma_overlaps_any_remove(
                                pre.tracks[ti as int].items,
                                moved,
                                ii as int,
                            );
                        }
                    }
                    return Err(CoreError::OverlapDetected);
                }
            }
            j += 1;
        }
        proof {
            if k == ti {
                lemma_overlaps_any_remove(pre.tracks[ti as int].items, moved, ii as int);
            }
        }
        let mut item = self.tracks[ti].items.remove(ii);
        proof {
            assert(self@.tracks =~~= with_track_items(
                pre,
                ti as int,
                pre.tracks[ti as int].items.remove(ii as int),
            ).tracks);
            assert(self.tracks@.len() == self@.tracks.len());
        }
        set_track_id(&mut item, new_track_id);
        set_timeline_start(&mut item, new_start_us);
        let ghost mid = self@;
        let ghost mid_sh = self.tracks@;
        self.tracks[k].items.push(item);
        proof {
            assert(self@.tracks[k as int].items =~~= mid.tracks[k as int].items.push(moved));
            assert forall|x: int|
                0 <= x < pre.tracks.len() && x != k as int implies self@.tracks[x] == mid.tracks[x] by {
                assert(self.tracks@[x] == mid_sh[x]);
                assert(self@.tracks[x] == self.tracks@[x]@);
                assert(mid.tracks[x] == mid_sh[x]@);
            }
            let ghost target = spec_move_item_to_track(
                pre,
                item_id,
                new_track_id,
                new_start_us.0 as int,
            ).tl;
            assert forall|x: int| 0 <= x < pre.tracks.len() implies self@.tracks[x] =~~= target.tracks[x] by {
                if x == k as int {
                    assert(self@.tracks[x].items =~~= target.tracks[x].items);
                    assert(self@.tracks[x].id == target.tracks[x].id);
                    assert(self@.tracks[x].kind == target.tracks[x].kind);
                } else {
                    assert(self@.tracks[x] == mid.tracks[x]);
                }
            }
            assert(self@.tracks =~~= target.tracks);
        }
        Ok(())
    }
}

} // verus!
