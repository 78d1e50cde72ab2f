//! The library's laws: properties that relate several operations, stated
//! once and proved from the operations' specifications.

use vstd::prelude::*;
use crate::editing::{
    find_loc, first_track_with, lemma_find_loc_tracks_is, lemma_find_loc_tracks_sound,
    lemma_first_track_with_is, overlaps, overlaps_any, spec_add_item, spec_remove_item,
    spec_split_err, spec_split_halves, with_track_items, EditErr,
};
use crate::history::{cmd_execute, cmd_undo, CommandV};
use crate::ids::Id;
use crate::types::{ItemV, TimelineV};

verus! {

// ---------------------------------------------------------------------------
// Adding non-overlapping items commutes; overlapping additions are
// rejected without effect
// ---------------------------------------------------------------------------

/// A `Some` answer of `first_track_with` is a valid first match.
pub proof fn lemma_first_track_with_sound(tracks: Seq<crate::types::TrackV>, id: Id)
    ensures
        first_track_with(tracks, id) matches Some(i) ==> 0 <= i < tracks.len() && tracks[i].id
            == id && forall|j: int| 0 <= j < i ==> tracks[j].id != id,
    decreases tracks.len(),
{
    if tracks.len() > 0 && tracks[0].id != id {
        lemma_first_track_with_sound(tracks.drop_first(), id);
        if first_track_with(tracks, id) is Some {
            let i = first_track_with(tracks, id).unwrap();
            assert forall|j: int| 0 <= j < i implies tracks[j].id != id by {
                if j > 0 {
                    assert(tracks.drop_first()[j - 1] == tracks[j]);
                }
            }
            assert(tracks.drop_first()[i - 1] == tracks[i]);
        }
    }
}

/// Two items that do not overlap each other, and can each be added to a
/// track on their own, can be added one after the other in either
/// order: neither addition blocks the other.
pub proof fn lemma_add_item_commutes(tl: TimelineV, track_id: Id, a: ItemV, b: ItemV)
    requires
        !overlaps(a, b),
        spec_add_item(tl, track_id, a).err is None,
        spec_add_item(tl, track_id, b).err is None,
    ensures
        spec_add_item(spec_add_item(tl, track_id, a).tl, track_id, b).err is None,
        spec_add_item(spec_add_item(tl, track_id, b).tl, track_id, a).err is None,
{
    lemma_add_one_then_other(tl, track_id, a, b);
    lemma_add_one_then_other(tl, track_id, b, a);
}

/// One direction of the commutation: after a succeeds, b still succeeds.
proof fn lemma_add_one_then_other(tl: TimelineV, track_id: Id, a: ItemV, b: ItemV)
    requires
        !overlaps(a, b),
        spec_add_item(tl, track_id, a).err is None,
        spec_add_item(tl, track_id, b).err is None,
    ensures
        spec_add_item(spec_add_item(tl, track_id, a).tl, track_id, b).err is None,
{
    lemma_first_track_with_sound(tl.tracks, track_id);
    let k = first_track_with(tl.tracks, track_id).unwrap();
    let tl2 = spec_add_item(tl, track_id, a).tl;
    assert(tl2.tracks[k].id == track_id);
    assert forall|j: int| 0 <= j < k implies tl2.tracks[j].id != track_id by {
        assert(tl2.tracks[j] == tl.tracks[j]);
    }
    lemma_first_track_with_is(tl2.tracks, track_id, k);
    let items2 = tl2.tracks[k].items;
    assert(items2 == tl.tracks[k].items.push(a));
    if overlaps_any(items2, b) {
        let j = choose|j: int| 0 <= j < items2.len() && #[trigger] overlaps(items2[j], b);
        if j < tl.tracks[k].items.len() {
            assert(overlaps(tl.tracks[k].items[j], b));
            assert(overlaps_any(tl.tracks[k].items, b));
            assert(false);
        } else {
            assert(items2[j] == a);
            assert(false);
        }
    }
}

/// Adding an item that overlaps an already-added one is rejected with
/// an overlap error and leaves the timeline unchanged.
pub proof fn lemma_add_item_overlap_rejected(tl: TimelineV, track_id: Id, a: ItemV, b: ItemV)
    requires
        overlaps(a, b),
        spec_add_item(tl, track_id, a).err is None,
    ensures
        spec_add_item(spec_add_item(tl, track_id, a).tl, track_id, b).err == Some(EditErr::Overlap),
        spec_add_item(spec_add_item(tl, track_id, a).tl, track_id, b).tl == spec_add_item(
            tl,
            track_id,
            a,
        ).tl,
{
    lemma_first_track_with_sound(tl.tracks, track_id);
    let k = first_track_with(tl.tracks, track_id).unwrap();
    let tl2 = spec_add_item(tl, track_id, a).tl;
    assert(tl2.tracks[k].id == track_id);
    assert forall|j: int| 0 <= j < k implies tl2.tracks[j].id != track_id by {
        assert(tl2.tracks[j] == tl.tracks[j]);
    }
    lemma_first_track_with_is(tl2.tracks, track_id, k);
    let items2 = tl2.tracks[k].items;
    assert(items2 == tl.tracks[k].items.push(a));
    assert(items2[items2.len() - 1] == a);
    assert(overlaps(items2[items2.len() - 1], b));
    assert(overlaps_any(items2, b));
}

// ---------------------------------------------------------------------------
// Splitting then undoing restores the original item exactly
// ---------------------------------------------------------------------------

/// Whether some item on the timeline carries the identifier.
pub open spec fn tl_has_id(tl: TimelineV, id: Id) -> bool {
    exists|t: int, i: int|
        0 <= t < tl.tracks.len() && 0 <= i < tl.tracks[t].items.len() && (
        #[trigger] tl.tracks[t].items[i]).id() == id
}

/// Every item identifier on the timeline is carried by exactly one
/// item: the well-formedness that identifier-based addressing relies on.
pub open spec fn distinct_ids(tl: TimelineV) -> bool {
    forall|t1: int, i1: int, t2: int, i2: int|
        0 <= t1 < tl.tracks.len() && 0 <= i1 < tl.tracks[t1].items.len() && 0 <= t2
            < tl.tracks.len() && 0 <= i2 < tl.tracks[t2].items.len() && !(t1 == t2 && i1 == i2)
            ==> (#[trigger] tl.tracks[t1].items[i1]).id() != (
        #[trigger] tl.tracks[t2].items[i2]).id()
}

/// Splitting an item and then undoing the split restores the original
/// single item, with its original identifier, start and end, and leaves
/// the whole timeline exactly as it was. The right half's identifier
/// must be fresh, as a generated identifier is.
pub proof fn lemma_split_undo_restores(tl: TimelineV, item_id: Id, t: int, rid: Id)
    requires
        spec_split_err(tl, item_id, t) is None,
        distinct_ids(tl),
        !tl_has_id(tl, rid),
    ensures
        ({
            let c = CommandV::Split { item_id, split_time: t, right_id: None, original_item: None };
            let (c2, step) = cmd_execute(c, tl, rid);
            step.err is None && cmd_undo(c2, step.tl).err is None && cmd_undo(c2, step.tl).tl == tl
        }),
{
    let c = CommandV::Split { item_id, split_time: t, right_id: None, original_item: None };
    let (c2, step) = cmd_execute(c, tl, rid);
    lemma_find_loc_tracks_sound(tl.tracks, item_id);
    let loc = find_loc(tl, item_id).unwrap();
    let ti = loc.0;
    let ii = loc.1;
    let orig = tl.tracks[ti].items[ii];
    let halves = spec_split_halves(orig, t, rid);
    let left = halves.0;
    let right = halves.1;
    let items = tl.tracks[ti].items;
    let items2 = items.update(ii, left).insert(ii + 1, right);
    items.update(ii, left).insert_ensures(ii + 1, right);
    let tl2 = step.tl;
    assert(tl2 == with_track_items(tl, ti, items2));
    assert(left.id() == item_id && right.id() == rid);
    // The right half sits at (ti, ii + 1) and nothing earlier carries rid.
    assert(items2[ii + 1] == right);
    assert forall|j: int| 0 <= j < ii + 1 implies items2[j].id() != rid by {
        if j < ii {
            assert(items2[j] == items[j]);
        } else {
            assert(items2[j] == left);
        }
    }
    assert forall|t2: int, j: int|
        0 <= t2 < ti && 0 <= j < tl2.tracks[t2].items.len() implies tl2.tracks[t2].items[j].id()
        != rid by {
        assert(tl2.tracks[t2] == tl.tracks[t2]);
    }
    lemma_find_loc_tracks_is(tl2.tracks, rid, ti, ii + 1);
    let step1 = spec_remove_item(tl2, rid);
    assert(step1.err is None);
    let items3 = items2.remove(ii + 1);
    assert(step1.tl == with_track_items(tl2, ti, items3));
    items2.remove_ensures(ii + 1);
    assert(items3 =~= items.update(ii, left));
    let tl3 = step1.tl;
    // The left half sits at (ti, ii) and nothing earlier carries the
    // original identifier.
    assert(tl3.tracks[ti].items[ii] == left);
    assert forall|j: int| 0 <= j < ii implies tl3.tracks[ti].items[j].id() != item_id by {
        assert(tl3.tracks[ti].items[j] == items[j]);
        assert(tl.tracks[ti].items[j].id() != tl.tracks[ti].items[ii].id());
    }
    assert forall|t2: int, j: int|
        0 <= t2 < ti && 0 <= j < tl3.tracks[t2].items.len() implies tl3.tracks[t2].items[j].id()
        != item_id by {
        assert(tl3.tracks[t2] == tl.tracks[t2]);
        assert(tl.tracks[t2].items[j].id() != tl.tracks[ti].items[ii].id());
    }
    lemma_find_loc_tracks_is(tl3.tracks, item_id, ti, ii);
    let fin = cmd_undo(c2, tl2);
    assert(fin.err is None);
    let items4 = items3.update(ii, orig);
    assert(items4 =~= items);
    assert(fin.tl.tracks =~~= tl.tracks);
    assert(fin.tl.markers == tl.markers);
    assert(fin.tl =~~= tl);
}

// ---------------------------------------------------------------------------
// The undo stack is bounded: a run of successful commands leaves
// exactly the configured depth available
// ---------------------------------------------------------------------------

/// The undo stack that a run of successfully executed commands leaves,
/// applying the bounded push for each in turn.
pub open spec fn apply_pushes(cmds: Seq<CommandV>, max: int) -> Seq<CommandV>
    decreases cmds.len(),
{
    if cmds.len() == 0 {
        Seq::empty()
    } else {
        crate::history::push_bounded(apply_pushes(cmds.drop_last(), max), cmds.last(), max)
    }
}

/// After any run of successfully executed commands, the undo stack
/// holds the more recent of them up to the configured depth: its length
/// is the run's length capped at the depth, so exactly that many undos
/// are available before the stack is empty.
pub proof fn lemma_bounded_history_depth(cmds: Seq<CommandV>, max: int)
    requires
        max >= 0,
    ensures
        apply_pushes(cmds, max).len() == if cmds.len() <= max {
            cmds.len() as int
        } else {
            max
        },
    decreases cmds.len(),
{
    if cmds.len() > 0 {
        lemma_bounded_history_depth(cmds.drop_last(), max);
    }
}

} // verus!
