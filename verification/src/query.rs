//! The operations the editing surface invokes beyond the core editing
//! engine: default track setup, clip creation from an asset, item
//! property updates, playhead queries and overlay queries.

use vstd::prelude::*;
use crate::editing::{find_loc, result_matches, spec_add_item, with_track_items};
use crate::error::CoreError;
use crate::ids::{fresh_id, Id};
use crate::time::TimeUs;
use crate::types::{AssetKind, AssetV, Item, ItemV, Project, Timeline, TimelineV, Track, TrackKind, TrackV};

verus! {

impl Timeline {
    /// Create the default video and audio tracks if the timeline has no
    /// tracks yet.
    pub fn init_default_tracks(&mut self)
        ensures
            old(self)@.tracks.len() > 0 ==> final(self)@ == old(self)@,
            old(self)@.tracks.len() == 0 ==> final(self)@.markers == old(self)@.markers && final(self)@.tracks.len() == 2 && final(self)@.tracks[0].kind == TrackKind::Video && final(self)@.tracks[1].kind == TrackKind::Audio && final(self)@.tracks[0].items.len() == 0
                && final(self)@.tracks[1].items.len() == 0,
    {
        if self.tracks.len() == 0 {
            let t1 = Track { id: fresh_id(), kind: TrackKind::Video, items: Vec::new() };
            let t2 = Track { id: fresh_id(), kind: TrackKind::Audio, items: Vec::new() };
            self.tracks.push(t1);
            self.tracks.push(t2);
            proof {
                assert(self@.tracks[0].items =~= Seq::empty());
                assert(self@.tracks[1].items =~= Seq::empty());
            }
        }
    }

    /// Append an empty track of the given kind and return its
    /// identifier.
    pub fn add_track(&mut self, kind: TrackKind) -> (r: Id)
        ensures
            final(self)@.markers == old(self)@.markers,
            final(self)@.tracks =~= old(self)@.tracks.push(
                TrackV { id: r, kind, items: Seq::empty() },
            ),
    {
        let id = fresh_id();
        self.tracks.push(Track { id, kind, items: Vec::new() });
        proof {
            assert(self@.tracks =~~= old(self)@.tracks.push(
                TrackV { id, kind, items: Seq::empty() },
            ));
        }
        id
    }
}

/// An audio clip with the item's identifier takes the new volume;
/// everything else is untouched.
pub open spec fn set_vol_item(it: ItemV, item_id: Id, v: u32) -> ItemV {
    match it {
        ItemV::AudioClip { id, asset_id, track_id, start, src_in, src_out, volume_milli } => {
            if id == item_id {
                ItemV::AudioClip {
                    id,
                    asset_id,
                    track_id,
                    start,
                    src_in,
                    src_out,
                    volume_milli: v,
                }
            } else {
                it
            }
        },
        _ => it,
    }
}

/// The timeline with the volume rule applied to every item.
pub open spec fn set_vol_tl(tl: TimelineV, item_id: Id, v: u32) -> TimelineV {
    TimelineV {
        tracks: Seq::new(
            tl.tracks.len(),
            |t: int|
                TrackV {
                    items: Seq::new(
                        tl.tracks[t].items.len(),
                        |i: int| set_vol_item(tl.tracks[t].items[i], item_id, v),
                    ),
                    ..tl.tracks[t]
                },
        ),
        markers: tl.markers,
    }
}

impl Timeline {
    /// Set the volume of every audio clip carrying the given identifier;
    /// items of other kinds are silently left alone.
    pub fn set_clip_volume(&mut self, item_id: Id, volume_milli: u32)
        ensures
            final(self)@ == set_vol_tl(old(self)@, item_id, volume_milli),
    {
        let ghost target = set_vol_tl(old(self)@, item_id, volume_milli);
        let n = self.tracks.len();
        proof {
            assert(self.tracks@.len() == self@.tracks.len());
        }
        let mut ti: usize = 0;
        while ti < n
            invariant
                0 <= ti <= n,
                target == set_vol_tl(old(self)@, item_id, volume_milli),
                old(self)@.tracks.len() == n,
                self@.tracks.len() == n,
                self@.markers == old(self)@.markers,
                forall|t: int| ti <= t < n ==> self@.tracks[t] == old(self)@.tracks[t],
                forall|t: int| 0 <= t < ti ==> self@.tracks[t] =~~= target.tracks[t],
            decreases n - ti,
        {
            proof {
                assert(self.tracks@.len() == self@.tracks.len());
            }
            let m = self.tracks[ti].items.len();
            proof {
                assert(self.tracks@[ti as int].items@.len() == self@.tracks[ti as int].items.len());
            }
            let mut ii: usize = 0;
            while ii < m
                invariant
                    0 <= ti < n,
                    m == self@.tracks[ti as int].items.len(),
                    0 <= ii <= m,
                    target == set_vol_tl(old(self)@, item_id, volume_milli),
                    old(self)@.tracks.len() == n,
                    self@.tracks.len() == n,
                    self@.markers == old(self)@.markers,
                    forall|t: int| ti < t < n ==> self@.tracks[t] == old(self)@.tracks[t],
                    forall|t: int| 0 <= t < ti ==> self@.tracks[t] =~~= target.tracks[t],
                    self@.tracks[ti as int].id == old(self)@.tracks[ti as int].id,
                    self@.tracks[ti as int].kind == old(self)@.tracks[ti as int].kind,
                    old(self)@.tracks[ti as int].items.len() == m,
                    forall|i: int|
                        0 <= i < ii ==> self@.tracks[ti as int].items[i] == set_vol_item(
                            old(self)@.tracks[ti as int].items[i],
                            item_id,
                            volume_milli,
                        ),
                    forall|i: int|
                        ii <= i < m ==> self@.tracks[ti as int].items[i] == old(
                            self,
                        )@.tracks[ti as int].items[i],
                decreases m - ii,
            {
                let is_match = match &self.tracks[ti].items[ii] {
                    Item::AudioClip { id, .. } => *id == item_id,
                    _ => false,
                };
                if is_match {
                    let mut it = self.tracks[ti].items[ii].clone();
                    match &mut it {
                        Item::AudioClip { volume_milli: vol, .. } => {
                            *vol = volume_milli;
                        },
                        _ => {},
                    }
                    proof {
                        assert(self.tracks@.len() == self@.tracks.len());
                        assert(self.tracks@[ti as int].items@.len() == self@.tracks[
                            ti as int
                        ].items.len());
                        assert(it@ == set_vol_item(
                            self@.tracks[ti as int].items[ii as int],
                            item_id,
                            volume_milli,
                        ));
                    }
                    proof {
                        assert(self.tracks@.len() == self@.tracks.len());
                    }
                    self.write_item(ti, ii, it);
                }
                proof {
                    assert(self.tracks@.len() == self@.tracks.len());
                    assert(self.tracks@[ti as int].items@.len() == self@.tracks[
                        ti as int
                    ].items.len());
                }
                ii += 1;
            }
            proof {
                assert(self@.tracks[ti as int].id == target.tracks[ti as int].id);
                assert(self@.tracks[ti as int].kind == target.tracks[ti as int].kind);
                assert(self@.tracks[ti as int].items.len() == target.tracks[
                    ti as int
                ].items.len());
                assert forall|i: int|
                    0 <= i < m implies self@.tracks[ti as int].items[i] == target.tracks[
                    ti as int
                ].items[i] by {
                    assert(target.tracks[ti as int].items[i] == set_vol_item(
                        old(self)@.tracks[ti as int].items[i],
                        item_id,
                        volume_milli,
                    ));
                }
                assert(self@.tracks[ti as int] =~~= target.tracks[ti as int]);
            }
            ti += 1;
        }
        proof {
            assert(self@.tracks =~~= target.tracks);
        }
    }
}

/// A typed item property update, fractional values in thousandths.
pub enum ItemProperty {
    Volume(u32),
    Text(String),
    FontSize(u32),
    Color(String),
    X(i32),
    Y(i32),
    Width(u32),
    Height(u32),
    Opacity(u32),
}

/// Mathematical view of a property update.
#[verifier::ext_equal]
pub ghost enum ItemPropertyV {
    Volume(u32),
    Text(Seq<char>),
    FontSize(u32),
    Color(Seq<char>),
    X(i32),
    Y(i32),
    Width(u32),
    Height(u32),
    Opacity(u32),
}

impl View for ItemProperty {
    type V = ItemPropertyV;

    open spec fn view(&self) -> ItemPropertyV {
        match self {
            ItemProperty::Volume(v) => ItemPropertyV::Volume(*v),
            ItemProperty::Text(s) => ItemPropertyV::Text(s@),
            ItemProperty::FontSize(v) => ItemPropertyV::FontSize(*v),
            ItemProperty::Color(s) => ItemPropertyV::Color(s@),
            ItemProperty::X(v) => ItemPropertyV::X(*v),
            ItemProperty::Y(v) => ItemPropertyV::Y(*v),
            ItemProperty::Width(v) => ItemPropertyV::Width(*v),
            ItemProperty::Height(v) => ItemPropertyV::Height(*v),
            ItemProperty::Opacity(v) => ItemPropertyV::Opacity(*v),
        }
    }
}

/// The item with a property applied, or `None` when the property does
/// not belong to the item's kind. A video clip accepts no property and
/// swallows every update unchanged, as the inspector offers none for it.
pub open spec fn apply_property(it: ItemV, prop: ItemPropertyV) -> Option<ItemV> {
    match it {
        ItemV::VideoClip { .. } => Some(it),
        ItemV::AudioClip { id, asset_id, track_id, start, src_in, src_out, volume_milli } => {
            match prop {
                ItemPropertyV::Volume(v) => Some(
                    ItemV::AudioClip {
                        id,
                        asset_id,
                        track_id,
                        start,
                        src_in,
                        src_out,
                        volume_milli: v,
                    },
                ),
                _ => None,
            }
        },
        ItemV::TextOverlay { id, track_id, start, dur, text, font_size, color, x, y } => {
            match prop {
                ItemPropertyV::Text(s) => Some(
                    ItemV::TextOverlay { id, track_id, start, dur, text: s, font_size, color, x, y },
                ),
                ItemPropertyV::FontSize(v) => Some(
                    ItemV::TextOverlay {
                        id,
                        track_id,
                        start,
                        dur,
                        text,
                        font_size: v,
                        color,
                        x,
                        y,
                    },
                ),
                ItemPropertyV::Color(s) => Some(
                    ItemV::TextOverlay { id, track_id, start, dur, text, font_size, color: s, x, y },
                ),
                ItemPropertyV::X(v) => Some(
                    ItemV::TextOverlay { id, track_id, start, dur, text, font_size, color, x: v, y },
                ),
                ItemPropertyV::Y(v) => Some(
                    ItemV::TextOverlay { id, track_id, start, dur, text, font_size, color, x, y: v },
                ),
                _ => None,
            }
        },
        ItemV::ImageOverlay { id, asset_id, track_id, start, dur, x, y, width, height, opacity_milli } => {
            match prop {
                ItemPropertyV::X(v) => Some(
                    ItemV::ImageOverlay {
                        id,
                        asset_id,
                        track_id,
                        start,
                        dur,
                        x: v,
                        y,
                        width,
                        height,
                        opacity_milli,
                    },
                ),
                ItemPropertyV::Y(v) => Some(
                    ItemV::ImageOverlay {
                        id,
                        asset_id,
                        track_id,
                        start,
                        dur,
                        x,
                        y: v,
                        width,
                        height,
                        opacity_milli,
                    },
                ),
                ItemPropertyV::Width(v) => Some(
                    ItemV::ImageOverlay {
                        id,
                        asset_id,
                        track_id,
                        start,
                        dur,
                        x,
                        y,
                        width: v,
                        height,
                        opacity_milli,
                    },
                ),
                ItemPropertyV::Height(v) => Some(
                    ItemV::ImageOverlay {
                        id,
                        asset_id,
                        track_id,
                        start,
                        dur,
                        x,
                        y,
                        width,
                        height: v,
                        opacity_milli,
                    },
                ),
                ItemPropertyV::Opacity(v) => Some(
                    ItemV::ImageOverlay {
                        id,
                        asset_id,
                        track_id,
                        start,
                        dur,
                        x,
                        y,
                        width,
                        height,
                        opacity_milli: v,
                    },
                ),
                _ => None,
            }
        },
    }
}

impl Timeline {
    /// Apply a property update to the first item carrying the
    /// identifier. Fails if no such item exists or the property does not
    /// belong to the item's kind.
    pub fn update_item_property(&mut self, item_id: Id, prop: ItemProperty) -> (r: Result<
        (),
        CoreError,
    >)
        ensures
            match find_loc(old(self)@, item_id) {
                None => final(self)@ == old(self)@ && (r matches Err(
                    CoreError::ItemNotFound(i),
                ) && i == item_id),
                Some(loc) => {
                    match apply_property(old(self)@.tracks[loc.0].items[loc.1], prop@) {
                        None => final(self)@ == old(self)@ && (r matches Err(
                            CoreError::InvalidOperation(_),
                        )),
                        Some(it2) => r is Ok && final(self)@ == with_track_items(
                            old(self)@,
                            loc.0,
                            old(self)@.tracks[loc.0].items.update(loc.1, it2),
                        ),
                    }
                },
            },
    {
        let (ti, ii) = match self.find_item_location(item_id) {
            Some(loc) => loc,
            None => {
                return Err(CoreError::ItemNotFound(item_id));
            },
        };
        let mut it = self.tracks[ti].items[ii].clone();
        let applied: bool = match (&mut it, prop) {
            (Item::VideoClip { .. }, _) => true,
            (Item::AudioClip { volume_milli, .. }, ItemProperty::Volume(v)) => {
                *volume_milli = v;
                true
            },
            (Item::TextOverlay { text, .. }, ItemProperty::Text(s)) => {
                *text = s;
                true
            },
            (Item::TextOverlay { font_size, .. }, ItemProperty::FontSize(v)) => {
                *font_size = v;
                true
            },
            (Item::TextOverlay { color, .. }, ItemProperty::Color(s)) => {
                *color = s;
                true
            },
            (Item::TextOverlay { x, .. }, ItemProperty::X(v)) => {
                *x = v;
                true
            },
            (Item::TextOverlay { y, .. }, ItemProperty::Y(v)) => {
                *y = v;
                true
            },
            (Item::ImageOverlay { x, .. }, ItemProperty::X(v)) => {
                *x = v;
                true
            },
            (Item::ImageOverlay { y, .. }, ItemProperty::Y(v)) => {
                *y = v;
                true
            },
            (Item::ImageOverlay { width, .. }, ItemProperty::Width(v)) => {
                *width = v;
                true
            },
            (Item::ImageOverlay { height, .. }, ItemProperty::Height(v)) => {
                *height = v;
                true
            },
            (Item::ImageOverlay { opacity_milli, .. }, ItemProperty::Opacity(v)) => {
                *opacity_milli = v;
                true
            },
            _ => false,
        };
        if !applied {
            return Err(
                CoreError::InvalidOperation("property does not apply to this item".to_owned()),
            );
        }
        self.write_item(ti, ii, it);
        Ok(())
    }
}

/// The item a new clip of an asset becomes: a video or audio clip over
/// the asset's probed duration (or a five-second default window), or a
/// five-second image overlay at a default position and size.
pub open spec fn clip_item_for(asset: AssetV, track_id: Id, start: int, id: Id) -> ItemV {
    let duration: int = match asset.probe {
        Some(pr) => pr.duration,
        None => 5000000,
    };
    match asset.kind {
        AssetKind::Video => ItemV::VideoClip {
            id,
            asset_id: asset.id,
            track_id,
            start,
            src_in: 0,
            src_out: duration,
        },
        AssetKind::Audio => ItemV::AudioClip {
            id,
            asset_id: asset.id,
            track_id,
            start,
            src_in: 0,
            src_out: duration,
            volume_milli: 1000,
        },
        AssetKind::Image => ItemV::ImageOverlay {
            id,
            asset_id: asset.id,
            track_id,
            start,
            dur: 5000000,
            x: 0,
            y: 0,
            width: 320,
            height: 240,
            opacity_milli: 1000,
        },
    }
}

impl Project {
    /// Add a clip of the asset to the track at the given start: a source
    /// clip over the probed duration for video and audio assets, an
    /// image overlay for image assets. Returns the new item's
    /// identifier.
    pub fn add_clip(&mut self, asset_id: Id, track_id: Id, timeline_start_us: TimeUs) -> (r: Result<
        Id,
        CoreError,
    >)
        ensures
            final(self)@.assets == old(self)@.assets,
            final(self)@.name == old(self)@.name,
            final(self)@.settings == old(self)@.settings,
            crate::render::find_asset_spec(old(self)@, asset_id) is None ==> final(self)@ == old(
                self,
            )@ && (r matches Err(CoreError::InvalidOperation(_))),
            r matches Ok(id) ==> (crate::render::find_asset_spec(old(self)@, asset_id) matches Some(
                k,
            ) && ({
                let item = clip_item_for(
                    old(self)@.assets[k],
                    track_id,
                    timeline_start_us.0 as int,
                    id,
                );
                let step = spec_add_item(old(self)@.timeline, track_id, item);
                step.err is None && final(self)@.timeline == step.tl
            })),
            r is Err ==> final(self)@ == old(self)@,
            r is Err ==> (crate::render::find_asset_spec(old(self)@, asset_id) matches Some(k)
                ==> exists|id: Id|
                result_matches(
                    r,
                    spec_add_item(
                        old(self)@.timeline,
                        track_id,
                        #[trigger] clip_item_for(
                            old(self)@.assets[k],
                            track_id,
                            timeline_start_us.0 as int,
                            id,
                        ),
                    ).err,
                )),
    {
        let n = self.assets.len();
        let mut i: usize = 0;
        let mut found: Option<usize> = None;
        while i < n
            invariant
                n == self.assets@.len(),
                0 <= i <= n,
                found is Some ==> i == n,
                match found {
                    Some(f) => f < n && crate::render::first_asset_at(self@, asset_id, f as int),
                    None => forall|j: int| 0 <= j < i ==> self@.assets[j].id != asset_id,
                },
            decreases n - i,
        {
            proof {
                assert(self@.assets[i as int] == self.assets@[i as int]@);
            }
            if self.assets[i].id == asset_id {
                proof {
                    assert(crate::render::first_asset_at(self@, asset_id, i as int));
                }
                found = Some(i);
                i = n;
            } else {
                i += 1;
            }
        }
        let k = match found {
            Some(f) => {
                proof {
                    crate::render::lemma_find_asset_is(self@, asset_id, f as int);
                }
                f
            },
            None => {
                proof {
                    assert forall|i2: int| !crate::render::first_asset_at(
                        self@,
                        asset_id,
                        i2,
                    ) by {}
                }
                return Err(CoreError::InvalidOperation("asset not found".to_owned()));
            },
        };
        let id = fresh_id();
        let duration: TimeUs = match &self.assets[k].probe {
            Some(pr) => pr.duration_us,
            None => TimeUs(5000000),
        };
        let item = match self.assets[k].kind {
            AssetKind::Video => Item::VideoClip {
                id,
                asset_id: self.assets[k].id,
                track_id,
                timeline_start_us,
                source_in_us: TimeUs(0),
                source_out_us: duration,
            },
            AssetKind::Audio => Item::AudioClip {
                id,
                asset_id: self.assets[k].id,
                track_id,
                timeline_start_us,
                source_in_us: TimeUs(0),
                source_out_us: duration,
                volume_milli: 1000,
            },
            AssetKind::Image => Item::ImageOverlay {
                id,
                asset_id: self.assets[k].id,
                track_id,
                timeline_start_us,
                duration_us: TimeUs(5000000),
                x: 0,
                y: 0,
                width: 320,
                height: 240,
                opacity_milli: 1000,
            },
        };
        proof {
            assert(self@.assets[k as int] == self.assets@[k as int]@);
            assert(item@ == clip_item_for(
                self@.assets[k as int],
                track_id,
                timeline_start_us.0 as int,
                id,
            ));
        }
        match self.timeline.add_item(track_id, item) {
            Ok(()) => Ok(id),
            Err(e) => Err(e),
        }
    }
}


} // verus!
