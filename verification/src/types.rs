//! The timeline data model: assets, items, tracks, markers, timelines and
//! projects, together with their mathematical views. Fractional quantities
//! (volume, opacity, frame rates) are stored as integer thousandths so that
//! the model never holds floating point; conversion to floats is interop
//! for the surrounding application only.

use vstd::prelude::*;
use crate::ids::Id;
use crate::time::TimeUs;

verus! {

// ---------------------------------------------------------------------------
// Asset
// ---------------------------------------------------------------------------

/// What kind of media an asset holds.
#[derive(Debug, Clone, Copy, PartialEq, Eq, Structural)]
pub enum AssetKind {
    Video,
    Audio,
    Image,
}

/// The result of probing a media file: duration, pixel dimensions, frame
/// rate in thousandths of a frame per second, codec name, and audio layout.
#[derive(Debug)]
pub struct ProbeResult {
    pub duration_us: TimeUs,
    pub width: u32,
    pub height: u32,
    pub fps_milli: u32,
    pub codec: String,
    pub audio_channels: u32,
    pub audio_sample_rate: u32,
}

/// Mathematical view of a probe result.
#[verifier::ext_equal]
pub ghost struct ProbeV {
    pub duration: int,
    pub width: u32,
    pub height: u32,
    pub fps_milli: u32,
    pub codec: Seq<char>,
    pub audio_channels: u32,
    pub audio_sample_rate: u32,
}

impl View for ProbeResult {
    type V = ProbeV;

    open spec fn view(&self) -> ProbeV {
        ProbeV {
            duration: self.duration_us.0 as int,
            width: self.width,
            height: self.height,
            fps_milli: self.fps_milli,
            codec: self.codec@,
            audio_channels: self.audio_channels,
            audio_sample_rate: self.audio_sample_rate,
        }
    }
}

/// An imported media source. Immutable after import except for removal.
#[derive(Debug)]
pub struct Asset {
    pub id: Id,
    pub name: String,
    pub path: String,
    pub kind: AssetKind,
    pub probe: Option<ProbeResult>,
}

/// Mathematical view of an asset.
#[verifier::ext_equal]
pub ghost struct AssetV {
    pub id: Id,
    pub name: Seq<char>,
    pub path: Seq<char>,
    pub kind: AssetKind,
    pub probe: Option<ProbeV>,
}

impl View for Asset {
    type V = AssetV;

    open spec fn view(&self) -> AssetV {
        AssetV {
            id: self.id,
            name: self.name@,
            path: self.path@,
            kind: self.kind,
            probe: match self.probe {
                Some(p) => Some(p@),
                None => None,
            },
        }
    }
}

// ---------------------------------------------------------------------------
// Item
// ---------------------------------------------------------------------------

/// What kind of items a track carries.
#[derive(Debug, Clone, Copy, PartialEq, Eq, Structural)]
pub enum TrackKind {
    Video,
    Audio,
    OverlayImage,
    OverlayText,
}

/// A timeline item: a trimmed window of a source asset (video or audio
/// clip), or an overlay with an explicit duration (image or text).
#[derive(Debug)]
pub enum Item {
    VideoClip {
        id: Id,
        asset_id: Id,
        track_id: Id,
        timeline_start_us: TimeUs,
        source_in_us: TimeUs,
        source_out_us: TimeUs,
    },
    AudioClip {
        id: Id,
        asset_id: Id,
        track_id: Id,
        timeline_start_us: TimeUs,
        source_in_us: TimeUs,
        source_out_us: TimeUs,
        volume_milli: u32,
    },
    ImageOverlay {
        id: Id,
        asset_id: Id,
        track_id: Id,
        timeline_start_us: TimeUs,
        duration_us: TimeUs,
        x: i32,
        y: i32,
        width: u32,
        height: u32,
        opacity_milli: u32,
    },
    TextOverlay {
        id: Id,
        track_id: Id,
        timeline_start_us: TimeUs,
        duration_us: TimeUs,
        text: String,
        font_size: u32,
        color: String,
        x: i32,
        y: i32,
    },
}

/// Mathematical view of an item. Times are unbounded integers.
#[verifier::ext_equal]
pub ghost enum ItemV {
    VideoClip { id: Id, asset_id: Id, track_id: Id, start: int, src_in: int, src_out: int },
    AudioClip {
        id: Id,
        asset_id: Id,
        track_id: Id,
        start: int,
        src_in: int,
        src_out: int,
        volume_milli: u32,
    },
    ImageOverlay {
        id: Id,
        asset_id: Id,
        track_id: Id,
        start: int,
        dur: int,
        x: i32,
        y: i32,
        width: u32,
        height: u32,
        opacity_milli: u32,
    },
    TextOverlay {
        id: Id,
        track_id: Id,
        start: int,
        dur: int,
        text: Seq<char>,
        font_size: u32,
        color: Seq<char>,
        x: i32,
        y: i32,
    },
}

impl ItemV {
    /// The item's own identifier.
    pub open spec fn id(self) -> Id {
        match self {
            ItemV::VideoClip { id, .. } => id,
            ItemV::AudioClip { id, .. } => id,
            ItemV::ImageOverlay { id, .. } => id,
            ItemV::TextOverlay { id, .. } => id,
        }
    }

    /// The identifier of the track that owns the item.
    pub open spec fn track_id(self) -> Id {
        match self {
            ItemV::VideoClip { track_id, .. } => track_id,
            ItemV::AudioClip { track_id, .. } => track_id,
            ItemV::ImageOverlay { track_id, .. } => track_id,
            ItemV::TextOverlay { track_id, .. } => track_id,
        }
    }

    /// The referenced asset, if the item kind has one.
    pub open spec fn asset_id(self) -> Option<Id> {
        match self {
            ItemV::VideoClip { asset_id, .. } => Some(asset_id),
            ItemV::AudioClip { asset_id, .. } => Some(asset_id),
            ItemV::ImageOverlay { asset_id, .. } => Some(asset_id),
            ItemV::TextOverlay { .. } => None,
        }
    }

    /// Placement on the timeline.
    pub open spec fn start(self) -> int {
        match self {
            ItemV::VideoClip { start, .. } => start,
            ItemV::AudioClip { start, .. } => start,
            ItemV::ImageOverlay { start, .. } => start,
            ItemV::TextOverlay { start, .. } => start,
        }
    }

    /// Duration: the source window for clips, the explicit duration for
    /// overlays.
    pub open spec fn dur(self) -> int {
        match self {
            ItemV::VideoClip { src_in, src_out, .. } => src_out - src_in,
            ItemV::AudioClip { src_in, src_out, .. } => src_out - src_in,
            ItemV::ImageOverlay { dur, .. } => dur,
            ItemV::TextOverlay { dur, .. } => dur,
        }
    }

    /// One past the item's last microsecond on the timeline.
    pub open spec fn end(self) -> int {
        self.start() + self.dur()
    }

    /// The same item placed at a new timeline start.
    pub open spec fn with_start(self, s: int) -> ItemV {
        match self {
            ItemV::VideoClip { id, asset_id, track_id, start, src_in, src_out } => (ItemV::VideoClip {
                id,
                asset_id,
                track_id,
                start: s,
                src_in,
                src_out,
            }),
            ItemV::AudioClip { id, asset_id, track_id, start, src_in, src_out, volume_milli } => (ItemV::AudioClip {
                id,
                asset_id,
                track_id,
                start: s,
                src_in,
                src_out,
                volume_milli,
            }),
            ItemV::ImageOverlay {
                id,
                asset_id,
                track_id,
                start,
                dur,
                x,
                y,
                width,
                height,
                opacity_milli,
            } => (ItemV::ImageOverlay {
                id,
                asset_id,
                track_id,
                start: s,
                dur,
                x,
                y,
                width,
                height,
                opacity_milli,
            }),
            ItemV::TextOverlay { id, track_id, start, dur, text, font_size, color, x, y } => (ItemV::TextOverlay {
                id,
                track_id,
                start: s,
                dur,
                text,
                font_size,
                color,
                x,
                y,
            }),
        }
    }

    /// The same item moved to another track.
    pub open spec fn with_track(self, t: Id) -> ItemV {
        match self {
            ItemV::VideoClip { id, asset_id, track_id, start, src_in, src_out } => (ItemV::VideoClip {
                id,
                asset_id,
                track_id: t,
                start,
                src_in,
                src_out,
            }),
            ItemV::AudioClip { id, asset_id, track_id, start, src_in, src_out, volume_milli } => (ItemV::AudioClip {
                id,
                asset_id,
                track_id: t,
                start,
                src_in,
                src_out,
                volume_milli,
            }),
            ItemV::ImageOverlay {
                id,
                asset_id,
                track_id,
                start,
                dur,
                x,
                y,
                width,
                height,
                opacity_milli,
            } => (ItemV::ImageOverlay {
                id,
                asset_id,
                track_id: t,
                start,
                dur,
                x,
                y,
                width,
                height,
                opacity_milli,
            }),
            ItemV::TextOverlay { id, track_id, start, dur, text, font_size, color, x, y } => (ItemV::TextOverlay {
                id,
                track_id: t,
                start,
                dur,
                text,
                font_size,
                color,
                x,
                y,
            }),
        }
    }
}

impl View for Item {
    type V = ItemV;

    open spec fn view(&self) -> ItemV {
        match self {
            Item::VideoClip { id, asset_id, track_id, timeline_start_us, source_in_us, source_out_us } => (ItemV::VideoClip {
                id: *id,
                asset_id: *asset_id,
                track_id: *track_id,
                start: timeline_start_us.0 as int,
                src_in: source_in_us.0 as int,
                src_out: source_out_us.0 as int,
            }),
            Item::AudioClip {
                id,
                asset_id,
                track_id,
                timeline_start_us,
                source_in_us,
                source_out_us,
                volume_milli,
            } => (ItemV::AudioClip {
                id: *id,
                asset_id: *asset_id,
                track_id: *track_id,
                start: timeline_start_us.0 as int,
                src_in: source_in_us.0 as int,
                src_out: source_out_us.0 as int,
                volume_milli: *volume_milli,
            }),
            Item::ImageOverlay {
                id,
                asset_id,
                track_id,
                timeline_start_us,
                duration_us,
                x,
                y,
                width,
                height,
                opacity_milli,
            } => (ItemV::ImageOverlay {
                id: *id,
                asset_id: *asset_id,
                track_id: *track_id,
                start: timeline_start_us.0 as int,
                dur: duration_us.0 as int,
                x: *x,
                y: *y,
                width: *width,
                height: *height,
                opacity_milli: *opacity_milli,
            }),
            Item::TextOverlay {
                id,
                track_id,
                timeline_start_us,
                duration_us,
                text,
                font_size,
                color,
                x,
                y,
            } => (ItemV::TextOverlay {
                id: *id,
                track_id: *track_id,
                start: timeline_start_us.0 as int,
                dur: duration_us.0 as int,
                text: text@,
                font_size: *font_size,
                color: color@,
                x: *x,
                y: *y,
            }),
        }
    }
}

impl DeepView for Item {
    type V = ItemV;

    open spec fn deep_view(&self) -> ItemV {
        self.view()
    }
}

impl Clone for Item {
    /// A clone carries exactly the same view.
    fn clone(&self) -> (res: Item)
        ensures
            res@ == self@,
    {
        match self {
            Item::VideoClip { id, asset_id, track_id, timeline_start_us, source_in_us, source_out_us } => (Item::VideoClip {
                id: *id,
                asset_id: *asset_id,
                track_id: *track_id,
                timeline_start_us: *timeline_start_us,
                source_in_us: *source_in_us,
                source_out_us: *source_out_us,
            }),
            Item::AudioClip {
                id,
                asset_id,
                track_id,
                timeline_start_us,
                source_in_us,
                source_out_us,
                volume_milli,
            } => (Item::AudioClip {
                id: *id,
                asset_id: *asset_id,
                track_id: *track_id,
                timeline_start_us: *timeline_start_us,
                source_in_us: *source_in_us,
                source_out_us: *source_out_us,
                volume_milli: *volume_milli,
            }),
            Item::ImageOverlay {
                id,
                asset_id,
                track_id,
                timeline_start_us,
                duration_us,
                x,
                y,
                width,
                height,
                opacity_milli,
            } => (Item::ImageOverlay {
                id: *id,
                asset_id: *asset_id,
                track_id: *track_id,
                timeline_start_us: *timeline_start_us,
                duration_us: *duration_us,
                x: *x,
                y: *y,
                width: *width,
                height: *height,
                opacity_milli: *opacity_milli,
            }),
            Item::TextOverlay {
                id,
                track_id,
                timeline_start_us,
                duration_us,
                text,
                font_size,
                color,
                x,
                y,
            } => (Item::TextOverlay {
                id: *id,
                track_id: *track_id,
                timeline_start_us: *timeline_start_us,
                duration_us: *duration_us,
                text: text.clone(),
                font_size: *font_size,
                color: color.clone(),
                x: *x,
                y: *y,
            }),
        }
    }
}

impl Item {
    /// The item's own identifier.
    pub fn id(&self) -> (r: Id)
        ensures
            r == self@.id(),
    {
        match self {
            Item::VideoClip { id, .. } => *id,
            Item::AudioClip { id, .. } => *id,
            Item::ImageOverlay { id, .. } => *id,
            Item::TextOverlay { id, .. } => *id,
        }
    }

    /// Placement on the timeline.
    pub fn timeline_start_us(&self) -> (r: TimeUs)
        ensures
            r.0 == self@.start(),
    {
        match self {
            Item::VideoClip { timeline_start_us, .. } => *timeline_start_us,
            Item::AudioClip { timeline_start_us, .. } => *timeline_start_us,
            Item::ImageOverlay { timeline_start_us, .. } => *timeline_start_us,
            Item::TextOverlay { timeline_start_us, .. } => *timeline_start_us,
        }
    }

    /// The item's duration on the timeline.
    pub fn duration_us(&self) -> (r: TimeUs)
        requires
            i64::MIN <= self@.dur() <= i64::MAX,
        ensures
            r.0 == self@.dur(),
    {
        match self {
            Item::VideoClip { source_in_us, source_out_us, .. } => TimeUs(
                source_out_us.0 - source_in_us.0,
            ),
            Item::AudioClip { source_in_us, source_out_us, .. } => TimeUs(
                source_out_us.0 - source_in_us.0,
            ),
            Item::ImageOverlay { duration_us, .. } => *duration_us,
            Item::TextOverlay { duration_us, .. } => *duration_us,
        }
    }

    /// One past the item's last microsecond on the timeline.
    pub fn timeline_end_us(&self) -> (r: TimeUs)
        requires
            i64::MIN <= self@.dur() <= i64::MAX,
            i64::MIN <= self@.end() <= i64::MAX,
        ensures
            r.0 == self@.end(),
    {
        TimeUs(self.timeline_start_us().0 + self.duration_us().0)
    }

    /// The identifier of the track that owns the item.
    pub fn track_id(&self) -> (r: Id)
        ensures
            r == self@.track_id(),
    {
        match self {
            Item::VideoClip { track_id, .. } => *track_id,
            Item::AudioClip { track_id, .. } => *track_id,
            Item::ImageOverlay { track_id, .. } => *track_id,
            Item::TextOverlay { track_id, .. } => *track_id,
        }
    }

    /// The referenced asset, if the item kind has one.
    pub fn asset_id(&self) -> (r: Option<Id>)
        ensures
            r == self@.asset_id(),
    {
        match self {
            Item::VideoClip { asset_id, .. } => Some(*asset_id),
            Item::AudioClip { asset_id, .. } => Some(*asset_id),
            Item::ImageOverlay { asset_id, .. } => Some(*asset_id),
            Item::TextOverlay { .. } => None,
        }
    }
}

impl DeepView for Asset {
    type V = AssetV;

    open spec fn deep_view(&self) -> AssetV {
        self.view()
    }
}

// ---------------------------------------------------------------------------
// Track, Marker, Timeline
// ---------------------------------------------------------------------------

/// A track: an ordered sequence of items of one kind. The order of the
/// sequence is editing history, not timeline order.
#[derive(Debug)]
pub struct Track {
    pub id: Id,
    pub kind: TrackKind,
    pub items: Vec<Item>,
}

/// Mathematical view of a track.
#[verifier::ext_equal]
pub ghost struct TrackV {
    pub id: Id,
    pub kind: TrackKind,
    pub items: Seq<ItemV>,
}

impl View for Track {
    type V = TrackV;

    open spec fn view(&self) -> TrackV {
        TrackV { id: self.id, kind: self.kind, items: self.items.deep_view() }
    }
}

impl DeepView for Track {
    type V = TrackV;

    open spec fn deep_view(&self) -> TrackV {
        self.view()
    }
}

/// A timestamped annotation with no overlap constraint.
#[derive(Debug)]
pub struct Marker {
    pub id: Id,
    pub time_us: TimeUs,
    pub label: String,
}

/// Mathematical view of a marker.
#[verifier::ext_equal]
pub ghost struct MarkerV {
    pub id: Id,
    pub time: int,
    pub label: Seq<char>,
}

impl View for Marker {
    type V = MarkerV;

    open spec fn view(&self) -> MarkerV {
        MarkerV { id: self.id, time: self.time_us.0 as int, label: self.label@ }
    }
}

impl DeepView for Marker {
    type V = MarkerV;

    open spec fn deep_view(&self) -> MarkerV {
        self.view()
    }
}

/// An ordered sequence of tracks plus markers; owns all items transitively.
#[derive(Debug)]
pub struct Timeline {
    pub tracks: Vec<Track>,
    pub markers: Vec<Marker>,
}

/// Mathematical view of a timeline.
#[verifier::ext_equal]
pub ghost struct TimelineV {
    pub tracks: Seq<TrackV>,
    pub markers: Seq<MarkerV>,
}

impl View for Timeline {
    type V = TimelineV;

    open spec fn view(&self) -> TimelineV {
        TimelineV { tracks: self.tracks.deep_view(), markers: self.markers.deep_view() }
    }
}

// ---------------------------------------------------------------------------
// Project
// ---------------------------------------------------------------------------

/// Output settings of a project: pixel dimensions, whole frames per second,
/// and the audio sample rate.
#[derive(Debug, Clone, Copy, PartialEq, Eq, Structural)]
pub struct ProjectSettings {
    pub width: u32,
    pub height: u32,
    pub fps: u32,
    pub sample_rate: u32,
}

/// A project: settings, imported assets, and one timeline. The unit of
/// persistence and of render compilation input.
#[derive(Debug)]
pub struct Project {
    pub id: Id,
    pub name: String,
    pub settings: ProjectSettings,
    pub assets: Vec<Asset>,
    pub timeline: Timeline,
}

/// Mathematical view of a project.
#[verifier::ext_equal]
pub ghost struct ProjectV {
    pub id: Id,
    pub name: Seq<char>,
    pub settings: ProjectSettings,
    pub assets: Seq<AssetV>,
    pub timeline: TimelineV,
}

impl View for Project {
    type V = ProjectV;

    open spec fn view(&self) -> ProjectV {
        ProjectV {
            id: self.id,
            name: self.name@,
            settings: self.settings,
            assets: self.assets.deep_view(),
            timeline: self.timeline@,
        }
    }
}

} // verus!
