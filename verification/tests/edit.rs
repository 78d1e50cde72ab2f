//! Editing operations: add, remove, move, trim, split, reorder, and the
//! overlap test.

use forgecut::error::CoreError;
use forgecut::editing::items_overlap;
use forgecut::ids::{fresh_id, Id};
use forgecut::time::TimeUs;
use forgecut::types::{Item, Timeline, Track, TrackKind};

fn make_video_clip(track_id: Id, start_us: i64, source_in: i64, source_out: i64) -> (Id, Item) {
    let id = fresh_id();
    let item = Item::VideoClip {
        id,
        asset_id: fresh_id(),
        track_id,
        timeline_start_us: TimeUs(start_us),
        source_in_us: TimeUs(source_in),
        source_out_us: TimeUs(source_out),
    };
    (id, item)
}

fn make_test_timeline() -> (Timeline, Id, Id) {
    let track_id = fresh_id();
    let (clip_id, clip) = make_video_clip(track_id, 0, 0, 5_000_000);
    let tl = Timeline {
        tracks: vec![Track { id: track_id, kind: TrackKind::Video, items: vec![clip] }],
        markers: vec![],
    };
    (tl, track_id, clip_id)
}

#[test]
fn add_item_to_empty_track_succeeds() {
    let track_id = fresh_id();
    let mut tl = Timeline {
        tracks: vec![Track { id: track_id, kind: TrackKind::Video, items: vec![] }],
        markers: vec![],
    };
    let (_, clip) = make_video_clip(track_id, 0, 0, 5_000_000);
    assert!(tl.add_item(track_id, clip).is_ok());
    assert_eq!(tl.tracks[0].items.len(), 1);
}

#[test]
fn add_item_with_overlap_fails() {
    let (mut tl, track_id, _) = make_test_timeline();
    let (_, clip) = make_video_clip(track_id, 2_000_000, 0, 5_000_000);
    let result = tl.add_item(track_id, clip);
    assert!(result.is_err());
    assert!(matches!(result.unwrap_err(), CoreError::OverlapDetected));
}

#[test]
fn add_item_adjacent_succeeds() {
    let (mut tl, track_id, _) = make_test_timeline();
    let (_, clip) = make_video_clip(track_id, 5_000_000, 0, 5_000_000);
    assert!(tl.add_item(track_id, clip).is_ok());
    assert_eq!(tl.tracks[0].items.len(), 2);
}

#[test]
fn add_item_to_nonexistent_track_fails() {
    let mut tl = Timeline { tracks: vec![], markers: vec![] };
    let fake_track = fresh_id();
    let (_, clip) = make_video_clip(fake_track, 0, 0, 5_000_000);
    let result = tl.add_item(fake_track, clip);
    assert!(matches!(result.unwrap_err(), CoreError::TrackNotFound(_)));
}

#[test]
fn add_items_in_either_order() {
    // Two non-overlapping clips go in whichever order they arrive.
    let track_id = fresh_id();
    let (_, a) = make_video_clip(track_id, 0, 0, 2_000_000);
    let (_, b) = make_video_clip(track_id, 3_000_000, 0, 2_000_000);
    let mut tl1 = Timeline {
        tracks: vec![Track { id: track_id, kind: TrackKind::Video, items: vec![] }],
        markers: vec![],
    };
    assert!(tl1.add_item(track_id, a.clone()).is_ok());
    assert!(tl1.add_item(track_id, b.clone()).is_ok());
    let mut tl2 = Timeline {
        tracks: vec![Track { id: track_id, kind: TrackKind::Video, items: vec![] }],
        markers: vec![],
    };
    assert!(tl2.add_item(track_id, b).is_ok());
    assert!(tl2.add_item(track_id, a).is_ok());
}

#[test]
fn remove_item_works() {
    let (mut tl, _, clip_id) = make_test_timeline();
    let removed = tl.remove_item(clip_id).unwrap();
    assert_eq!(removed.id(), clip_id);
    assert!(tl.tracks[0].items.is_empty());
}

#[test]
fn remove_item_with_bad_id_fails() {
    let (mut tl, _, _) = make_test_timeline();
    let bad_id = fresh_id();
    let result = tl.remove_item(bad_id);
    assert!(matches!(result.unwrap_err(), CoreError::ItemNotFound(_)));
}

#[test]
fn move_item_to_valid_position() {
    let (mut tl, _, clip_id) = make_test_timeline();
    assert!(tl.move_item(clip_id, TimeUs(10_000_000)).is_ok());
    let item = &tl.tracks[0].items[0];
    assert_eq!(item.timeline_start_us(), TimeUs(10_000_000));
}

#[test]
fn move_item_causing_overlap_fails() {
    let (mut tl, track_id, _clip_id) = make_test_timeline();
    let (second_id, clip) = make_video_clip(track_id, 5_000_000, 0, 5_000_000);
    tl.add_item(track_id, clip).unwrap();
    let result = tl.move_item(second_id, TimeUs(3_000_000));
    assert!(matches!(result.unwrap_err(), CoreError::OverlapDetected));
}

#[test]
fn move_item_collision_keeps_position() {
    // A colliding move leaves the item exactly where it was.
    let (mut tl, track_id, _clip_id) = make_test_timeline();
    let (second_id, clip) = make_video_clip(track_id, 5_000_000, 0, 5_000_000);
    tl.add_item(track_id, clip).unwrap();
    assert!(tl.move_item(second_id, TimeUs(3_000_000)).is_err());
    let item = &tl.tracks[0].items[1];
    assert_eq!(item.id(), second_id);
    assert_eq!(item.timeline_start_us(), TimeUs(5_000_000));
    assert_eq!(item.timeline_end_us(), TimeUs(10_000_000));
}

#[test]
fn move_item_nonexistent_fails() {
    let (mut tl, _, _) = make_test_timeline();
    let bad_id = fresh_id();
    let result = tl.move_item(bad_id, TimeUs(0));
    assert!(matches!(result.unwrap_err(), CoreError::ItemNotFound(_)));
}

#[test]
fn trim_in_adjusts_start_correctly() {
    let (mut tl, _, clip_id) = make_test_timeline();
    tl.trim_in(clip_id, TimeUs(1_000_000)).unwrap();
    let item = &tl.tracks[0].items[0];
    assert_eq!(item.timeline_end_us(), TimeUs(5_000_000));
    assert_eq!(item.duration_us(), TimeUs(4_000_000));
    assert_eq!(item.timeline_start_us(), TimeUs(1_000_000));
    if let Item::VideoClip { source_in_us, .. } = item {
        assert_eq!(*source_in_us, TimeUs(1_000_000));
    }
}

#[test]
fn trim_in_invalid_past_out_point_fails() {
    let (mut tl, _, clip_id) = make_test_timeline();
    let result = tl.trim_in(clip_id, TimeUs(6_000_000));
    assert!(result.is_err());
}

#[test]
fn trim_out_adjusts_end_correctly() {
    let (mut tl, _, clip_id) = make_test_timeline();
    tl.trim_out(clip_id, TimeUs(3_000_000)).unwrap();
    let item = &tl.tracks[0].items[0];
    assert_eq!(item.timeline_start_us(), TimeUs(0));
    assert_eq!(item.timeline_end_us(), TimeUs(3_000_000));
    assert_eq!(item.duration_us(), TimeUs(3_000_000));
}

#[test]
fn trim_out_invalid_before_in_point_fails() {
    let (mut tl, track_id, _) = make_test_timeline();
    let (clip_id, clip) = make_video_clip(track_id, 10_000_000, 2_000_000, 5_000_000);
    tl.add_item(track_id, clip).unwrap();
    let result = tl.trim_out(clip_id, TimeUs(1_000_000));
    assert!(result.is_err());
}

#[test]
fn split_at_creates_two_clips_summing_to_original() {
    let (mut tl, _, clip_id) = make_test_timeline();
    let (left_id, right_id) = tl.split_at(clip_id, TimeUs(2_000_000)).unwrap();
    assert_eq!(left_id, clip_id);
    assert_ne!(right_id, clip_id);
    let left = &tl.tracks[0].items[0];
    let right = &tl.tracks[0].items[1];
    assert_eq!(left.duration_us().0 + right.duration_us().0, 5_000_000);
    assert_eq!(left.timeline_start_us(), TimeUs(0));
    assert_eq!(left.timeline_end_us(), TimeUs(2_000_000));
    assert_eq!(right.timeline_start_us(), TimeUs(2_000_000));
    assert_eq!(right.timeline_end_us(), TimeUs(5_000_000));
}

#[test]
fn split_at_preserves_source_ranges() {
    let (mut tl, _, clip_id) = make_test_timeline();
    tl.split_at(clip_id, TimeUs(2_000_000)).unwrap();
    let left = &tl.tracks[0].items[0];
    let right = &tl.tracks[0].items[1];
    if let Item::VideoClip { source_in_us, source_out_us, .. } = left {
        assert_eq!(*source_in_us, TimeUs(0));
        assert_eq!(*source_out_us, TimeUs(2_000_000));
    } else {
        panic!("expected VideoClip");
    }
    if let Item::VideoClip { source_in_us, source_out_us, .. } = right {
        assert_eq!(*source_in_us, TimeUs(2_000_000));
        assert_eq!(*source_out_us, TimeUs(5_000_000));
    } else {
        panic!("expected VideoClip");
    }
}

#[test]
fn split_at_start_fails() {
    let (mut tl, _, clip_id) = make_test_timeline();
    let result = tl.split_at(clip_id, TimeUs(0));
    assert!(result.is_err());
}

#[test]
fn split_at_end_fails() {
    let (mut tl, _, clip_id) = make_test_timeline();
    let result = tl.split_at(clip_id, TimeUs(5_000_000));
    assert!(result.is_err());
}

#[test]
fn split_audio_clip() {
    let track_id = fresh_id();
    let clip_id = fresh_id();
    let item = Item::AudioClip {
        id: clip_id,
        asset_id: fresh_id(),
        track_id,
        timeline_start_us: TimeUs(0),
        source_in_us: TimeUs(0),
        source_out_us: TimeUs(6_000_000),
        volume_milli: 800,
    };
    let mut tl = Timeline {
        tracks: vec![Track { id: track_id, kind: TrackKind::Audio, items: vec![item] }],
        markers: vec![],
    };
    let (left_id, right_id) = tl.split_at(clip_id, TimeUs(3_000_000)).unwrap();
    assert_eq!(left_id, clip_id);
    let left = &tl.tracks[0].items[0];
    let right = &tl.tracks[0].items[1];
    assert_eq!(left.duration_us(), TimeUs(3_000_000));
    assert_eq!(right.duration_us(), TimeUs(3_000_000));
    assert_eq!(right.id(), right_id);
    if let Item::AudioClip { volume_milli, .. } = right {
        assert_eq!(*volume_milli, 800);
    }
}

#[test]
fn reorder_item_works() {
    let track_id = fresh_id();
    let (id_a, clip_a) = make_video_clip(track_id, 0, 0, 2_000_000);
    let (id_b, clip_b) = make_video_clip(track_id, 5_000_000, 0, 2_000_000);
    let (id_c, clip_c) = make_video_clip(track_id, 10_000_000, 0, 2_000_000);
    let mut tl = Timeline {
        tracks: vec![Track {
            id: track_id,
            kind: TrackKind::Video,
            items: vec![clip_a, clip_b, clip_c],
        }],
        markers: vec![],
    };
    tl.reorder_item(id_c, 0).unwrap();
    assert_eq!(tl.tracks[0].items[0].id(), id_c);
    assert_eq!(tl.tracks[0].items[1].id(), id_a);
    assert_eq!(tl.tracks[0].items[2].id(), id_b);
}

#[test]
fn reorder_item_out_of_bounds_fails() {
    let (mut tl, _, clip_id) = make_test_timeline();
    let result = tl.reorder_item(clip_id, 5);
    assert!(result.is_err());
}

#[test]
fn adjacent_clips_dont_overlap() {
    let track_id = fresh_id();
    let (_, a) = make_video_clip(track_id, 0, 0, 5_000_000);
    let (_, b) = make_video_clip(track_id, 5_000_000, 0, 5_000_000);
    assert!(!items_overlap(&a, &b));
    assert!(!items_overlap(&b, &a));
}

#[test]
fn overlapping_clips_detected() {
    let track_id = fresh_id();
    let (_, a) = make_video_clip(track_id, 0, 0, 5_000_000);
    let (_, b) = make_video_clip(track_id, 4_999_999, 0, 5_000_000);
    assert!(items_overlap(&a, &b));
    assert!(items_overlap(&b, &a));
}

#[test]
fn multiple_operations_in_sequence() {
    let track_id = fresh_id();
    let mut tl = Timeline {
        tracks: vec![Track { id: track_id, kind: TrackKind::Video, items: vec![] }],
        markers: vec![],
    };
    let (clip1_id, clip1) = make_video_clip(track_id, 0, 0, 5_000_000);
    tl.add_item(track_id, clip1).unwrap();
    let (clip2_id, clip2) = make_video_clip(track_id, 5_000_000, 0, 5_000_000);
    tl.add_item(track_id, clip2).unwrap();
    let (_, right_id) = tl.split_at(clip1_id, TimeUs(2_000_000)).unwrap();
    assert_eq!(tl.tracks[0].items.len(), 3);
    tl.remove_item(right_id).unwrap();
    assert_eq!(tl.tracks[0].items.len(), 2);
    tl.move_item(clip2_id, TimeUs(2_000_000)).unwrap();
    let items = &tl.tracks[0].items;
    assert_eq!(items.len(), 2);
}

#[test]
fn trim_in_overlay() {
    let track_id = fresh_id();
    let item_id = fresh_id();
    let item = Item::TextOverlay {
        id: item_id,
        track_id,
        timeline_start_us: TimeUs(0),
        duration_us: TimeUs(10_000_000),
        text: "Hello".into(),
        font_size: 24,
        color: "#fff".into(),
        x: 0,
        y: 0,
    };
    let mut tl = Timeline {
        tracks: vec![Track { id: track_id, kind: TrackKind::OverlayText, items: vec![item] }],
        markers: vec![],
    };
    tl.trim_in(item_id, TimeUs(3_000_000)).unwrap();
    let item = &tl.tracks[0].items[0];
    assert_eq!(item.timeline_start_us(), TimeUs(3_000_000));
    assert_eq!(item.timeline_end_us(), TimeUs(10_000_000));
    assert_eq!(item.duration_us(), TimeUs(7_000_000));
}

#[test]
fn trim_out_overlay() {
    let track_id = fresh_id();
    let item_id = fresh_id();
    let item = Item::ImageOverlay {
        id: item_id,
        asset_id: fresh_id(),
        track_id,
        timeline_start_us: TimeUs(0),
        duration_us: TimeUs(10_000_000),
        x: 0,
        y: 0,
        width: 100,
        height: 100,
        opacity_milli: 1000,
    };
    let mut tl = Timeline {
        tracks: vec![Track { id: track_id, kind: TrackKind::OverlayImage, items: vec![item] }],
        markers: vec![],
    };
    tl.trim_out(item_id, TimeUs(6_000_000)).unwrap();
    let item = &tl.tracks[0].items[0];
    assert_eq!(item.timeline_start_us(), TimeUs(0));
    assert_eq!(item.timeline_end_us(), TimeUs(6_000_000));
    assert_eq!(item.duration_us(), TimeUs(6_000_000));
}
