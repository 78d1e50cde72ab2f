//! Snapping: nearest-point search and snap point collection.

use forgecut::ids::fresh_id;
use forgecut::snapping::{collect_snap_points, find_snap_point};
use forgecut::time::TimeUs;
use forgecut::types::{Item, Marker, Timeline, Track, TrackKind};

fn make_timeline_with_clips() -> Timeline {
    let track_id = fresh_id();
    Timeline {
        tracks: vec![Track {
            id: track_id,
            kind: TrackKind::Video,
            items: vec![
                Item::VideoClip {
                    id: fresh_id(),
                    asset_id: fresh_id(),
                    track_id,
                    timeline_start_us: TimeUs(1_000_000),
                    source_in_us: TimeUs(0),
                    source_out_us: TimeUs(3_000_000),
                },
                Item::VideoClip {
                    id: fresh_id(),
                    asset_id: fresh_id(),
                    track_id,
                    timeline_start_us: TimeUs(5_000_000),
                    source_in_us: TimeUs(0),
                    source_out_us: TimeUs(2_000_000),
                },
            ],
        }],
        markers: vec![Marker {
            id: fresh_id(),
            time_us: TimeUs(10_000_000),
            label: "marker1".to_string(),
        }],
    }
}

#[test]
fn snap_to_nearest_point() {
    let points = vec![TimeUs(0), TimeUs(1_000_000), TimeUs(5_000_000)];
    let threshold = TimeUs(200_000);
    let result = find_snap_point(TimeUs(1_100_000), &points, threshold);
    assert_eq!(result, TimeUs(1_000_000));
}

#[test]
fn no_snap_beyond_threshold() {
    let points = vec![TimeUs(0), TimeUs(1_000_000), TimeUs(5_000_000)];
    let threshold = TimeUs(200_000);
    let result = find_snap_point(TimeUs(3_000_000), &points, threshold);
    assert_eq!(result, TimeUs(3_000_000));
}

#[test]
fn snap_to_zero() {
    let points = vec![TimeUs(0), TimeUs(5_000_000)];
    let threshold = TimeUs(500_000);
    let result = find_snap_point(TimeUs(300_000), &points, threshold);
    assert_eq!(result, TimeUs(0));
}

#[test]
fn empty_snap_points_returns_original() {
    let points: Vec<TimeUs> = vec![];
    let threshold = TimeUs(500_000);
    let result = find_snap_point(TimeUs(2_000_000), &points, threshold);
    assert_eq!(result, TimeUs(2_000_000));
}

#[test]
fn exact_match_snaps() {
    let points = vec![TimeUs(0), TimeUs(3_000_000), TimeUs(6_000_000)];
    let threshold = TimeUs(100_000);
    let result = find_snap_point(TimeUs(3_000_000), &points, threshold);
    assert_eq!(result, TimeUs(3_000_000));
}

#[test]
fn snap_to_closest_of_two() {
    let points = vec![TimeUs(1_000_000), TimeUs(2_000_000)];
    let threshold = TimeUs(600_000);
    let result = find_snap_point(TimeUs(1_400_000), &points, threshold);
    assert_eq!(result, TimeUs(1_000_000));
    let result = find_snap_point(TimeUs(1_700_000), &points, threshold);
    assert_eq!(result, TimeUs(2_000_000));
}

#[test]
fn collect_snap_points_from_timeline() {
    let timeline = make_timeline_with_clips();
    let points = collect_snap_points(&timeline, None);
    assert!(points.contains(&TimeUs(0)));
    assert!(points.contains(&TimeUs(1_000_000)));
    assert!(points.contains(&TimeUs(4_000_000)));
    assert!(points.contains(&TimeUs(5_000_000)));
    assert!(points.contains(&TimeUs(7_000_000)));
    assert!(points.contains(&TimeUs(10_000_000)));
}

#[test]
fn collect_excludes_item() {
    let track_id = fresh_id();
    let item_id = fresh_id();
    let timeline = Timeline {
        tracks: vec![Track {
            id: track_id,
            kind: TrackKind::Video,
            items: vec![
                Item::VideoClip {
                    id: item_id,
                    asset_id: fresh_id(),
                    track_id,
                    timeline_start_us: TimeUs(1_000_000),
                    source_in_us: TimeUs(0),
                    source_out_us: TimeUs(2_000_000),
                },
                Item::VideoClip {
                    id: fresh_id(),
                    asset_id: fresh_id(),
                    track_id,
                    timeline_start_us: TimeUs(5_000_000),
                    source_in_us: TimeUs(0),
                    source_out_us: TimeUs(1_000_000),
                },
            ],
        }],
        markers: vec![],
    };
    let points = collect_snap_points(&timeline, Some(item_id));
    assert!(!points.contains(&TimeUs(1_000_000)));
    assert!(!points.contains(&TimeUs(3_000_000)));
    assert!(points.contains(&TimeUs(5_000_000)));
    assert!(points.contains(&TimeUs(6_000_000)));
    assert!(points.contains(&TimeUs(0)));
}

#[test]
fn collect_deduplicates_touching_edges() {
    let track_id = fresh_id();
    let timeline = Timeline {
        tracks: vec![Track {
            id: track_id,
            kind: TrackKind::Video,
            items: vec![
                Item::VideoClip {
                    id: fresh_id(),
                    asset_id: fresh_id(),
                    track_id,
                    timeline_start_us: TimeUs(0),
                    source_in_us: TimeUs(0),
                    source_out_us: TimeUs(2_000_000),
                },
                Item::VideoClip {
                    id: fresh_id(),
                    asset_id: fresh_id(),
                    track_id,
                    timeline_start_us: TimeUs(2_000_000),
                    source_in_us: TimeUs(0),
                    source_out_us: TimeUs(1_000_000),
                },
            ],
        }],
        markers: vec![],
    };
    let points = collect_snap_points(&timeline, None);
    // 0, 2M (shared edge, once), 3M
    assert_eq!(points, vec![TimeUs(0), TimeUs(2_000_000), TimeUs(3_000_000)]);
}
