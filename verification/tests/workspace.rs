//! Projects, presets, file naming, proxies, and the editing-surface
//! operations.

use forgecut::error::CoreError;
use forgecut::ids::fresh_id;
use forgecut::project::{
    ensure_extension, preset_1080p, preset_1080p_60, preset_4k, preset_720p, preset_shorts,
    timeline_total_duration,
};
use forgecut::proxy::proxy_path;
use forgecut::query::ItemProperty;
use forgecut::time::TimeUs;
use forgecut::types::{Asset, AssetKind, Item, Project, Timeline, Track, TrackKind};

#[test]
fn preset_values_are_correct() {
    let p1080 = preset_1080p();
    assert_eq!(p1080.width, 1920);
    assert_eq!(p1080.height, 1080);
    assert_eq!(p1080.fps, 30);
    assert_eq!(p1080.sample_rate, 48000);

    let shorts = preset_shorts();
    assert_eq!(shorts.width, 1080);
    assert_eq!(shorts.height, 1920);
    assert_eq!(shorts.fps, 30);
    assert_eq!(shorts.sample_rate, 48000);

    let p720 = preset_720p();
    assert_eq!(p720.width, 1280);
    assert_eq!(p720.height, 720);
    assert_eq!(p720.fps, 30);
    assert_eq!(p720.sample_rate, 48000);

    let p4k = preset_4k();
    assert_eq!(p4k.width, 3840);
    assert_eq!(p4k.height, 2160);
    assert_eq!(p4k.fps, 30);
    assert_eq!(p4k.sample_rate, 48000);

    let p1080_60 = preset_1080p_60();
    assert_eq!(p1080_60.width, 1920);
    assert_eq!(p1080_60.height, 1080);
    assert_eq!(p1080_60.fps, 60);
    assert_eq!(p1080_60.sample_rate, 48000);
}

#[test]
fn timeline_default() {
    let tl = Timeline::default();
    assert!(tl.tracks.is_empty());
    assert!(tl.markers.is_empty());
}

#[test]
fn extension_appended_if_missing() {
    assert_eq!(ensure_extension("no_ext"), "no_ext.forgecut");
    assert_eq!(ensure_extension("kept.forgecut"), "kept.forgecut");
}

#[test]
fn proxy_path_returns_none_for_nonexistent() {
    let dir = "/tmp/forgecut-test-proxies-nonexistent";
    assert!(proxy_path(dir, "no-such-asset").is_none());
}

#[test]
fn fresh_ids_differ() {
    assert_ne!(fresh_id(), fresh_id());
}

#[test]
fn init_default_tracks_creates_video_and_audio() {
    let mut tl = Timeline::new();
    tl.init_default_tracks();
    assert_eq!(tl.tracks.len(), 2);
    assert_eq!(tl.tracks[0].kind, TrackKind::Video);
    assert_eq!(tl.tracks[1].kind, TrackKind::Audio);
    let first = tl.tracks[0].id;
    tl.init_default_tracks();
    assert_eq!(tl.tracks.len(), 2);
    assert_eq!(tl.tracks[0].id, first);
}

#[test]
fn add_track_appends() {
    let mut tl = Timeline::new();
    let id = tl.add_track(TrackKind::OverlayText);
    assert_eq!(tl.tracks.len(), 1);
    assert_eq!(tl.tracks[0].id, id);
    assert_eq!(tl.tracks[0].kind, TrackKind::OverlayText);
}

#[test]
fn add_clip_uses_probe_duration() {
    let asset_id = fresh_id();
    let mut project = Project::new("Clips".to_string(), preset_1080p());
    project.assets.push(Asset {
        id: asset_id,
        name: "clip.mp4".to_string(),
        path: "/tmp/clip.mp4".to_string(),
        kind: AssetKind::Video,
        probe: Some(forgecut::types::ProbeResult {
            duration_us: TimeUs(10_000_000),
            width: 1920,
            height: 1080,
            fps_milli: 30_000,
            codec: "h264".to_string(),
            audio_channels: 2,
            audio_sample_rate: 48000,
        }),
    });
    let track_id = project.timeline.add_track(TrackKind::Video);
    let item_id = project.add_clip(asset_id, track_id, TimeUs(0)).unwrap();
    assert_eq!(project.timeline.tracks[0].items.len(), 1);
    let item = &project.timeline.tracks[0].items[0];
    assert_eq!(item.id(), item_id);
    assert_eq!(item.duration_us(), TimeUs(10_000_000));
}

#[test]
fn add_clip_missing_asset_fails() {
    let mut project = Project::new("Clips".to_string(), preset_1080p());
    let track_id = project.timeline.add_track(TrackKind::Video);
    let result = project.add_clip(fresh_id(), track_id, TimeUs(0));
    assert!(matches!(result.unwrap_err(), CoreError::InvalidOperation(_)));
}

#[test]
fn set_clip_volume_updates_audio() {
    let track_id = fresh_id();
    let clip_id = fresh_id();
    let item = Item::AudioClip {
        id: clip_id,
        asset_id: fresh_id(),
        track_id,
        timeline_start_us: TimeUs(0),
        source_in_us: TimeUs(0),
        source_out_us: TimeUs(5_000_000),
        volume_milli: 1000,
    };
    let mut tl = Timeline {
        tracks: vec![Track { id: track_id, kind: TrackKind::Audio, items: vec![item] }],
        markers: vec![],
    };
    tl.set_clip_volume(clip_id, 250);
    if let Item::AudioClip { volume_milli, .. } = &tl.tracks[0].items[0] {
        assert_eq!(*volume_milli, 250);
    } else {
        panic!("expected AudioClip");
    }
}

#[test]
fn update_item_property_text_overlay() {
    let track_id = fresh_id();
    let item_id = fresh_id();
    let item = Item::TextOverlay {
        id: item_id,
        track_id,
        timeline_start_us: TimeUs(0),
        duration_us: TimeUs(1_000_000),
        text: "old".to_string(),
        font_size: 24,
        color: "#fff".to_string(),
        x: 0,
        y: 0,
    };
    let mut tl = Timeline {
        tracks: vec![Track { id: track_id, kind: TrackKind::OverlayText, items: vec![item] }],
        markers: vec![],
    };
    tl.update_item_property(item_id, ItemProperty::Text("new".to_string())).unwrap();
    if let Item::TextOverlay { text, .. } = &tl.tracks[0].items[0] {
        assert_eq!(text, "new");
    } else {
        panic!("expected TextOverlay");
    }
    let result = tl.update_item_property(item_id, ItemProperty::Opacity(500));
    assert!(matches!(result.unwrap_err(), CoreError::InvalidOperation(_)));
    let result = tl.update_item_property(fresh_id(), ItemProperty::X(1));
    assert!(matches!(result.unwrap_err(), CoreError::ItemNotFound(_)));
}

#[test]
fn total_duration_is_latest_end() {
    let track_id = fresh_id();
    let tl = Timeline {
        tracks: vec![Track {
            id: track_id,
            kind: TrackKind::Video,
            items: vec![
                Item::VideoClip {
                    id: fresh_id(),
                    asset_id: fresh_id(),
                    track_id,
                    timeline_start_us: TimeUs(0),
                    source_in_us: TimeUs(0),
                    source_out_us: TimeUs(5_000_000),
                },
                Item::VideoClip {
                    id: fresh_id(),
                    asset_id: fresh_id(),
                    track_id,
                    timeline_start_us: TimeUs(5_000_000),
                    source_in_us: TimeUs(0),
                    source_out_us: TimeUs(3_000_000),
                },
            ],
        }],
        markers: vec![],
    };
    assert_eq!(timeline_total_duration(&tl), TimeUs(8_000_000));
    assert_eq!(timeline_total_duration(&Timeline::new()), TimeUs(0));
}

#[test]
fn remove_asset_drops_only_matching() {
    let keep_id = fresh_id();
    let drop_id = fresh_id();
    let mut project = Project::new("Assets".to_string(), preset_1080p());
    for (id, name) in [(keep_id, "a"), (drop_id, "b")] {
        project.assets.push(Asset {
            id,
            name: name.to_string(),
            path: name.to_string(),
            kind: AssetKind::Video,
            probe: None,
        });
    }
    project.remove_asset(drop_id);
    assert_eq!(project.assets.len(), 1);
    assert_eq!(project.assets[0].id, keep_id);
}
