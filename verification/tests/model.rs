//! Item accessors of the data model.

use forgecut::ids::fresh_id;
use forgecut::time::TimeUs;
use forgecut::types::Item;

#[test]
fn item_accessor_methods() {
    let item_id = fresh_id();
    let asset_id = fresh_id();
    let track_id = fresh_id();

    let video = Item::VideoClip {
        id: item_id,
        asset_id,
        track_id,
        timeline_start_us: TimeUs(1_000_000),
        source_in_us: TimeUs(0),
        source_out_us: TimeUs(5_000_000),
    };

    assert_eq!(video.id(), item_id);
    assert_eq!(video.timeline_start_us(), TimeUs(1_000_000));
    assert_eq!(video.duration_us(), TimeUs(5_000_000));
    assert_eq!(video.timeline_end_us(), TimeUs(6_000_000));
    assert_eq!(video.track_id(), track_id);
    assert_eq!(video.asset_id(), Some(asset_id));

    let text = Item::TextOverlay {
        id: item_id,
        track_id,
        timeline_start_us: TimeUs(0),
        duration_us: TimeUs(3_000_000),
        text: "Hello".to_string(),
        font_size: 24,
        color: "#ffffff".to_string(),
        x: 100,
        y: 200,
    };

    assert_eq!(text.asset_id(), None);
    assert_eq!(text.duration_us(), TimeUs(3_000_000));
    assert_eq!(text.timeline_end_us(), TimeUs(3_000_000));
}

#[test]
fn item_audio_clip_accessors() {
    let item_id = fresh_id();
    let asset_id = fresh_id();
    let track_id = fresh_id();

    let audio = Item::AudioClip {
        id: item_id,
        asset_id,
        track_id,
        timeline_start_us: TimeUs(2_000_000),
        source_in_us: TimeUs(1_000_000),
        source_out_us: TimeUs(4_000_000),
        volume_milli: 800,
    };

    assert_eq!(audio.id(), item_id);
    assert_eq!(audio.timeline_start_us(), TimeUs(2_000_000));
    assert_eq!(audio.duration_us(), TimeUs(3_000_000));
    assert_eq!(audio.timeline_end_us(), TimeUs(5_000_000));
    assert_eq!(audio.track_id(), track_id);
    assert_eq!(audio.asset_id(), Some(asset_id));
}

#[test]
fn item_image_overlay_accessors() {
    let item_id = fresh_id();
    let asset_id = fresh_id();
    let track_id = fresh_id();

    let img = Item::ImageOverlay {
        id: item_id,
        asset_id,
        track_id,
        timeline_start_us: TimeUs(0),
        duration_us: TimeUs(2_000_000),
        x: 10,
        y: 20,
        width: 320,
        height: 240,
        opacity_milli: 500,
    };

    assert_eq!(img.id(), item_id);
    assert_eq!(img.duration_us(), TimeUs(2_000_000));
    assert_eq!(img.timeline_end_us(), TimeUs(2_000_000));
    assert_eq!(img.asset_id(), Some(asset_id));
}
