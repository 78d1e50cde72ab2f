//! The render compiler: plan structure, filter graph text, argument
//! list.

use forgecut::error::RenderError;
use forgecut::ids::{fresh_id, Id};
use forgecut::render::{build_ffmpeg_args, compile, RenderInput, RenderPlan};
use forgecut::time::TimeUs;
use forgecut::types::{
    Asset, AssetKind, Item, ProbeResult, Project, ProjectSettings, Timeline, Track, TrackKind,
};

fn make_asset(id: Id, path: &str) -> Asset {
    Asset {
        id,
        name: path.to_string(),
        path: path.to_string(),
        kind: AssetKind::Video,
        probe: Some(ProbeResult {
            duration_us: TimeUs(30_000_000),
            width: 1920,
            height: 1080,
            fps_milli: 30_000,
            codec: "h264".to_string(),
            audio_channels: 2,
            audio_sample_rate: 48000,
        }),
    }
}

fn make_project_with_clips(clips: Vec<Item>, assets: Vec<Asset>) -> Project {
    Project {
        id: fresh_id(),
        name: "Test".to_string(),
        settings: ProjectSettings { width: 1920, height: 1080, fps: 30, sample_rate: 48000 },
        assets,
        timeline: Timeline {
            tracks: vec![Track { id: fresh_id(), kind: TrackKind::Video, items: clips }],
            markers: vec![],
        },
    }
}

#[test]
fn compile_empty_project_returns_no_clips() {
    let project = Project {
        id: fresh_id(),
        name: "Empty".to_string(),
        settings: ProjectSettings { width: 1920, height: 1080, fps: 30, sample_rate: 48000 },
        assets: vec![],
        timeline: Timeline { tracks: vec![], markers: vec![] },
    };
    let result = compile(&project);
    assert!(result.is_err());
    assert!(matches!(result.unwrap_err(), RenderError::NoClips), "expected NoClips error");
}

#[test]
fn compile_one_clip_produces_valid_filter_graph() {
    let asset_id = fresh_id();
    let asset = make_asset(asset_id, "/tmp/clip.mp4");
    let clip = Item::VideoClip {
        id: fresh_id(),
        asset_id,
        track_id: fresh_id(),
        timeline_start_us: TimeUs(0),
        source_in_us: TimeUs(1_000_000),
        source_out_us: TimeUs(5_000_000),
    };
    let project = make_project_with_clips(vec![clip], vec![asset]);
    let plan = compile(&project).unwrap();
    assert_eq!(plan.inputs.len(), 1);
    assert_eq!(plan.inputs[0].path, "/tmp/clip.mp4");
    assert!(plan.filter_graph.contains("trim=start=1:end=5"));
    assert!(plan.filter_graph.contains("setpts=PTS-STARTPTS"));
    assert!(plan.filter_graph.contains("atrim=start=1:end=5"));
    assert!(plan.filter_graph.contains("asetpts=PTS-STARTPTS"));
    assert!(plan.filter_graph.contains("concat=n=1:v=1:a=1[outv][outa]"));
}

#[test]
fn compile_two_clips_produces_correct_concat_count() {
    let asset_id_1 = fresh_id();
    let asset_id_2 = fresh_id();
    let asset1 = make_asset(asset_id_1, "/tmp/clip1.mp4");
    let asset2 = make_asset(asset_id_2, "/tmp/clip2.mp4");
    let clip1 = Item::VideoClip {
        id: fresh_id(),
        asset_id: asset_id_1,
        track_id: fresh_id(),
        timeline_start_us: TimeUs(0),
        source_in_us: TimeUs(0),
        source_out_us: TimeUs(3_000_000),
    };
    let clip2 = Item::VideoClip {
        id: fresh_id(),
        asset_id: asset_id_2,
        track_id: fresh_id(),
        timeline_start_us: TimeUs(3_000_000),
        source_in_us: TimeUs(2_000_000),
        source_out_us: TimeUs(7_000_000),
    };
    let project = make_project_with_clips(vec![clip1, clip2], vec![asset1, asset2]);
    let plan = compile(&project).unwrap();
    assert_eq!(plan.inputs.len(), 2);
    assert!(plan.filter_graph.contains("concat=n=2:v=1:a=1[outv][outa]"));
    assert!(plan.filter_graph.contains("[v0][a0][v1][a1]"));
}

#[test]
fn compile_preserves_trim_ranges() {
    let asset_id = fresh_id();
    let asset = make_asset(asset_id, "/tmp/clip.mp4");
    let clip = Item::VideoClip {
        id: fresh_id(),
        asset_id,
        track_id: fresh_id(),
        timeline_start_us: TimeUs(0),
        source_in_us: TimeUs(2_500_000),
        source_out_us: TimeUs(8_750_000),
    };
    let project = make_project_with_clips(vec![clip], vec![asset]);
    let plan = compile(&project).unwrap();
    assert!(plan.filter_graph.contains("trim=start=2.5:end=8.75"));
    assert!(plan.filter_graph.contains("atrim=start=2.5:end=8.75"));
}

#[test]
fn compile_deduplicates_same_asset() {
    let asset_id = fresh_id();
    let asset = make_asset(asset_id, "/tmp/clip.mp4");
    let clip1 = Item::VideoClip {
        id: fresh_id(),
        asset_id,
        track_id: fresh_id(),
        timeline_start_us: TimeUs(0),
        source_in_us: TimeUs(0),
        source_out_us: TimeUs(3_000_000),
    };
    let clip2 = Item::VideoClip {
        id: fresh_id(),
        asset_id,
        track_id: fresh_id(),
        timeline_start_us: TimeUs(3_000_000),
        source_in_us: TimeUs(5_000_000),
        source_out_us: TimeUs(8_000_000),
    };
    let project = make_project_with_clips(vec![clip1, clip2], vec![asset]);
    let plan = compile(&project).unwrap();
    assert_eq!(plan.inputs.len(), 1);
    assert!(plan.filter_graph.contains("concat=n=2:v=1:a=1"));
}

#[test]
fn compile_adds_scale_filter_when_dimensions_differ() {
    let asset_id = fresh_id();
    let asset = Asset {
        id: asset_id,
        name: "720p.mp4".to_string(),
        path: "/tmp/720p.mp4".to_string(),
        kind: AssetKind::Video,
        probe: Some(ProbeResult {
            duration_us: TimeUs(30_000_000),
            width: 1280,
            height: 720,
            fps_milli: 30_000,
            codec: "h264".to_string(),
            audio_channels: 2,
            audio_sample_rate: 48000,
        }),
    };
    let clip = Item::VideoClip {
        id: fresh_id(),
        asset_id,
        track_id: fresh_id(),
        timeline_start_us: TimeUs(0),
        source_in_us: TimeUs(0),
        source_out_us: TimeUs(5_000_000),
    };
    let project = make_project_with_clips(vec![clip], vec![asset]);
    let plan = compile(&project).unwrap();
    assert!(plan.filter_graph.contains(
        "scale=1920:1080:force_original_aspect_ratio=decrease,pad=1920:1080:(ow-iw)/2:(oh-ih)/2"
    ));
}

#[test]
fn compile_no_scale_filter_when_dimensions_match() {
    let asset_id = fresh_id();
    let asset = make_asset(asset_id, "/tmp/clip.mp4");
    let clip = Item::VideoClip {
        id: fresh_id(),
        asset_id,
        track_id: fresh_id(),
        timeline_start_us: TimeUs(0),
        source_in_us: TimeUs(0),
        source_out_us: TimeUs(5_000_000),
    };
    let project = make_project_with_clips(vec![clip], vec![asset]);
    let plan = compile(&project).unwrap();
    assert!(!plan.filter_graph.contains("scale="));
    assert!(!plan.filter_graph.contains("pad="));
}

#[test]
fn compile_scale_filter_for_4k_project() {
    let asset_id = fresh_id();
    let asset = make_asset(asset_id, "/tmp/1080p.mp4");
    let clip = Item::VideoClip {
        id: fresh_id(),
        asset_id,
        track_id: fresh_id(),
        timeline_start_us: TimeUs(0),
        source_in_us: TimeUs(0),
        source_out_us: TimeUs(5_000_000),
    };
    let project = Project {
        id: fresh_id(),
        name: "4K Test".to_string(),
        settings: ProjectSettings { width: 3840, height: 2160, fps: 30, sample_rate: 48000 },
        assets: vec![asset],
        timeline: Timeline {
            tracks: vec![Track { id: fresh_id(), kind: TrackKind::Video, items: vec![clip] }],
            markers: vec![],
        },
    };
    let plan = compile(&project).unwrap();
    assert!(plan.filter_graph.contains(
        "scale=3840:2160:force_original_aspect_ratio=decrease,pad=3840:2160:(ow-iw)/2:(oh-ih)/2"
    ));
}

#[test]
fn compile_with_audio_overlay_uses_amix() {
    let video_asset_id = fresh_id();
    let audio_asset_id = fresh_id();
    let video_track_id = fresh_id();
    let audio_track_id = fresh_id();
    let video_asset = make_asset(video_asset_id, "/tmp/clip.mp4");
    let audio_asset = Asset {
        id: audio_asset_id,
        name: "music.mp3".to_string(),
        path: "/tmp/music.mp3".to_string(),
        kind: AssetKind::Audio,
        probe: Some(ProbeResult {
            duration_us: TimeUs(60_000_000),
            width: 0,
            height: 0,
            fps_milli: 0,
            codec: "mp3".to_string(),
            audio_channels: 2,
            audio_sample_rate: 44100,
        }),
    };
    let video_clip = Item::VideoClip {
        id: fresh_id(),
        asset_id: video_asset_id,
        track_id: video_track_id,
        timeline_start_us: TimeUs(0),
        source_in_us: TimeUs(0),
        source_out_us: TimeUs(10_000_000),
    };
    let audio_clip = Item::AudioClip {
        id: fresh_id(),
        asset_id: audio_asset_id,
        track_id: audio_track_id,
        timeline_start_us: TimeUs(2_000_000),
        source_in_us: TimeUs(0),
        source_out_us: TimeUs(8_000_000),
        volume_milli: 500,
    };
    let project = Project {
        id: fresh_id(),
        name: "AudioTest".to_string(),
        settings: ProjectSettings { width: 1920, height: 1080, fps: 30, sample_rate: 48000 },
        assets: vec![video_asset, audio_asset],
        timeline: Timeline {
            tracks: vec![
                Track { id: video_track_id, kind: TrackKind::Video, items: vec![video_clip] },
                Track { id: audio_track_id, kind: TrackKind::Audio, items: vec![audio_clip] },
            ],
            markers: vec![],
        },
    };
    let plan = compile(&project).unwrap();
    assert_eq!(plan.inputs.len(), 2);
    assert!(plan.filter_graph.contains("amix=inputs=2:duration=longest"));
    assert!(plan.filter_graph.contains("volume=0.5"));
    assert!(plan.filter_graph.contains("afade=t=in:d=0.1"));
    assert!(plan.filter_graph.contains("afade=t=out:"));
    assert!(plan.filter_graph.contains("adelay=2000|2000"));
    assert!(plan.filter_graph.contains("[concat_a]"));
}

#[test]
fn compile_without_audio_overlay_no_amix() {
    let asset_id = fresh_id();
    let asset = make_asset(asset_id, "/tmp/clip.mp4");
    let clip = Item::VideoClip {
        id: fresh_id(),
        asset_id,
        track_id: fresh_id(),
        timeline_start_us: TimeUs(0),
        source_in_us: TimeUs(0),
        source_out_us: TimeUs(5_000_000),
    };
    let project = make_project_with_clips(vec![clip], vec![asset]);
    let plan = compile(&project).unwrap();
    assert!(!plan.filter_graph.contains("amix"));
    assert!(!plan.filter_graph.contains("concat_a"));
    assert!(plan.filter_graph.contains("[outa]"));
}

#[test]
fn compile_missing_asset_returns_error() {
    let clip = Item::VideoClip {
        id: fresh_id(),
        asset_id: fresh_id(),
        track_id: fresh_id(),
        timeline_start_us: TimeUs(0),
        source_in_us: TimeUs(0),
        source_out_us: TimeUs(5_000_000),
    };
    let project = make_project_with_clips(vec![clip], vec![]);
    let result = compile(&project);
    assert!(matches!(result.unwrap_err(), RenderError::AssetNotFound(_)));
}

#[test]
fn build_ffmpeg_args_includes_expected_flags() {
    let plan = RenderPlan {
        inputs: vec![
            RenderInput { path: "/tmp/a.mp4".to_string(), index: 0 },
            RenderInput { path: "/tmp/b.mp4".to_string(), index: 1 },
        ],
        filter_graph:
            "[0:v]trim=0:5[v0];[0:a]atrim=0:5[a0];[v0][a0]concat=n=1:v=1:a=1[outv][outa]"
                .to_string(),
        output_args: vec![
            "-map".to_string(),
            "[outv]".to_string(),
            "-map".to_string(),
            "[outa]".to_string(),
            "-c:v".to_string(),
            "libx264".to_string(),
        ],
        output_path: "/tmp/out.mp4".to_string(),
    };
    let args = build_ffmpeg_args(&plan);
    assert_eq!(args[0], "-y");
    assert!(args.contains(&"-i".to_string()));
    assert!(args.contains(&"/tmp/a.mp4".to_string()));
    assert!(args.contains(&"/tmp/b.mp4".to_string()));
    assert!(args.contains(&"-filter_complex".to_string()));
    assert!(args.contains(&"-map".to_string()));
    assert!(args.contains(&"[outv]".to_string()));
    assert!(args.contains(&"[outa]".to_string()));
    assert!(args.contains(&"-c:v".to_string()));
    assert!(args.contains(&"libx264".to_string()));
    assert_eq!(args.last().unwrap(), "/tmp/out.mp4");
}

#[test]
fn compile_draws_text_overlays() {
    let asset_id = fresh_id();
    let asset = make_asset(asset_id, "/tmp/clip.mp4");
    let clip = Item::VideoClip {
        id: fresh_id(),
        asset_id,
        track_id: fresh_id(),
        timeline_start_us: TimeUs(0),
        source_in_us: TimeUs(0),
        source_out_us: TimeUs(5_000_000),
    };
    let text_track = fresh_id();
    let text = Item::TextOverlay {
        id: fresh_id(),
        track_id: text_track,
        timeline_start_us: TimeUs(1_000_000),
        duration_us: TimeUs(2_000_000),
        text: "It's go".to_string(),
        font_size: 24,
        color: "#ffffff".to_string(),
        x: 10,
        y: 20,
    };
    let mut project = make_project_with_clips(vec![clip], vec![asset]);
    project.timeline.tracks.push(Track {
        id: text_track,
        kind: TrackKind::OverlayText,
        items: vec![text],
    });
    let plan = compile(&project).unwrap();
    assert!(plan.filter_graph.contains(
        "drawtext=text='It'\\''s go':fontsize=24:fontcolor=0xffffff:x=10:y=20:enable='between(t,1,3)'"
    ));
    assert!(plan.filter_graph.contains("[outv_txt]"));
    assert!(plan.output_args.contains(&"[outv_txt]".to_string()));
}
