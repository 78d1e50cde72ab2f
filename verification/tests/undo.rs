//! The command and history engine: undo, redo, bounded depth.

use forgecut::error::CoreError;
use forgecut::history::{
    AddItemCommand, Command, History, MoveItemCommand, MoveItemToTrackCommand, RemoveItemCommand,
    SplitCommand, TrimInCommand, TrimOutCommand,
};
use forgecut::ids::{fresh_id, Id};
use forgecut::time::TimeUs;
use forgecut::types::{Item, Timeline, Track, TrackKind};

fn make_test_timeline() -> (Timeline, Id, Id, Item) {
    let track_id = fresh_id();
    let clip_id = fresh_id();
    let asset_id = fresh_id();
    let item = Item::VideoClip {
        id: clip_id,
        asset_id,
        track_id,
        timeline_start_us: TimeUs(0),
        source_in_us: TimeUs(0),
        source_out_us: TimeUs(5_000_000),
    };
    let tl = Timeline {
        tracks: vec![Track { id: track_id, kind: TrackKind::Video, items: vec![] }],
        markers: vec![],
    };
    (tl, track_id, clip_id, item)
}

#[test]
fn add_undo_redo() {
    let (mut tl, track_id, _clip_id, item) = make_test_timeline();
    let mut history = History::new(100);
    let cmd = Command::Add(AddItemCommand::new(track_id, item));
    history.execute(cmd, &mut tl).unwrap();
    assert_eq!(tl.tracks[0].items.len(), 1);
    history.undo(&mut tl).unwrap();
    assert!(tl.tracks[0].items.is_empty());
    history.redo(&mut tl).unwrap();
    assert_eq!(tl.tracks[0].items.len(), 1);
}

#[test]
fn new_action_clears_redo() {
    let (mut tl, track_id, clip_id, item) = make_test_timeline();
    let mut history = History::new(100);
    let cmd = Command::Add(AddItemCommand::new(track_id, item));
    history.execute(cmd, &mut tl).unwrap();
    history.undo(&mut tl).unwrap();
    assert!(history.can_redo());
    let item2 = Item::VideoClip {
        id: clip_id,
        asset_id: fresh_id(),
        track_id,
        timeline_start_us: TimeUs(10_000_000),
        source_in_us: TimeUs(0),
        source_out_us: TimeUs(3_000_000),
    };
    let cmd2 = Command::Add(AddItemCommand::new(track_id, item2));
    history.execute(cmd2, &mut tl).unwrap();
    assert!(!history.can_redo());
}

#[test]
fn undo_empty_history_errors() {
    let (mut tl, _, _, _) = make_test_timeline();
    let mut history = History::new(100);
    let result = history.undo(&mut tl);
    assert!(matches!(result.unwrap_err(), CoreError::NothingToUndo));
}

#[test]
fn redo_empty_stack_errors() {
    let (mut tl, _, _, _) = make_test_timeline();
    let mut history = History::new(100);
    let result = history.redo(&mut tl);
    assert!(matches!(result.unwrap_err(), CoreError::NothingToRedo));
}

#[test]
fn move_undo_restores_position() {
    let (mut tl, track_id, clip_id, item) = make_test_timeline();
    tl.add_item(track_id, item).unwrap();
    let mut history = History::new(100);
    let cmd = Command::Move(MoveItemCommand::new(clip_id, TimeUs(10_000_000)));
    history.execute(cmd, &mut tl).unwrap();
    assert_eq!(tl.tracks[0].items[0].timeline_start_us(), TimeUs(10_000_000));
    history.undo(&mut tl).unwrap();
    assert_eq!(tl.tracks[0].items[0].timeline_start_us(), TimeUs(0));
}

#[test]
fn trim_in_undo_restores() {
    let (mut tl, track_id, clip_id, item) = make_test_timeline();
    tl.add_item(track_id, item).unwrap();
    let mut history = History::new(100);
    let cmd = Command::TrimIn(TrimInCommand::new(clip_id, TimeUs(1_000_000)));
    history.execute(cmd, &mut tl).unwrap();
    let item = &tl.tracks[0].items[0];
    assert_eq!(item.timeline_end_us(), TimeUs(5_000_000));
    if let Item::VideoClip { source_in_us, .. } = item {
        assert_eq!(*source_in_us, TimeUs(1_000_000));
    }
    history.undo(&mut tl).unwrap();
    let item = &tl.tracks[0].items[0];
    assert_eq!(item.timeline_start_us(), TimeUs(0));
    if let Item::VideoClip { source_in_us, .. } = item {
        assert_eq!(*source_in_us, TimeUs(0));
    }
}

#[test]
fn trim_out_undo_restores() {
    let (mut tl, track_id, clip_id, item) = make_test_timeline();
    tl.add_item(track_id, item).unwrap();
    let mut history = History::new(100);
    let cmd = Command::TrimOut(TrimOutCommand::new(clip_id, TimeUs(3_000_000)));
    history.execute(cmd, &mut tl).unwrap();
    assert_eq!(tl.tracks[0].items[0].timeline_end_us(), TimeUs(3_000_000));
    history.undo(&mut tl).unwrap();
    assert_eq!(tl.tracks[0].items[0].timeline_end_us(), TimeUs(5_000_000));
}

#[test]
fn split_undo_restores_original() {
    let (mut tl, track_id, clip_id, item) = make_test_timeline();
    tl.add_item(track_id, item).unwrap();
    let mut history = History::new(100);
    let cmd = Command::Split(SplitCommand::new(clip_id, TimeUs(2_000_000)));
    history.execute(cmd, &mut tl).unwrap();
    assert_eq!(tl.tracks[0].items.len(), 2);
    history.undo(&mut tl).unwrap();
    assert_eq!(tl.tracks[0].items.len(), 1);
    let restored = &tl.tracks[0].items[0];
    assert_eq!(restored.id(), clip_id);
    assert_eq!(restored.timeline_start_us(), TimeUs(0));
    assert_eq!(restored.timeline_end_us(), TimeUs(5_000_000));
}

#[test]
fn max_size_limits_undo_stack() {
    let (mut tl, track_id, _, _) = make_test_timeline();
    let mut history = History::new(3);
    for i in 0..5 {
        let item = Item::VideoClip {
            id: fresh_id(),
            asset_id: fresh_id(),
            track_id,
            timeline_start_us: TimeUs(i * 10_000_000),
            source_in_us: TimeUs(0),
            source_out_us: TimeUs(5_000_000),
        };
        let cmd = Command::Add(AddItemCommand::new(track_id, item));
        history.execute(cmd, &mut tl).unwrap();
    }
    assert_eq!(tl.tracks[0].items.len(), 5);
    assert!(history.undo(&mut tl).is_ok());
    assert!(history.undo(&mut tl).is_ok());
    assert!(history.undo(&mut tl).is_ok());
    assert!(history.undo(&mut tl).is_err());
    assert_eq!(tl.tracks[0].items.len(), 2);
}

#[test]
fn can_undo_can_redo_flags() {
    let (mut tl, track_id, _, item) = make_test_timeline();
    let mut history = History::new(100);
    assert!(!history.can_undo());
    assert!(!history.can_redo());
    let cmd = Command::Add(AddItemCommand::new(track_id, item));
    history.execute(cmd, &mut tl).unwrap();
    assert!(history.can_undo());
    assert!(!history.can_redo());
    history.undo(&mut tl).unwrap();
    assert!(!history.can_undo());
    assert!(history.can_redo());
    history.redo(&mut tl).unwrap();
    assert!(history.can_undo());
    assert!(!history.can_redo());
}

#[test]
fn description_methods() {
    let (mut tl, track_id, _, item) = make_test_timeline();
    let mut history = History::new(100);
    assert_eq!(history.undo_description(), None);
    assert_eq!(history.redo_description(), None);
    let cmd = Command::Add(AddItemCommand::new(track_id, item));
    history.execute(cmd, &mut tl).unwrap();
    assert_eq!(history.undo_description(), Some("Add clip"));
    history.undo(&mut tl).unwrap();
    assert_eq!(history.redo_description(), Some("Add clip"));
    assert_eq!(history.undo_description(), None);
}

#[test]
fn remove_undo_redo() {
    let (mut tl, track_id, clip_id, item) = make_test_timeline();
    tl.add_item(track_id, item).unwrap();
    let mut history = History::new(100);
    let cmd = Command::Remove(RemoveItemCommand::new(clip_id));
    history.execute(cmd, &mut tl).unwrap();
    assert!(tl.tracks[0].items.is_empty());
    history.undo(&mut tl).unwrap();
    assert_eq!(tl.tracks[0].items.len(), 1);
    assert_eq!(tl.tracks[0].items[0].id(), clip_id);
    history.redo(&mut tl).unwrap();
    assert!(tl.tracks[0].items.is_empty());
}

#[test]
fn split_redo_works() {
    let (mut tl, track_id, clip_id, item) = make_test_timeline();
    tl.add_item(track_id, item).unwrap();
    let mut history = History::new(100);
    let cmd = Command::Split(SplitCommand::new(clip_id, TimeUs(2_000_000)));
    history.execute(cmd, &mut tl).unwrap();
    assert_eq!(tl.tracks[0].items.len(), 2);
    history.undo(&mut tl).unwrap();
    assert_eq!(tl.tracks[0].items.len(), 1);
    history.redo(&mut tl).unwrap();
    assert_eq!(tl.tracks[0].items.len(), 2);
}

#[test]
fn move_to_track_undo_redo() {
    let track_a = fresh_id();
    let track_b = fresh_id();
    let clip_id = fresh_id();
    let item = Item::VideoClip {
        id: clip_id,
        asset_id: fresh_id(),
        track_id: track_a,
        timeline_start_us: TimeUs(0),
        source_in_us: TimeUs(0),
        source_out_us: TimeUs(5_000_000),
    };
    let mut tl = Timeline {
        tracks: vec![
            Track { id: track_a, kind: TrackKind::Video, items: vec![item] },
            Track { id: track_b, kind: TrackKind::Video, items: vec![] },
        ],
        markers: vec![],
    };
    let mut history = History::new(100);
    let cmd = Command::MoveToTrack(MoveItemToTrackCommand::new(clip_id, track_b, TimeUs(2_000_000)));
    history.execute(cmd, &mut tl).unwrap();
    assert!(tl.tracks[0].items.is_empty());
    assert_eq!(tl.tracks[1].items.len(), 1);
    assert_eq!(tl.tracks[1].items[0].timeline_start_us(), TimeUs(2_000_000));
    history.undo(&mut tl).unwrap();
    assert_eq!(tl.tracks[0].items.len(), 1);
    assert!(tl.tracks[1].items.is_empty());
    assert_eq!(tl.tracks[0].items[0].timeline_start_us(), TimeUs(0));
    history.redo(&mut tl).unwrap();
    assert!(tl.tracks[0].items.is_empty());
    assert_eq!(tl.tracks[1].items.len(), 1);
    assert_eq!(tl.tracks[1].items[0].timeline_start_us(), TimeUs(2_000_000));
}

#[test]
fn move_redo_works() {
    let (mut tl, track_id, clip_id, item) = make_test_timeline();
    tl.add_item(track_id, item).unwrap();
    let mut history = History::new(100);
    let cmd = Command::Move(MoveItemCommand::new(clip_id, TimeUs(10_000_000)));
    history.execute(cmd, &mut tl).unwrap();
    history.undo(&mut tl).unwrap();
    assert_eq!(tl.tracks[0].items[0].timeline_start_us(), TimeUs(0));
    history.redo(&mut tl).unwrap();
    assert_eq!(tl.tracks[0].items[0].timeline_start_us(), TimeUs(10_000_000));
}
