//! The reversible-command engine: a closed set of command kinds, each
//! knowing how to run its forward operation and how to reverse it, and a
//! history of bounded undo/redo stacks. A command captures the prior state
//! it needs for reversal the first time it executes, not at construction;
//! executing a command twice without an intervening undo would make that
//! capture stale, so the history never does.

use vstd::prelude::*;
use crate::editing::{
    find_loc, result_matches, spec_add_item, spec_move_item, spec_move_item_to_track,
    spec_remove_item, spec_removed_item, spec_split_err, spec_split_tl, spec_target_item,
    spec_trim_in, spec_trim_out, trim_in_representable, trim_out_representable, with_track_items,
    EditErr, EditStep,
};
use crate::error::CoreError;
use crate::ids::Id;
use crate::time::TimeUs;
use crate::types::{Item, ItemV, Timeline, TimelineV};

verus! {

// ---------------------------------------------------------------------------
// Command values and their views
// ---------------------------------------------------------------------------

/// Add an item to a track; reversed by removing it.
pub struct AddItemCommand {
    pub track_id: Id,
    pub item: Item,
}

/// Remove an item; the removed item and its track are captured on execute
/// so that undo can re-insert it.
pub struct RemoveItemCommand {
    pub item_id: Id,
    pub removed_item: Option<Item>,
    pub track_id: Option<Id>,
}

/// Move an item to a new start; the prior start is captured on execute.
pub struct MoveItemCommand {
    pub item_id: Id,
    pub new_start_us: TimeUs,
    pub old_start_us: Option<TimeUs>,
}

/// Trim an item's in-point; the prior in-point (clips) or start
/// (overlays) is captured on execute.
pub struct TrimInCommand {
    pub item_id: Id,
    pub new_in_us: TimeUs,
    pub old_in_us: Option<TimeUs>,
}

/// Trim an item's out-point; the prior out-point (clips) or end
/// (overlays) is captured on execute.
pub struct TrimOutCommand {
    pub item_id: Id,
    pub new_out_us: TimeUs,
    pub old_out_us: Option<TimeUs>,
}

/// Split an item; the pre-split item and the generated right-half
/// identifier are captured on execute so that undo can remove the right
/// half and restore the original.
pub struct SplitCommand {
    pub item_id: Id,
    pub split_time_us: TimeUs,
    pub right_id: Option<Id>,
    pub original_item: Option<Item>,
}

/// Move an item to another track; the prior track and start are captured
/// on execute.
pub struct MoveItemToTrackCommand {
    pub item_id: Id,
    pub new_track_id: Id,
    pub new_start_us: TimeUs,
    pub old_track_id: Option<Id>,
    pub old_start_us: Option<TimeUs>,
}

/// One reversible operation of the editing engine. The set of operations
/// is fixed, so dispatch is over a closed tagged union.
pub enum Command {
    Add(AddItemCommand),
    Remove(RemoveItemCommand),
    Move(MoveItemCommand),
    TrimIn(TrimInCommand),
    TrimOut(TrimOutCommand),
    Split(SplitCommand),
    MoveToTrack(MoveItemToTrackCommand),
}

/// Mathematical view of a command, capture fields included.
#[verifier::ext_equal]
pub ghost enum CommandV {
    Add { track_id: Id, item: ItemV },
    Remove { item_id: Id, removed_item: Option<ItemV>, track_id: Option<Id> },
    Move { item_id: Id, new_start: int, old_start: Option<int> },
    TrimIn { item_id: Id, new_in: int, old_in: Option<int> },
    TrimOut { item_id: Id, new_out: int, old_out: Option<int> },
    Split { item_id: Id, split_time: int, right_id: Option<Id>, original_item: Option<ItemV> },
    MoveToTrack {
        item_id: Id,
        new_track_id: Id,
        new_start: int,
        old_track_id: Option<Id>,
        old_start: Option<int>,
    },
}

impl View for AddItemCommand {
    type V = CommandV;

    open spec fn view(&self) -> CommandV {
        CommandV::Add { track_id: self.track_id, item: self.item@ }
    }
}

impl View for RemoveItemCommand {
    type V = CommandV;

    open spec fn view(&self) -> CommandV {
        CommandV::Remove {
            item_id: self.item_id,
            removed_item: match &self.removed_item {
                Some(it) => Some(it@),
                None => None,
            },
            track_id: self.track_id,
        }
    }
}

impl View for MoveItemCommand {
    type V = CommandV;

    open spec fn view(&self) -> CommandV {
        CommandV::Move {
            item_id: self.item_id,
            new_start: self.new_start_us.0 as int,
            old_start: match self.old_start_us {
                Some(t) => Some(t.0 as int),
                None => None,
            },
        }
    }
}

impl View for TrimInCommand {
    type V = CommandV;

    open spec fn view(&self) -> CommandV {
        CommandV::TrimIn {
            item_id: self.item_id,
            new_in: self.new_in_us.0 as int,
            old_in: match self.old_in_us {
                Some(t) => Some(t.0 as int),
                None => None,
            },
        }
    }
}

impl View for TrimOutCommand {
    type V = CommandV;

    open spec fn view(&self) -> CommandV {
        CommandV::TrimOut {
            item_id: self.item_id,
            new_out: self.new_out_us.0 as int,
            old_out: match self.old_out_us {
                Some(t) => Some(t.0 as int),
                None => None,
            },
        }
    }
}

impl View for SplitCommand {
    type V = CommandV;

    open spec fn view(&self) -> CommandV {
        CommandV::Split {
            item_id: self.item_id,
            split_time: self.split_time_us.0 as int,
            right_id: self.right_id,
            original_item: match &self.original_item {
                Some(it) => Some(it@),
                None => None,
            },
        }
    }
}

impl View for MoveItemToTrackCommand {
    type V = CommandV;

    open spec fn view(&self) -> CommandV {
        CommandV::MoveToTrack {
            item_id: self.item_id,
            new_track_id: self.new_track_id,
            new_start: self.new_start_us.0 as int,
            old_track_id: self.old_track_id,
            old_start: match self.old_start_us {
                Some(t) => Some(t.0 as int),
                None => None,
            },
        }
    }
}

impl View for Command {
    type V = CommandV;

    open spec fn view(&self) -> CommandV {
        match self {
            Command::Add(c) => c@,
            Command::Remove(c) => c@,
            Command::Move(c) => c@,
            Command::TrimIn(c) => c@,
            Command::TrimOut(c) => c@,
            Command::Split(c) => c@,
            Command::MoveToTrack(c) => c@,
        }
    }
}

impl DeepView for Command {
    type V = CommandV;

    open spec fn deep_view(&self) -> CommandV {
        self.view()
    }
}

// ---------------------------------------------------------------------------
// Spec layer: what executing and undoing a command does
// ---------------------------------------------------------------------------

/// The value a trim-in command captures from the item for reversal: the
/// source in-point for clips, the timeline start for overlays.
pub open spec fn spec_capture_in(item: ItemV) -> int {
    match item {
        ItemV::VideoClip { src_in, .. } => src_in,
        ItemV::AudioClip { src_in, .. } => src_in,
        ItemV::ImageOverlay { start, .. } => start,
        ItemV::TextOverlay { start, .. } => start,
    }
}

/// The value a trim-out command captures from the item for reversal: the
/// source out-point for clips, the timeline end for overlays.
pub open spec fn spec_capture_out(item: ItemV) -> int {
    match item {
        ItemV::VideoClip { src_out, .. } => src_out,
        ItemV::AudioClip { src_out, .. } => src_out,
        ItemV::ImageOverlay { start, dur, .. } => start + dur,
        ItemV::TextOverlay { start, dur, .. } => start + dur,
    }
}

/// The right-half identifier a split command has drawn, if any; the
/// placeholder identifier otherwise. Extracts the specification witness
/// for `cmd_execute` from an executed command.
pub open spec fn cmd_rid(c: CommandV) -> Id {
    match c {
        CommandV::Split { right_id: Some(r), .. } => r,
        _ => Id(0),
    }
}

/// What executing a command does: the updated command (captures filled
/// in) and the outcome on the timeline. `rid` stands for the identifier
/// that a split draws for its right half; other commands ignore it.
pub open spec fn cmd_execute(c: CommandV, tl: TimelineV, rid: Id) -> (CommandV, EditStep) {
    match c {
        CommandV::Add { track_id, item } => (c, spec_add_item(tl, track_id, item)),
        CommandV::Remove { item_id, .. } => {
            let step = spec_remove_item(tl, item_id);
            match step.err {
                None => (
                    CommandV::Remove {
                        item_id,
                        removed_item: Some(spec_removed_item(tl, item_id)),
                        track_id: Some(spec_removed_item(tl, item_id).track_id()),
                    },
                    step,
                ),
                Some(_) => (c, step),
            }
        },
        CommandV::Move { item_id, new_start, .. } => {
            match spec_target_item(tl, item_id) {
                None => (c, EditStep { tl, err: Some(EditErr::ItemNotFound(item_id)) }),
                Some(item) => (
                    CommandV::Move { item_id, new_start, old_start: Some(item.start()) },
                    spec_move_item(tl, item_id, new_start),
                ),
            }
        },
        CommandV::TrimIn { item_id, new_in, .. } => {
            match spec_target_item(tl, item_id) {
                None => (c, EditStep { tl, err: Some(EditErr::ItemNotFound(item_id)) }),
                Some(item) => (
                    CommandV::TrimIn { item_id, new_in, old_in: Some(spec_capture_in(item)) },
                    spec_trim_in(tl, item_id, new_in),
                ),
            }
        },
        CommandV::TrimOut { item_id, new_out, .. } => {
            match spec_target_item(tl, item_id) {
                None => (c, EditStep { tl, err: Some(EditErr::ItemNotFound(item_id)) }),
                Some(item) => (
                    CommandV::TrimOut { item_id, new_out, old_out: Some(spec_capture_out(item)) },
                    spec_trim_out(tl, item_id, new_out),
                ),
            }
        },
        CommandV::Split { item_id, split_time, right_id, .. } => {
            match spec_target_item(tl, item_id) {
                None => (c, EditStep { tl, err: Some(EditErr::ItemNotFound(item_id)) }),
                Some(item) => {
                    match spec_split_err(tl, item_id, split_time) {
                        Some(e) => (
                            CommandV::Split {
                                item_id,
                                split_time,
                                right_id,
                                original_item: Some(item),
                            },
                            EditStep { tl, err: Some(e) },
                        ),
                        None => (
                            CommandV::Split {
                                item_id,
                                split_time,
                                right_id: Some(rid),
                                original_item: Some(item),
                            },
                            EditStep { tl: spec_split_tl(tl, item_id, split_time, rid), err: None },
                        ),
                    }
                },
            }
        },
        CommandV::MoveToTrack { item_id, new_track_id, new_start, .. } => {
            match spec_target_item(tl, item_id) {
                None => (c, EditStep { tl, err: Some(EditErr::ItemNotFound(item_id)) }),
                Some(item) => (
                    CommandV::MoveToTrack {
                        item_id,
                        new_track_id,
                        new_start,
                        old_track_id: Some(item.track_id()),
                        old_start: Some(item.start()),
                    },
                    spec_move_item_to_track(tl, item_id, new_track_id, new_start),
                ),
            }
        },
    }
}

/// What undoing a command does to the timeline. A command whose captures
/// were never filled in reports an invalid operation.
pub open spec fn cmd_undo(c: CommandV, tl: TimelineV) -> EditStep {
    match c {
        CommandV::Add { item, .. } => spec_remove_item(tl, item.id()),
        CommandV::Remove { removed_item, track_id, .. } => {
            match (track_id, removed_item) {
                (Some(t), Some(it)) => spec_add_item(tl, t, it),
                _ => EditStep { tl, err: Some(EditErr::Invalid) },
            }
        },
        CommandV::Move { item_id, old_start, .. } => {
            match old_start {
                Some(s) => spec_move_item(tl, item_id, s),
                None => EditStep { tl, err: Some(EditErr::Invalid) },
            }
        },
        CommandV::TrimIn { item_id, old_in, .. } => {
            match old_in {
                Some(v) => spec_trim_in(tl, item_id, v),
                None => EditStep { tl, err: Some(EditErr::Invalid) },
            }
        },
        CommandV::TrimOut { item_id, old_out, .. } => {
            match old_out {
                Some(v) => spec_trim_out(tl, item_id, v),
                None => EditStep { tl, err: Some(EditErr::Invalid) },
            }
        },
        CommandV::Split { item_id, right_id, original_item, .. } => {
            match (right_id, original_item) {
                (Some(rid), Some(orig)) => {
                    let step1 = spec_remove_item(tl, rid);
                    match step1.err {
                        Some(e) => EditStep { tl, err: Some(e) },
                        None => {
                            match find_loc(step1.tl, item_id) {
                                None => EditStep {
                                    tl: step1.tl,
                                    err: Some(EditErr::ItemNotFound(item_id)),
                                },
                                Some(loc) => EditStep {
                                    tl: with_track_items(
                                        step1.tl,
                                        loc.0,
                                        step1.tl.tracks[loc.0].items.update(loc.1, orig),
                                    ),
                                    err: None,
                                },
                            }
                        },
                    }
                },
                _ => EditStep { tl, err: Some(EditErr::Invalid) },
            }
        },
        CommandV::MoveToTrack { item_id, old_track_id, old_start, .. } => {
            match (old_track_id, old_start) {
                (Some(t), Some(s)) => spec_move_item_to_track(tl, item_id, t, s),
                _ => EditStep { tl, err: Some(EditErr::Invalid) },
            }
        },
    }
}

/// The machine bounds that executing a command needs (the trim
/// operations recompute 64-bit fields; everything else is total).
pub open spec fn cmd_exec_representable(c: CommandV, tl: TimelineV) -> bool {
    match c {
        CommandV::TrimIn { item_id, new_in, .. } => trim_in_representable(tl, item_id, new_in),
        CommandV::TrimOut { item_id, new_out, .. } => {
            trim_out_representable(tl, item_id, new_out) && match spec_target_item(tl, item_id) {
                Some(item) => i64::MIN <= spec_capture_out(item) <= i64::MAX,
                None => true,
            }
        },
        _ => true,
    }
}

/// The machine bounds that undoing a command needs.
pub open spec fn cmd_undo_representable(c: CommandV, tl: TimelineV) -> bool {
    match c {
        CommandV::TrimIn { item_id, old_in, .. } => {
            match old_in {
                Some(v) => trim_in_representable(tl, item_id, v),
                None => true,
            }
        },
        CommandV::TrimOut { item_id, old_out, .. } => {
            match old_out {
                Some(v) => trim_out_representable(tl, item_id, v),
                None => true,
            }
        },
        _ => true,
    }
}

/// The human-readable description of a command kind.
pub open spec fn cmd_description(c: CommandV) -> Seq<char> {
    match c {
        CommandV::Add { .. } => "Add clip"@,
        CommandV::Remove { .. } => "Remove clip"@,
        CommandV::Move { .. } => "Move clip"@,
        CommandV::TrimIn { .. } => "Trim in-point"@,
        CommandV::TrimOut { .. } => "Trim out-point"@,
        CommandV::Split { .. } => "Split clip"@,
        CommandV::MoveToTrack { .. } => "Move clip to track"@,
    }
}

// ---------------------------------------------------------------------------
// Command constructors
// ---------------------------------------------------------------------------

impl AddItemCommand {
    /// A command that will add `item` to the given track.
    pub fn new(track_id: Id, item: Item) -> (r: AddItemCommand)
        ensures
            r@ == (CommandV::Add { track_id, item: item@ }),
    {
        AddItemCommand { track_id, item }
    }
}

impl RemoveItemCommand {
    /// A command that will remove the item with the given identifier.
    pub fn new(item_id: Id) -> (r: RemoveItemCommand)
        ensures
            r@ == (CommandV::Remove { item_id, removed_item: None, track_id: None }),
    {
        RemoveItemCommand { item_id, removed_item: None, track_id: None }
    }
}

impl MoveItemCommand {
    /// A command that will move the item to a new timeline start.
    pub fn new(item_id: Id, new_start_us: TimeUs) -> (r: MoveItemCommand)
        ensures
            r@ == (CommandV::Move {
                item_id,
                new_start: new_start_us.0 as int,
                old_start: None,
            }),
    {
        MoveItemCommand { item_id, new_start_us, old_start_us: None }
    }
}

impl TrimInCommand {
    /// A command that will trim the item's in-point.
    pub fn new(item_id: Id, new_in_us: TimeUs) -> (r: TrimInCommand)
        ensures
            r@ == (CommandV::TrimIn { item_id, new_in: new_in_us.0 as int, old_in: None }),
    {
        TrimInCommand { item_id, new_in_us, old_in_us: None }
    }
}

impl TrimOutCommand {
    /// A command that will trim the item's out-point.
    pub fn new(item_id: Id, new_out_us: TimeUs) -> (r: TrimOutCommand)
        ensures
            r@ == (CommandV::TrimOut { item_id, new_out: new_out_us.0 as int, old_out: None }),
    {
        TrimOutCommand { item_id, new_out_us, old_out_us: None }
    }
}

impl SplitCommand {
    /// A command that will split the item at the given timeline position.
    pub fn new(item_id: Id, split_time_us: TimeUs) -> (r: SplitCommand)
        ensures
            r@ == (CommandV::Split {
                item_id,
                split_time: split_time_us.0 as int,
                right_id: None,
                original_item: None,
            }),
    {
        SplitCommand { item_id, split_time_us, right_id: None, original_item: None }
    }
}

impl MoveItemToTrackCommand {
    /// A command that will move the item to another track at a new start.
    pub fn new(item_id: Id, new_track_id: Id, new_start_us: TimeUs) -> (r: MoveItemToTrackCommand)
        ensures
            r@ == (CommandV::MoveToTrack {
                item_id,
                new_track_id,
                new_start: new_start_us.0 as int,
                old_track_id: None,
                old_start: None,
            }),
    {
        MoveItemToTrackCommand {
            item_id,
            new_track_id,
            new_start_us,
            old_track_id: None,
            old_start_us: None,
        }
    }
}

// ---------------------------------------------------------------------------
// Command execution and reversal
// ---------------------------------------------------------------------------

impl Command {
    /// Run the command's forward operation, filling in its reversal
    /// captures. The witness `rid` of the specification is the right-half
    /// identifier a split draws; every other command determines its
    /// outcome from the old state alone.
    pub fn execute(&mut self, timeline: &mut Timeline) -> (r: Result<(), CoreError>)
        requires
            cmd_exec_representable(old(self)@, old(timeline)@),
        ensures
            ({
                let (c2, step) = cmd_execute(old(self)@, old(timeline)@, cmd_rid(final(self)@));
                final(self)@ == c2 && final(timeline)@ == step.tl && result_matches(r, step.err)
            }),
    {
        match self {
            Command::Add(c) => {
                timeline.add_item(c.track_id, c.item.clone())
            },
            Command::Remove(c) => {
                match timeline.remove_item(c.item_id) {
                    Ok(item) => {
                        c.track_id = Some(item.track_id());
                        c.removed_item = Some(item);
                        Ok(())
                    },
                    Err(e) => Err(e),
                }
            },
            Command::Move(c) => {
                let old_start = match timeline.find_item(c.item_id) {
                    Some(item) => item.timeline_start_us(),
                    None => {
                        return Err(CoreError::ItemNotFound(c.item_id));
                    },
                };
                c.old_start_us = Some(old_start);
                timeline.move_item(c.item_id, c.new_start_us)
            },
            Command::TrimIn(c) => {
                let old_in = match timeline.find_item(c.item_id) {
                    Some(item) => capture_in(item),
                    None => {
                        return Err(CoreError::ItemNotFound(c.item_id));
                    },
                };
                c.old_in_us = Some(old_in);
                timeline.trim_in(c.item_id, c.new_in_us)
            },
            Command::TrimOut(c) => {
                let old_out = match timeline.find_item(c.item_id) {
                    Some(item) => capture_out(item),
                    None => {
                        return Err(CoreError::ItemNotFound(c.item_id));
                    },
                };
                c.old_out_us = Some(old_out);
                timeline.trim_out(c.item_id, c.new_out_us)
            },
            Command::Split(c) => {
                let orig = match timeline.find_item(c.item_id) {
                    Some(item) => item.clone(),
                    None => {
                        return Err(CoreError::ItemNotFound(c.item_id));
                    },
                };
                c.original_item = Some(orig);
                match timeline.split_at(c.item_id, c.split_time_us) {
                    Ok((_left, right)) => {
                        c.right_id = Some(right);
                        Ok(())
                    },
                    Err(e) => Err(e),
                }
            },
            Command::MoveToTrack(c) => {
                let (old_track, old_start) = match timeline.find_item(c.item_id) {
                    Some(item) => (item.track_id(), item.timeline_start_us()),
                    None => {
                        return Err(CoreError::ItemNotFound(c.item_id));
                    },
                };
                c.old_track_id = Some(old_track);
                c.old_start_us = Some(old_start);
                timeline.move_item_to_track(c.item_id, c.new_track_id, c.new_start_us)
            },
        }
    }

    /// Run the command's reverse operation from its captured state.
    pub fn undo(&self, timeline: &mut Timeline) -> (r: Result<(), CoreError>)
        requires
            cmd_undo_representable(self@, old(timeline)@),
        ensures
            final(timeline)@ == cmd_undo(self@, old(timeline)@).tl,
            result_matches(r, cmd_undo(self@, old(timeline)@).err),
    {
        let ghost pre = timeline@;
        match self {
            Command::Add(c) => {
                match timeline.remove_item(c.item.id()) {
                    Ok(_) => Ok(()),
                    Err(e) => Err(e),
                }
            },
            Command::Remove(c) => {
                let track_id = match &c.track_id {
                    Some(t) => *t,
                    None => {
                        return Err(CoreError::InvalidOperation("no track saved".to_owned()));
                    },
                };
                match &c.removed_item {
                    Some(item) => timeline.add_item(track_id, item.clone()),
                    None => Err(CoreError::InvalidOperation("no removed item saved".to_owned())),
                }
            },
            Command::Move(c) => {
                match c.old_start_us {
                    Some(s) => timeline.move_item(c.item_id, s),
                    None => Err(CoreError::InvalidOperation("no prior start saved".to_owned())),
                }
            },
            Command::TrimIn(c) => {
                match c.old_in_us {
                    Some(v) => timeline.trim_in(c.item_id, v),
                    None => Err(CoreError::InvalidOperation("no prior in-point saved".to_owned())),
                }
            },
            Command::TrimOut(c) => {
                match c.old_out_us {
                    Some(v) => timeline.trim_out(c.item_id, v),
                    None => Err(
                        CoreError::InvalidOperation("no prior out-point saved".to_owned()),
                    ),
                }
            },
            Command::Split(c) => {
                let right_id = match &c.right_id {
                    Some(rid) => *rid,
                    None => {
                        return Err(
                            CoreError::InvalidOperation("no right half saved".to_owned()),
                        );
                    },
                };
                let original = match &c.original_item {
                    Some(item) => item.clone(),
                    None => {
                        return Err(
                            CoreError::InvalidOperation("no original item saved".to_owned()),
                        );
                    },
                };
                match timeline.remove_item(right_id) {
                    Ok(_) => {},
                    Err(e) => {
                        return Err(e);
                    },
                }
                let ghost mid = timeline@;
                match timeline.find_item_location(c.item_id) {
                    Some((ti, ii)) => {
                        timeline.write_item(ti, ii, original);
                        Ok(())
                    },
                    None => Err(CoreError::ItemNotFound(c.item_id)),
                }
            },
            Command::MoveToTrack(c) => {
                let old_track = match &c.old_track_id {
                    Some(t) => *t,
                    None => {
                        return Err(CoreError::InvalidOperation("no prior track saved".to_owned()));
                    },
                };
                match c.old_start_us {
                    Some(s) => timeline.move_item_to_track(c.item_id, old_track, s),
                    None => Err(CoreError::InvalidOperation("no prior start saved".to_owned())),
                }
            },
        }
    }

    /// The command's human-readable description.
    pub fn description(&self) -> (r: &'static str)
        ensures
            r@ == cmd_description(self@),
    {
        match self {
            Command::Add(_) => "Add clip",
            Command::Remove(_) => "Remove clip",
            Command::Move(_) => "Move clip",
            Command::TrimIn(_) => "Trim in-point",
            Command::TrimOut(_) => "Trim out-point",
            Command::Split(_) => "Split clip",
            Command::MoveToTrack(_) => "Move clip to track",
        }
    }
}

// ---------------------------------------------------------------------------
// History
// ---------------------------------------------------------------------------

/// A bounded undo stack paired with a redo stack.
pub struct History {
    pub undo_stack: Vec<Command>,
    pub redo_stack: Vec<Command>,
    pub max_size: usize,
}

/// Mathematical view of a history.
#[verifier::ext_equal]
pub ghost struct HistoryV {
    pub undo: Seq<CommandV>,
    pub redo: Seq<CommandV>,
    pub max: int,
}

impl View for History {
    type V = HistoryV;

    open spec fn view(&self) -> HistoryV {
        HistoryV {
            undo: self.undo_stack.deep_view(),
            redo: self.redo_stack.deep_view(),
            max: self.max_size as int,
        }
    }
}

/// An undo stack after a push: the new command goes on top, and if the
/// stack then exceeds its bound the oldest entry is evicted from the
/// bottom.
pub open spec fn push_bounded(s: Seq<CommandV>, c: CommandV, max: int) -> Seq<CommandV> {
    let t = s.push(c);
    if t.len() > max {
        t.drop_first()
    } else {
        t
    }
}

impl History {
    /// An empty history with the given maximum undo depth.
    pub fn new(max_size: usize) -> (r: History)
        ensures
            r@ == (HistoryV { undo: Seq::<CommandV>::empty(), redo: Seq::<CommandV>::empty(), max: max_size as int }),
    {
        let r = History { undo_stack: Vec::new(), redo_stack: Vec::new(), max_size };
        proof {
            assert(r@.undo =~= Seq::<CommandV>::empty());
            assert(r@.redo =~= Seq::<CommandV>::empty());
        }
        r
    }

    /// Run a command. On success the redo stack is cleared and the
    /// executed command (captures filled in) is pushed onto the undo
    /// stack, evicting the oldest entry if the depth bound is exceeded.
    /// On failure the stacks are untouched and the error is surfaced; the
    /// timeline is then as the command's own contract left it.
    pub fn execute(&mut self, cmd: Command, timeline: &mut Timeline) -> (r: Result<(), CoreError>)
        requires
            cmd_exec_representable(cmd@, old(timeline)@),
        ensures
            exists|rid: Id|
                {
                    let (c2, step) = #[trigger] cmd_execute(cmd@, old(timeline)@, rid);
                    final(timeline)@ == step.tl && result_matches(r, step.err) && match step.err {
                        None => final(self)@ == (HistoryV {
                            undo: push_bounded(old(self)@.undo, c2, old(self)@.max),
                            redo: Seq::<CommandV>::empty(),
                            max: old(self)@.max,
                        }),
                        Some(_) => final(self)@ == old(self)@,
                    }
                },
    {
        let mut cmd = cmd;
        let ghost cmd0 = cmd@;
        let res = cmd.execute(timeline);
        let ghost rid = cmd_rid(cmd@);
        match res {
            Err(e) => {
                proof {
                    let (c2, step) = cmd_execute(cmd0, old(timeline)@, rid);
                    assert(timeline@ == step.tl && result_matches(res, step.err));
                }
                Err(e)
            },
            Ok(()) => {
                let ghost c2 = cmd@;
                let ghost pre = self@;
                self.redo_stack.clear();
                proof {
                    assert(self@.redo =~= Seq::<CommandV>::empty());
                    assert(self@.undo =~~= pre.undo);
                }
                let ghost mid_sh = self.undo_stack@;
                self.undo_stack.push(cmd);
                proof {
                    assert(self@.undo =~~= pre.undo.push(c2));
                }
                if self.undo_stack.len() > self.max_size {
                    let ghost mid2 = self@.undo;
                    self.undo_stack.remove(0);
                    proof {
                        assert(self@.undo =~~= mid2.drop_first());
                    }
                }
                proof {
                    assert(self@.undo =~~= push_bounded(pre.undo, c2, pre.max));
                    let (cc2, step) = cmd_execute(cmd0, old(timeline)@, rid);
                    assert(timeline@ == step.tl && result_matches(res, step.err));
                }
                Ok(())
            },
        }
    }

    /// Reverse the most recent command and move it to the redo stack.
    /// Fails with `NothingToUndo` on an empty stack; if the command's
    /// reverse operation fails, the stacks are left as they were and the
    /// error is surfaced.
    pub fn undo(&mut self, timeline: &mut Timeline) -> (r: Result<(), CoreError>)
        requires
            old(self)@.undo.len() > 0 ==> cmd_undo_representable(
                old(self)@.undo.last(),
                old(timeline)@,
            ),
        ensures
            old(self)@.undo.len() == 0 ==> (r matches Err(CoreError::NothingToUndo))
                && final(self)@ == old(self)@ && final(timeline)@ == old(timeline)@,
            old(self)@.undo.len() > 0 ==> ({
                let c = old(self)@.undo.last();
                let step = cmd_undo(c, old(timeline)@);
                final(timeline)@ == step.tl && result_matches(r, step.err) && match step.err {
                    None => final(self)@ == (HistoryV {
                        undo: old(self)@.undo.drop_last(),
                        redo: old(self)@.redo.push(c),
                        max: old(self)@.max,
                    }),
                    Some(_) => final(self)@ == old(self)@,
                }
            }),
    {
        let ghost pre = self@;
        let cmd = match self.undo_stack.pop() {
            Some(cmd) => cmd,
            None => {
                return Err(CoreError::NothingToUndo);
            },
        };
        proof {
            assert(self@.undo =~~= pre.undo.drop_last());
            assert(cmd@ == pre.undo.last());
        }
        match cmd.undo(timeline) {
            Ok(()) => {
                let ghost c = cmd@;
                self.redo_stack.push(cmd);
                proof {
                    assert(self@.redo =~~= pre.redo.push(c));
                    assert(self@.undo =~~= pre.undo.drop_last());
                }
                Ok(())
            },
            Err(e) => {
                let ghost c = cmd@;
                self.undo_stack.push(cmd);
                proof {
                    assert(self@.undo =~~= pre.undo.drop_last().push(c));
                    assert(pre.undo.drop_last().push(c) =~= pre.undo);
                    assert(self@.redo =~~= pre.redo);
                }
                Err(e)
            },
        }
    }

    /// Re-run the most recently undone command and move it back to the
    /// undo stack. Fails with `NothingToRedo` on an empty stack; if the
    /// command fails, it stays on the redo stack (with its captures
    /// refreshed) and the error is surfaced.
    pub fn redo(&mut self, timeline: &mut Timeline) -> (r: Result<(), CoreError>)
        requires
            old(self)@.redo.len() > 0 ==> cmd_exec_representable(
                old(self)@.redo.last(),
                old(timeline)@,
            ),
        ensures
            old(self)@.redo.len() == 0 ==> (r matches Err(CoreError::NothingToRedo))
                && final(self)@ == old(self)@ && final(timeline)@ == old(timeline)@,
            old(self)@.redo.len() > 0 ==> ({
                let c = old(self)@.redo.last();
                let rid = cmd_rid_of_history(final(self)@, old(self)@);
                let (c2, step) = cmd_execute(c, old(timeline)@, rid);
                final(timeline)@ == step.tl && result_matches(r, step.err) && match step.err {
                    None => final(self)@ == (HistoryV {
                        undo: old(self)@.undo.push(c2),
                        redo: old(self)@.redo.drop_last(),
                        max: old(self)@.max,
                    }),
                    Some(_) => final(self)@ == (HistoryV {
                        undo: old(self)@.undo,
                        redo: old(self)@.redo.drop_last().push(c2),
                        max: old(self)@.max,
                    }),
                }
            }),
    {
        let ghost pre = self@;
        let mut cmd = match self.redo_stack.pop() {
            Some(cmd) => cmd,
            None => {
                return Err(CoreError::NothingToRedo);
            },
        };
        proof {
            assert(self@.redo =~~= pre.redo.drop_last());
            assert(cmd@ == pre.redo.last());
        }
        match cmd.execute(timeline) {
            Ok(()) => {
                let ghost c2 = cmd@;
                self.undo_stack.push(cmd);
                proof {
                    assert(self@.undo =~~= pre.undo.push(c2));
                    assert(self@.redo =~~= pre.redo.drop_last());
                }
                Ok(())
            },
            Err(e) => {
                let ghost c2 = cmd@;
                self.redo_stack.push(cmd);
                proof {
                    assert(self@.redo =~~= pre.redo.drop_last().push(c2));
                    assert(self@.undo =~~= pre.undo);
                }
                Err(e)
            },
        }
    }

    /// Whether an undo is available.
    pub fn can_undo(&self) -> (r: bool)
        ensures
            r == (self@.undo.len() > 0),
    {
        self.undo_stack.len() > 0
    }

    /// Whether a redo is available.
    pub fn can_redo(&self) -> (r: bool)
        ensures
            r == (self@.redo.len() > 0),
    {
        self.redo_stack.len() > 0
    }

    /// The description of the command an undo would reverse, if any.
    pub fn undo_description(&self) -> (r: Option<&str>)
        ensures
            self@.undo.len() == 0 ==> r is None,
            self@.undo.len() > 0 ==> (r matches Some(s) && s@ == cmd_description(
                self@.undo.last(),
            )),
    {
        if self.undo_stack.len() > 0 {
            Some(self.undo_stack[self.undo_stack.len() - 1].description())
        } else {
            None
        }
    }

    /// The description of the command a redo would re-run, if any.
    pub fn redo_description(&self) -> (r: Option<&str>)
        ensures
            self@.redo.len() == 0 ==> r is None,
            self@.redo.len() > 0 ==> (r matches Some(s) && s@ == cmd_description(
                self@.redo.last(),
            )),
    {
        if self.redo_stack.len() > 0 {
            Some(self.redo_stack[self.redo_stack.len() - 1].description())
        } else {
            None
        }
    }
}

/// The split witness of the command that the present call pushed, read
/// off the history that resulted: the top of the undo stack if it grew,
/// else the top of the redo stack, else a placeholder. Lets the
/// history's contracts name the right-half identifier a split drew.
pub open spec fn cmd_rid_of_history(post: HistoryV, pre: HistoryV) -> Id {
    if post.undo.len() > 0 && post.undo != pre.undo {
        cmd_rid(post.undo.last())
    } else if post.redo.len() > 0 {
        cmd_rid(post.redo.last())
    } else {
        Id(0)
    }
}

/// The in-point a trim-in command captures for reversal.
fn capture_in(item: &Item) -> (r: TimeUs)
    ensures
        r.0 as int == spec_capture_in(item@),
{
    match item {
        Item::VideoClip { source_in_us, .. } => *source_in_us,
        Item::AudioClip { source_in_us, .. } => *source_in_us,
        Item::ImageOverlay { timeline_start_us, .. } => *timeline_start_us,
        Item::TextOverlay { timeline_start_us, .. } => *timeline_start_us,
    }
}

/// The out-point a trim-out command captures for reversal.
fn capture_out(item: &Item) -> (r: TimeUs)
    requires
        i64::MIN <= spec_capture_out(item@) <= i64::MAX,
    ensures
        r.0 as int == spec_capture_out(item@),
{
    match item {
        Item::VideoClip { source_out_us, .. } => *source_out_us,
        Item::AudioClip { source_out_us, .. } => *source_out_us,
        Item::ImageOverlay { timeline_start_us, duration_us, .. } => TimeUs(
            (timeline_start_us.0 as i128 + duration_us.0 as i128) as i64,
        ),
        Item::TextOverlay { timeline_start_us, duration_us, .. } => TimeUs(
            (timeline_start_us.0 as i128 + duration_us.0 as i128) as i64,
        ),
    }
}

} // verus!
