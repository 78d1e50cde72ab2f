//! Error kinds for the editing/history core and the render compiler. All
//! operations return these as values; nothing in the core aborts the
//! process.

use vstd::prelude::*;
use vstd::string::StringExecFns;
use crate::ids::Id;

verus! {

/// Errors of the timeline editing and history engines.
#[derive(Debug)]
pub enum CoreError {
    /// No item with the given identifier exists on any track.
    ItemNotFound(Id),
    /// No track with the given identifier exists.
    TrackNotFound(Id),
    /// The operation would make two items' half-open intervals intersect.
    OverlapDetected,
    /// The operation's arguments are invalid; the payload says why.
    InvalidOperation(String),
    /// The undo stack is empty.
    NothingToUndo,
    /// The redo stack is empty.
    NothingToRedo,
}

impl CoreError {
    /// A short human-readable description of the error.
    pub fn message(&self) -> String
    {
        match self {
            CoreError::ItemNotFound(_) => "item not found".to_owned(),
            CoreError::TrackNotFound(_) => "track not found".to_owned(),
            CoreError::OverlapDetected => "overlap detected".to_owned(),
            CoreError::InvalidOperation(s) => {
                let mut m = "invalid operation: ".to_owned();
                m.append(s.as_str());
                m
            },
            CoreError::NothingToUndo => "nothing to undo".to_owned(),
            CoreError::NothingToRedo => "nothing to redo".to_owned(),
        }
    }
}

/// Errors of the render compiler and of render execution.
#[derive(Debug)]
pub enum RenderError {
    /// No primary video track with video clips exists: nothing to render.
    NoClips,
    /// An item references an asset identifier that is not in the project.
    AssetNotFound(Id),
    /// The render engine binary could not be spawned at all.
    FfmpegNotFound,
    /// The render engine exited unsuccessfully; the payload describes how.
    FfmpegFailed(String),
}

impl RenderError {
    /// A short human-readable description of the error.
    pub fn message(&self) -> String
    {
        match self {
            RenderError::NoClips => "no clips to render".to_owned(),
            RenderError::AssetNotFound(_) => "asset not found".to_owned(),
            RenderError::FfmpegNotFound => "ffmpeg not found".to_owned(),
            RenderError::FfmpegFailed(s) => {
                let mut m = "ffmpeg failed: ".to_owned();
                m.append(s.as_str());
                m
            },
        }
    }
}

} // verus!
