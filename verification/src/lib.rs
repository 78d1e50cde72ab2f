//! Timeline core for a non-linear video editor: a microsecond-precision
//! timeline data model, editing operations with a per-track no-overlap
//! invariant, a bounded undo/redo command engine, snapping, and a render
//! compiler that turns a project into an ffmpeg filter-graph plan together
//! with a parser for ffmpeg's textual progress stream.

pub mod time;
pub mod ids;
pub mod error;
pub mod types;
pub mod editing;
pub mod history;
pub mod snapping;
pub mod strfmt;
pub mod progress;
pub mod render;
pub mod project;
pub mod proxy;
pub mod query;
pub mod laws;
