//! Blind-test video compiler: turns a declarative project (optional intro,
//! global guess and reveal timings, an ordered list of clips) into the filter
//! graph and the argument vector of one encoder invocation.
//!
//! - [`timecode`]: `HH:MM:SS.mmm` to exact milliseconds.
//! - [`model`]: the project as it is written.
//! - [`validate`]: the rules a project must meet.
//! - [`plan`]: the project with every field read.
//! - [`filter_graph`]: labels, filters and nodes, and their text.
//! - [`ffmpeg_command`]: the graph and the arguments of a plan.
//! - [`wiring`], [`naming`]: the discipline of labels in a graph.
//! - [`countdown`]: what the guess phase shows over time.
//! - [`ffmpeg`]: a command on one line, for display.
//! - [`wizard`]: what to make of typed answers and of a folder of videos.
//! - [`error`], [`text`]: failures and text primitives.

pub mod countdown;
pub mod error;
pub mod ffmpeg;
pub mod ffmpeg_command;
pub mod filter_graph;
pub mod model;
pub mod naming;
pub mod plan;
pub mod text;
pub mod timecode;
pub mod validate;
pub mod wiring;
pub mod wizard;
