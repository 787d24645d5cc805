//! Item builds for every champion, fetched from the selected sources
//! and written to one file each.
//!
//! A run resolves the game version and the champion catalog, makes one
//! task for each pair of a source and a champion, runs the tasks with a
//! bounded number in flight, writes each item build that a task fetched
//! and keeps a record of every attempt. This library holds what a run
//! decides and computes; the fetches, the writes and the window are its
//! caller's.
//!
//! - [`web`]: the remote documents and their addresses
//! - [`builds`]: the tasks of a run
//! - [`executor`]: admission of tasks under the ceiling
//! - [`writer`]: the file of each item build
//! - [`records`]: the records and the summary of a run
//! - [`accounting`]: what a summary holds, task by task
//! - [`pipeline`]: the order of the stages
//! - [`output`]: the preparation of the output area
//! - [`lcu`]: the address of the local game client
//! - [`gui`], [`selection`], [`champr`]: the state behind the windows
//! - [`text`]: work on text

pub mod accounting;
pub mod builds;
pub mod champr;
pub mod executor;
pub mod gui;
pub mod lcu;
pub mod output;
pub mod pipeline;
pub mod records;
pub mod selection;
pub mod text;
pub mod web;
pub mod writer;
