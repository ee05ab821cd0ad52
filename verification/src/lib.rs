//! Work insights: what the desktop programs for activity tracking and for
//! meeting notes compute, stated and proved.
//!
//! The heart of the library is the activity segmentation engine. A background
//! worker samples what the user is doing, and the engine turns the stream of
//! samples into activity segments that never overlap, each with a start and a
//! duration, ready to be stored and summed up. `activity` holds the engine and
//! the monitor that starts and stops the worker, `database` the stored
//! segments and the queries over them, `meeting` the records of a meeting and
//! their export as Markdown, `text` the writing of numbers and names.
//!
//! The library does no input or output. The clock, the calendar and the
//! source of random identifiers are reached through a few trusted functions,
//! each of which says so.

pub mod activity;
pub mod commands;
pub mod database;
pub mod meeting;
pub mod text;
