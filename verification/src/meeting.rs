//! Meetings, their transcripts and notes, and the export of a meeting as text.

pub mod commands;
pub mod db;
pub mod models;
