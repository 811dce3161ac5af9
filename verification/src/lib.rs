//! Rendering of message histories as HTML.

pub mod apps;
pub mod archives;
pub mod attachments;
pub mod balloons;
pub mod blocks;
pub mod bubbles;
pub mod captions;
pub mod database;
pub mod excerpts;
pub mod html;
pub mod laws;
pub mod media;
pub mod messages;
pub mod notes;
pub mod pages;
pub mod paths;
pub mod payload;
pub mod reactions;
pub mod records;
pub mod runs;
pub mod tables;
pub mod text;
pub mod threads;
