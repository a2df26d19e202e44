//! EPUB narration: command parsing, chapter text and reading position.
pub mod archive;
pub mod book;
pub mod container;
pub mod commands;
pub mod narrator;
pub mod paragraphs;
pub mod replies;
pub mod restore;
