//! Markdown rendering: from Markdown source to styled terminal lines and to HTML.
pub mod blocks;
pub mod wrap;
pub mod highlight;
pub mod events;
pub mod render;
pub mod shown;
pub mod engine;
pub mod pulldown;
pub mod comrak;
