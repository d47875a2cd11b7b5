//! Terminal rendering of Markdown documents, with a scrolling pager.

pub mod text;
pub mod style;
pub mod measure;
pub mod markdown;
pub mod blocks;
pub mod table;
pub mod render;
pub mod pager;
