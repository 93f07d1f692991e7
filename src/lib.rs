//! Tracks a weekly digest page, extracts the content of each new issue and
//! renders it into text blocks for a chat transport.

pub mod batch;
pub mod bot;
pub mod html;
pub mod markup;
pub mod parsers;
pub mod text;
pub mod types;
