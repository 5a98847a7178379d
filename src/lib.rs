//! Detection of unfenced Lua code in chat messages.
//!
//! A message is split into lines; lines inside an already fenced Lua block
//! are passed over, every other line is classified by a fixed set of
//! recognizers, and blank lines take the label of the line before them.
pub mod codeblocks;
pub mod laws;
pub mod recognizers;
pub mod reply;
pub mod segmenter;
