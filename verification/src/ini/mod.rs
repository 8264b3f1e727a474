//! `platformio.ini` reading and surgical editing.
pub mod document;
pub mod laws;
pub mod lint;
pub mod parse;
pub mod patch;
pub mod revert;
pub mod effective;
