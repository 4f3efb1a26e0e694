//! The data that the library passes around.

pub mod file_kind;
