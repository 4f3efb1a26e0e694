//! Harvesting of media and document assets that a JSON manifest refers to.
//!
//! The library finds the strings in a JSON tree that name an asset, classifies
//! each by its extension, names its place in one flat destination folder and
//! decides how it is written there. It touches no file itself: it hands back
//! the action, and the caller carries it out.

pub mod asset;
pub mod errors;
pub mod json;
pub mod models;
pub mod pattern;
pub mod scan;
pub mod search;
pub mod slug;
pub mod text;

pub use json::JsonValue;
pub use pattern::filename_predicate;
pub use scan::{asset_paths, op, scan, JsonStrVisitor};
pub use search::{FileSearcher, FileSystemEntity, Harvest, TargetFile};
pub use slug::{slug_of_lowercase, Slug};
