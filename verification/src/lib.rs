//! Builds an index of editor plugins from a curated markdown list.
//!
//! The library finds `owner/name` references in the list items of a markdown
//! document, reconciles them with a previously written index, and folds the
//! metadata fetched for each reference into a collection in which no two
//! records share an owner and a name.

pub mod add;
pub mod diagnostics;
pub mod extract;
pub mod index;
pub mod markdown;
pub mod pattern;
pub mod plugin;
pub mod readme;
pub mod reference_set;
pub mod repository;
