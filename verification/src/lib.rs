//! Browsing engine for hierarchical mail archives: a flattened folder index,
//! a lazily filled window of summary rows, message search, body resolution
//! and the state machine of the two-pane view.

pub mod body;
pub mod date;
pub mod export;
pub mod folder;
pub mod html;
pub mod props;
pub mod rows;
pub mod rtf;
pub mod search;
pub mod stats;
pub mod text;
pub mod view;
