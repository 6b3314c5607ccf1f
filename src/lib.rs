//! Core of an interactive line filter: an edge-anchored list cursor over a
//! result set of changing length, a redraw debouncer, a search driver over
//! an incremental fuzzy matcher, the router that owns the event loop's
//! state, and the textual forms of keys, actions and binds.

pub mod cursor;
pub mod debounce;
pub mod searcher;
pub mod state;
pub mod router;
pub mod key;
pub mod action;
pub mod bind;
pub mod layout;
pub mod text;
