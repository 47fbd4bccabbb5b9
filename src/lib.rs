//! A fuzzy finder widget: a list of labelled entries that a user searches by
//! typing a query, ranks by match quality, navigates, and picks from. The
//! host delivers key presses and list updates and prints the frames that the
//! picker renders.
pub mod config;
pub mod keys;
pub mod oracle;
pub mod picker;
pub mod ranking;
pub mod render;
pub mod text;

pub use keys::{Event, InputMode, Key, KeyAction, KeyCode};
pub use oracle::CaseMatching;
pub use picker::{Picker, Response};
pub use ranking::{Entry, SearchResult};
