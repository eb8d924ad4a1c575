//! A flashcard study tool: a store of named topics, each an ordered list of
//! question/answer cards, and the keyboard-driven state machine that browses,
//! reviews and edits it.
//!
//! - [`store`]: the topic store and its model, a list of topics sorted by name.
//! - [`app`]: the state machine, as a function from state and key to state.
//! - [`laws`]: what holds of the state machine for every store and key.
//! - [`persist`]: the store as a JSON document and as text.
//! - [`screen`]: what each state shows, for a renderer to lay out.
//! - [`keys`]: keyboard events.
//! - [`text`]: trimming, line splitting and the alphabetical order.

pub mod app;
pub mod keys;
pub mod laws;
pub mod persist;
pub mod screen;
pub mod store;
pub mod text;

pub use crate::app::{App, AppState};
pub use crate::keys::{KeyCode, KeyEvent, KeyKind};
pub use crate::store::{Flashcard, Topic, Topics};
