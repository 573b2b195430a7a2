//! Writing, checking and collecting 5-7-5 haikus: syllable counting,
//! haiku validation, bulk import, the saved-collection rules, terminal
//! styling and the state machine behind the full-screen interface.

pub mod text;
pub mod syllables;
pub mod line_check;
pub mod haiku;
pub mod import;
pub mod store;
pub mod tui;
pub mod style;
pub mod feedback;
