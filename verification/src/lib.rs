//! Plain-text rendering of Markdown for a copy-friendly "Select Text" view,
//! together with the decisions of a small Markdown viewer: how rendered items
//! are grouped under headings, when a watched file triggers a reload, and how
//! the viewer's state follows its messages.

pub mod text;
pub mod events;
pub mod plain;
pub mod sections;
pub mod viewer;
pub mod theme;
