//! Syntax highlighting for the code blocks of a parsed markdown document.
//!
//! A document arrives as a sequence of [`Event`]s. One pass over it replaces
//! every code block by a single HTML event that holds the highlighted code,
//! and forwards every other event untouched. The highlighting itself is done
//! by `syntect`; what this crate proves is the pass around it.
//!
//! The syntax definitions come from a registry of the engine's. A
//! [`Registry`] is one that is known to be well built, which the engine needs
//! in order not to panic.

pub mod engine;
pub mod error;
pub mod event;
pub mod laws;
pub mod lemmas;
pub mod model;
pub mod pass;
pub mod registry;

pub use error::Error;
pub use event::{CodeBlockKind, Event};
pub use pass::{
    first_unmatched_end, has_plain_text, highlight, try_highlight, PulldownHighlighter,
};
pub use registry::Registry;
