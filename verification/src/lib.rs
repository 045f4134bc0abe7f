//! Renders a book's markdown chapters into a single LaTeX document.
//!
//! Each chapter's markdown is parsed into an event stream; image references
//! are rewritten so the image files are relocated under an `images/` tree
//! beside the generated output; the stream is serialized back to markdown,
//! the chapters are concatenated in order, and the result is converted to
//! LaTeX and spliced into a template with title, author and date filled in.

pub mod config;
pub mod errors;
pub mod paths;
pub mod relocate;
pub mod text;
pub mod events;
pub mod render;
