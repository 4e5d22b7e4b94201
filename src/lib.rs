//! Conversion of a BibTeX bibliography into one Markdown document per entry.
//!
//! Two parsing strategies are offered: [`structured`] parses the bibliography
//! with the `biblatex` crate and renders each entry's key, authors, title and
//! fields ([`markdown`]); [`naive`] cuts the text at every line that starts
//! with `@` and wraps each block verbatim. [`emit`] decides which file each
//! document goes to, and [`laws`] states what a whole run does to the output
//! directory.

pub mod emit;
pub mod laws;
pub mod markdown;
pub mod naive;
pub mod record;
pub mod structured;
pub mod text;
