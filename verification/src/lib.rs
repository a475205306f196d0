//! Extraction of a koan case (a title and the koan text) from an HTML page.
//!
//! A [`Page`] is parsed from HTML text. [`get_case`] reads the title off the
//! last `title` element and joins the trimmed texts of the elements of class
//! `koan`; [`render`] lays the case out for printing.

pub mod case;
pub mod dom;
pub mod text;

pub use case::{get_case, get_case_with_title, get_koan_text, get_text, render, Case};
pub use dom::{Page, MAX_HTML_BYTES};
pub use text::trim;
