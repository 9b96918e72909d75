//! Builds a Markdown digest out of the comments of one issue thread.
//!
//! Every comment is offered to a fixed chain of extractors. The formal
//! extractor absorbs fenced YAML submissions and merges them by name; the
//! casual extractor keeps every other comment that mentions a link. The
//! assembled digest renders a fixed header followed by what each extractor
//! has gathered.

pub mod casual;
pub mod entry;
pub mod error;
pub mod formal;
pub mod github;
pub mod pattern;
pub mod payload;
pub mod text;
pub mod weekly;
pub mod yaml;
