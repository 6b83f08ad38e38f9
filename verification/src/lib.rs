//! Search, download and sharing logic of a desktop sticker (emotion GIF) picker.
//!
//! The library holds the verified logic: the search query and its paging,
//! the search URL, the reading of the search service's JSON answer, the
//! size check that precedes a download, the error values, and the grid
//! layout of the results. Network, file and window work stays with the
//! program that uses it.

mod error;
pub mod text;
pub mod query;
pub mod json;
pub mod finder;
pub mod shared;
pub mod ui;

pub use error::{CommonError, ErrorCause, ErrorType};
