//! A small verified library built around word-slice extraction: given a text
//! and a zero-based word index, return the view of that whitespace-delimited
//! word, or report that the index is out of range.

pub mod accounts;
pub mod coins;
pub mod numbers;
pub mod person;
pub mod points;
pub mod profile;
pub mod shapes;
pub mod text;
pub mod words;
