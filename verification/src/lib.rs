//! Batch file renaming driven by an ordered list of rename rules.

pub mod text;
pub mod number;
pub mod casing;
pub mod rules;
pub mod listing;
pub mod app;
pub mod input;
pub mod view;
