//! Parts that the tabs are built from.

pub mod input_field;
pub mod target_filter;
pub mod viewport;
