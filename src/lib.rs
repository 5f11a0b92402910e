//! Selection logic for interactive terminal prompts: key classification,
//! the cursor and choice state of the single-select, multi-select and
//! fuzzy-filter widgets, and the rows each frame draws.
pub mod frame;
pub mod fuzzy;
pub mod keys;
pub mod select;
