//! Interactive directory picker: a persisted list of filesystem paths is
//! fuzzy-filtered by a typed query and navigated with a wrapping selection
//! index; confirming emits the highlighted path.

pub mod cli;
pub mod selector;
pub mod store;
