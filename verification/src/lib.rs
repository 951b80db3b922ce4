//! Time tracking core: window-title classification, idle detection,
//! window-switch bookkeeping, summary caching and timesheet export helpers.
pub mod text;
pub mod classifier;
pub mod idle;
pub mod hook;
pub mod dates;
pub mod summary;
pub mod vault;
pub mod export;
pub mod matter;
