//! Extraction of bundle archives: the entry catalog, the resource filter,
//! the extraction state machine and the interface state that drives them.

pub mod catalog;
pub mod extraction;
pub mod filter;
pub mod order;
pub mod paths;
pub mod progress;
pub mod session;
pub mod state;
pub mod trace;
