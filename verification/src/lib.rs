//! Core of a fast file-search traversal engine: a verified directory-tree
//! walker with interchangeable strategies, a multi-volume report builder,
//! a two-phase parameter tuner, thread-pool sizing, and the formatting and
//! wide-string helpers the engine needs.

pub mod config;
pub mod errors;
pub mod format;
pub mod fixture;
pub mod frontier;
pub mod report;
pub mod scan;
pub mod sizer;
pub mod tuner;
pub mod utils;
pub mod volume;
pub mod walker;
