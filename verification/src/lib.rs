//! Staging of a vendored source tree and exact application of unified-diff
//! patches onto the staged copy, with the selection rules of the build that
//! consumes the patched tree.

pub mod allocator;
pub mod apply;
pub mod command;
pub mod config;
pub mod diff;
pub mod engine;
pub mod error;
pub mod laws;
pub mod scan;
pub mod scanner;
pub mod sets;
pub mod stage;
pub mod text;
pub mod words;

pub use allocator::TCMalloc;
