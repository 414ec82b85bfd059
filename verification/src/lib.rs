//! Canonical forms for save-data path patterns, and a test of whether a
//! canonical path is specific enough to be worth keeping.

pub mod assumed;
pub mod broad;
pub mod normalize;
pub mod os;
pub mod placeholder;
pub mod text;
pub mod usable;

pub use normalize::normalize;
pub use os::Os;
pub use usable::usable;
