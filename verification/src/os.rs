//! The operating system that a path is meant for.

use vstd::prelude::*;

verus! {

/// An operating system, as far as path rules tell them apart.
#[derive(Clone, Copy, Debug, PartialEq, Eq, Structural, Hash)]
pub enum Os {
    Dos,
    Windows,
    Mac,
    Linux,
    Other,
}

} // verus!
