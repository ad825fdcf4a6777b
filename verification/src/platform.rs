//! The platforms between which installing differs.

use vstd::prelude::*;

verus! {

/// The platform whose conventions an installation follows.
#[derive(Debug, Clone, Copy, PartialEq, Eq, Structural)]
pub enum Platform {
    /// File modes carry execute bits, and closing a file is cheap.
    Unix,
    /// No execute bits, and closing many files one after another is slow.
    Windows,
}

} // verus!
