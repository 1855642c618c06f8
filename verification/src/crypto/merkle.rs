//! Hash values as tree nodes.

use vstd::prelude::*;

verus! {

/// A 32-byte hash value.
pub type Hash256 = [u8; 32];

} // verus!
