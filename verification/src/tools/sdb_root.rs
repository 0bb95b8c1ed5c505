//! The Merkle root of a database.
use vstd::prelude::*;

use crate::adapters::{hex_encode, hex_text};

verus! {

/// A root as text.
pub fn root_text(root: &[u8]) -> (text: String)
    requires
        root@.len() <= usize::MAX / 4,
    ensures
        text@ == hex_text(root@),
{
    hex_encode(root)
}

} // verus!
