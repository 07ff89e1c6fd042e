//! Peer identities: the 32 bytes of an Ed25519 public key, and their text.

use vstd::prelude::*;
use crate::text::{hex_lower, hex_string};

verus! {

/// A peer's identity: the bytes of its public key.
#[derive(Clone, Copy, Debug, PartialEq, Eq)]
pub struct PeerId {
    pub bytes: [u8; 32],
}

impl PeerId {
    /// The text a peer id is shown and entered as: 64 lower-case hex digits.
    pub open spec fn text(self) -> Seq<char> {
        hex_lower(self.bytes@)
    }

    /// Renders the id as lower-case hex.
    pub fn to_text(&self) -> (r: String)
        ensures
            r@ == self.text(),
    {
        hex_string(&self.bytes)
    }

    /// Whether two ids are the same key.
    pub fn same(&self, other: &PeerId) -> (r: bool)
        ensures
            r == (self.bytes@ == other.bytes@),
    {
        let mut i: usize = 0;
        while i < 32
            invariant
                i <= 32,
                self.bytes@.len() == 32,
                other.bytes@.len() == 32,
                forall|k: int| 0 <= k < i ==> self.bytes@[k] == other.bytes@[k],
            decreases 32 - i,
        {
            if self.bytes[i] != other.bytes[i] {
                return false;
            }
            i = i + 1;
        }
        assert(self.bytes@ =~= other.bytes@);
        true
    }
}

} // verus!
