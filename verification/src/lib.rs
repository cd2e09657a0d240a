//! Node types of an adaptive radix tree (ART), with verified contracts.

mod lemmas;
pub mod nodes;

use vstd::prelude::*;

verus! {

/// A key that can be stored in the tree: it is looked at as a string of bytes.
pub trait ArtKey {
    /// The bytes of the key, as the tree sees them.
    spec fn key_bytes(&self) -> Seq<u8>;

    /// The bytes of the key.
    fn bytes(&self) -> (r: &[u8])
        ensures
            r@ == self.key_bytes(),
    ;
}

impl ArtKey for Vec<u8> {
    open spec fn key_bytes(&self) -> Seq<u8> {
        self@
    }

    fn bytes(&self) -> (r: &[u8])
        ensures
            r@ == self@,
    {
        self.as_slice()
    }
}

impl<const N: usize> ArtKey for [u8; N] {
    open spec fn key_bytes(&self) -> Seq<u8> {
        self@
    }

    fn bytes(&self) -> (r: &[u8])
        ensures
            r@ == self@,
    {
        self.as_slice()
    }
}

/// A byte vector used as a key is seen as exactly its elements, in order,
/// whatever its length: nothing is dropped, added or reordered.
pub proof fn lemma_vec_key_bytes(key: Vec<u8>)
    ensures
        key.key_bytes().len() == key@.len(),
        forall|i: int| 0 <= i < key@.len() ==> #[trigger] key.key_bytes()[i] == key@[i],
{
}

/// A byte array used as a key is seen as exactly its `N` elements, in order.
pub proof fn lemma_array_key_bytes<const N: usize>(key: [u8; N])
    ensures
        key.key_bytes().len() == N,
        forall|i: int| 0 <= i < N ==> #[trigger] key.key_bytes()[i] == key@[i],
{
}

} // verus!
