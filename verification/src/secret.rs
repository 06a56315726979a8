//! An owned byte buffer for key material. Its storage can be overwritten with
//! zeros in place, and the pipelines promise in their contracts that they do
//! so before returning, on success and on failure alike.

use vstd::prelude::*;

verus! {

/// Owned secret bytes: a password, keyfile contents, or a derived key.
pub struct Secret {
    data: Vec<u8>,
}

impl View for Secret {
    type V = Seq<u8>;

    closed spec fn view(&self) -> Seq<u8> {
        self.data@
    }
}

impl Secret {
    /// Wrap already-acquired bytes.
    pub fn new(data: Vec<u8>) -> (r: Secret)
        ensures
            r@ == data@,
    {
        Secret { data }
    }

    /// Read-only access for the consumers that derive from or feed the key.
    pub fn expose(&self) -> (r: &Vec<u8>)
        ensures
            r@ == self@,
    {
        &self.data
    }

    pub fn len(&self) -> (r: usize)
        ensures
            r == self@.len(),
    {
        self.data.len()
    }

    /// All stored bytes are zero.
    pub open spec fn is_zeroized(&self) -> bool {
        forall|i: int| 0 <= i < self@.len() ==> self@[i] == 0
    }

    /// Overwrite the storage with zeros in place. The length is kept, so a
    /// later release frees only zeroed memory.
    pub fn zeroize(&mut self)
        ensures
            final(self).is_zeroized(),
            final(self)@.len() == old(self)@.len(),
    {
        let n = self.data.len();
        let mut i: usize = 0;
        while i < n
            invariant
                n == self.data.len(),
                i <= n,
                forall|j: int| 0 <= j < i ==> self.data@[j] == 0,
            decreases n - i,
        {
            self.data.set(i, 0);
            i = i + 1;
        }
    }
}

} // verus!
