//! Participant identities.

use vstd::prelude::*;
use crate::bytes::{bytes_eq, copy_bytes};

verus! {

/// The public key of one participant, held as the bytes under which the
/// community knows it. Two identities are the same participant exactly when
/// their bytes agree.
#[derive(Debug, PartialEq, Eq, Hash)]
pub struct Identity {
    pub key: Vec<u8>,
}

impl View for Identity {
    type V = Seq<u8>;

    open spec fn view(&self) -> Seq<u8> {
        self.key@
    }
}

impl Identity {
    /// Wraps the bytes of a public key.
    pub fn new(key: Vec<u8>) -> (id: Identity)
        ensures
            id@ == key@,
    {
        Identity { key }
    }

    /// Copies a public key out of a byte slice.
    pub fn from_bytes(key: &[u8]) -> (id: Identity)
        ensures
            id@ == key@,
    {
        Identity { key: copy_bytes(key) }
    }

    /// The bytes of the public key.
    pub fn as_bytes(&self) -> (key: &[u8])
        ensures
            key@ == self@,
    {
        self.key.as_slice()
    }

    /// Whether both identities name the same participant.
    pub fn same_as(&self, other: &Identity) -> (same: bool)
        ensures
            same == (self@ == other@),
    {
        bytes_eq(self.key.as_slice(), other.key.as_slice())
    }
}

impl Clone for Identity {
    fn clone(&self) -> (copy: Identity)
        ensures
            copy@ == self@,
    {
        Identity { key: copy_bytes(self.key.as_slice()) }
    }
}

} // verus!
