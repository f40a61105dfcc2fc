//! The payloads of the two request variants.

use vstd::prelude::*;

verus! {

/// Read intent: asks for the hash stored under `key`.
#[derive(Debug, Clone, PartialEq, Eq)]
pub struct Load {
    pub key: String,
}

/// Write intent: asks to store `hash` under `key`.
#[derive(Debug, Clone, PartialEq, Eq)]
pub struct Store {
    pub key: String,
    pub hash: Vec<u8>,
}

impl View for Load {
    type V = Seq<char>;

    /// A load request is its key.
    open spec fn view(&self) -> Seq<char> {
        self.key@
    }
}

impl View for Store {
    type V = (Seq<char>, Seq<u8>);

    /// A store request is its key and the hash to store.
    open spec fn view(&self) -> (Seq<char>, Seq<u8>) {
        (self.key@, self.hash@)
    }
}

} // verus!
