//! The payloads of the two response variants.

use vstd::prelude::*;

verus! {

/// Answer to a load request: the stored hash, or `None` when the key is unknown.
#[derive(Debug, Clone, PartialEq, Eq)]
pub struct Load {
    pub hash: Option<Vec<u8>>,
}

/// Answer to a store request: whether the storage engine accepted the write.
#[derive(Debug, Clone, PartialEq, Eq)]
pub struct Store {
    pub success: bool,
}

impl View for Load {
    type V = Option<Seq<u8>>;

    /// A load response is the hash it carries, if any.
    open spec fn view(&self) -> Option<Seq<u8>> {
        match self.hash {
            Some(hash) => Some(hash@),
            None => None,
        }
    }
}

impl View for Store {
    type V = bool;

    /// A store response is its success flag.
    open spec fn view(&self) -> bool {
        self.success
    }
}

} // verus!
