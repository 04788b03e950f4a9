//! Account and contract addresses, held as their Stellar strkey text.
use vstd::prelude::*;

verus! {

/// A Stellar address (an account `G...` or a contract `C...`), held as its
/// strkey text. Two addresses are the same party exactly when their strkeys
/// are equal.
#[derive(Debug, PartialEq, Eq)]
pub struct Address {
    strkey: String,
}

impl View for Address {
    type V = Seq<char>;

    closed spec fn view(&self) -> Seq<char> {
        self.strkey@
    }
}

impl Clone for Address {
    fn clone(&self) -> (copy: Self)
        ensures
            copy == *self,
    {
        Address { strkey: self.strkey.clone() }
    }
}

impl Address {
    /// Wraps a strkey.
    pub fn new(strkey: String) -> (addr: Address)
        ensures
            addr@ == strkey@,
    {
        Address { strkey }
    }

    /// The strkey text of this address.
    pub fn as_str(&self) -> (s: &str)
        ensures
            s@ == self@,
    {
        self.strkey.as_str()
    }

    /// Whether `self` and `other` name the same party.
    pub fn same_as(&self, other: &Address) -> (same: bool)
        ensures
            same == (self@ == other@),
    {
        self.strkey == other.strkey
    }
}

} // verus!
