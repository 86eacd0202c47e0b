//! Soroban addresses, held by their strkey text (`G...` for accounts, `C...`
//! for contracts), which identifies an address uniquely.
use vstd::prelude::*;

use crate::table::{bytes_eq, copy_bytes, KeyEq};

verus! {

/// An account or contract address, as the bytes of its strkey.
pub struct Addr {
    pub strkey: Vec<u8>,
}

impl View for Addr {
    type V = Seq<u8>;

    open spec fn view(&self) -> Seq<u8> {
        self.strkey@
    }
}

impl Addr {
    /// The address whose strkey is `strkey`.
    pub fn from_strkey(strkey: Vec<u8>) -> (a: Addr)
        ensures
            a@ == strkey@,
    {
        Addr { strkey }
    }

    /// A second handle on the same address.
    pub fn copy(&self) -> (a: Addr)
        ensures
            a@ == self@,
    {
        Addr { strkey: copy_bytes(&self.strkey) }
    }
}

impl KeyEq for Addr {
    fn key_eq(&self, other: &Addr) -> (r: bool) {
        bytes_eq(&self.strkey, &other.strkey)
    }
}

/// The view of an optional address.
pub open spec fn opt_addr(a: Option<Addr>) -> Option<Seq<u8>> {
    match a {
        Some(x) => Some(x@),
        None => None,
    }
}

} // verus!
