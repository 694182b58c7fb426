//! The encoding of an address, as the signature payload uses it.

use vstd::prelude::*;
use crate::keys::{Address, copy_bytes};

verus! {

/// A contract that hands back the encoding of an address.
pub struct TestContract;

impl TestContract {
    /// The canonical encoding of `addr`.
    pub fn test(addr: &Address) -> (r: Vec<u8>)
        ensures
            r@ == addr@,
    {
        copy_bytes(addr.as_bytes())
    }
}

} // verus!
