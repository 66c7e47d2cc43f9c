//! The inventory-request message body: a caller-supplied, pre-serialized
//! byte buffer, carried unmodified.

use vstd::prelude::*;

verus! {

/// An inventory-request payload: the inventory count and entries, already
/// laid out by the caller.
#[derive(Clone, Debug)]
pub struct GetData(pub Vec<u8>);

impl PartialEq for GetData {
    /// Equality is by the carried bytes.
    fn eq(&self, other: &GetData) -> (r: bool) {
        let r = self.0 == other.0;
        proof {
            if r {
                assert(self.0@ =~= other.0@);
            }
        }
        r
    }
}

impl vstd::std_specs::cmp::PartialEqSpecImpl for GetData {
    open spec fn obeys_eq_spec() -> bool {
        true
    }

    open spec fn eq_spec(&self, other: &GetData) -> bool {
        self.0@ == other.0@
    }
}

impl Eq for GetData {}

} // verus!
