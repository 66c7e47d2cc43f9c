//! The filter-load message body: a caller-supplied, pre-serialized byte
//! buffer, carried unmodified.

use vstd::prelude::*;

verus! {

/// A filter-load payload: the raw bytes of the filter, the hash-function
/// count, the tweak and the flags, already laid out by the caller.
#[derive(Clone, Debug)]
pub struct FilterLoad(pub Vec<u8>);

impl PartialEq for FilterLoad {
    /// Equality is by the carried bytes.
    fn eq(&self, other: &FilterLoad) -> (r: bool) {
        let r = self.0 == other.0;
        proof {
            if r {
                assert(self.0@ =~= other.0@);
            }
        }
        r
    }
}

impl vstd::std_specs::cmp::PartialEqSpecImpl for FilterLoad {
    open spec fn obeys_eq_spec() -> bool {
        true
    }

    open spec fn eq_spec(&self, other: &FilterLoad) -> bool {
        self.0@ == other.0@
    }
}

impl Eq for FilterLoad {}

} // verus!
