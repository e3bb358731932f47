//! The records the store holds.
use vstd::prelude::*;

verus! {

/// One stored record: a numeric id and an opaque byte payload.
#[derive(Clone, Debug, PartialEq, Eq)]
pub struct Record {
    pub id: u64,
    pub payload: Vec<u8>,
}

} // verus!
