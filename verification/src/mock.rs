//! A stand-in for the instance table, for tests of code that stores
//! instances.
use vstd::prelude::*;
use crate::error::NatureError;
use crate::instance::Instance;

verus! {

/// An instance table that answers every insert with the result it was set up
/// with.
pub struct MockTableInstance {
    pub insert_value: Result<usize, NatureError>,
}

impl MockTableInstance {
    /// A table that answers inserts with `insert_value`.
    pub fn new(insert_value: Result<usize, NatureError>) -> (r: MockTableInstance)
        ensures
            r.insert_value == insert_value,
    {
        MockTableInstance { insert_value }
    }

    /// Inserting any instance gives the configured result.
    pub fn insert(&self, _instance: &Instance) -> (r: Result<usize, NatureError>)
        ensures
            r == self.insert_value,
    {
        match &self.insert_value {
            Ok(n) => Ok(*n),
            Err(e) => Err(e.duplicate()),
        }
    }
}

} // verus!
