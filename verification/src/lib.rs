//! Routing and conversion rules of the Nature flow engine, with their contracts.
use vstd::prelude::*;

pub mod collections;
pub mod error;
pub mod executor;
pub mod instance;
pub mod meta;
pub mod mock;
pub mod route;
pub mod task;
pub mod converted;

verus! {

} // verus!
