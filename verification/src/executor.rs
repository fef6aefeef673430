//! Executors: how a converter is reached.
use vstd::prelude::*;

verus! {

/// The way a converter is called.
#[derive(Debug, Clone, Copy, PartialEq, Eq, Structural)]
pub enum Protocol {
    LocalRust,
    Http,
    Https,
    /// The engine itself does the conversion.
    Auto,
}

/// A converter: the protocol by which it is called and where it is.
#[derive(Debug, Clone)]
pub struct Executor {
    pub protocol: Protocol,
    pub url: String,
}

} // verus!
