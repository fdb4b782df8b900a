//! Route configuration: one listening port mapped to one upstream target.

use vstd::prelude::*;

verus! {

/// Single listener entry - each port maps to one target.
#[derive(Debug, Clone)]
pub struct Listener {
    /// Port to listen on
    pub port: u16,
    /// Target upstream URL (e.g., "http://app1:8080")
    pub target: String,
}

/// Listeners configuration.
#[derive(Debug, Clone)]
pub struct Config {
    pub listeners: Vec<Listener>,
}

} // verus!
