//! A verified core for a small task-management service: a four-field task
//! record with a closed status enumeration, canonical hexadecimal record
//! identifiers, an in-memory task store with a unique-identifier invariant,
//! and the request-handling rules that map store outcomes to responses.

use vstd::prelude::*;

pub mod api;
pub mod ident;
pub mod repository;
pub mod task_model;

verus! {

/// Configuration for the service: the port the listener should bind.
pub struct Server {
    port: u16,
}

impl Server {
    /// The port this server was configured with.
    pub closed spec fn spec_port(&self) -> u16 {
        self.port
    }

    pub fn new(port: u16) -> (s: Server)
        ensures
            s.spec_port() == port,
    {
        Server { port }
    }

    pub fn port(&self) -> (p: u16)
        ensures
            p == self.spec_port(),
    {
        self.port
    }
}

} // verus!
