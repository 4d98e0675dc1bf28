//! The environment registry: which workers serve an environment type. It
//! records nothing yet, so it finds no worker.
use vstd::prelude::*;

verus! {

/// Maps environment types to the workers that serve them.
#[derive(Debug)]
pub struct Registry {}

impl Registry {
    /// An empty registry.
    pub fn new() -> (r: Self) {
        Registry {}
    }

    /// Takes note of a worker and its environment types (nothing is kept).
    pub fn register_worker(&mut self, _worker_id: &str, _env_types: &[String])
        ensures
            *final(self) == *old(self),
    {
    }

    /// The workers that serve an environment type: none.
    pub fn find_workers(&self, _env_type: &str) -> (r: Vec<String>)
        ensures
            r@.len() == 0,
    {
        Vec::new()
    }
}

} // verus!
