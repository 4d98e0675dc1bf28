//! Kinds of environment backends. Environment instances run on the workers;
//! the server only names the kinds.
use vstd::prelude::*;

verus! {

/// The kinds of environment backend.
#[derive(Clone, Copy, PartialEq, Eq, Debug, Structural)]
pub enum BackendKind {
    Process,
    Podman,
}

/// An environment backend of some kind.
pub trait Backend {
    fn kind(&self) -> BackendKind;
}

/// The backend that runs environments as processes.
#[derive(Debug)]
pub struct ProcessBackend;

/// The backend that runs environments in Podman containers.
#[derive(Debug)]
pub struct PodmanBackend;

} // verus!
