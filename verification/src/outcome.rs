//! What the system reported of a step that the caller performed.

use vstd::prelude::*;

verus! {

/// The result of one step, as the caller observed it.
///
/// A session asks for one step at a time; the caller performs it and hands
/// back what happened. Which outcomes make sense depends on the step: one
/// that obtains a handle reports `Handle` or a failure, one that resolves a
/// path reports `Path` or a failure, the others report `Done` or a failure.
/// An outcome of the wrong shape counts as a failure of the step, and so
/// does a handle of 0, which is no handle.
#[derive(Debug)]
pub enum Outcome {
    /// The step produced a path.
    Path(String),
    /// The step produced a handle.
    Handle(u64),
    /// The step succeeded and produced nothing.
    Done,
    /// The system refused the step for want of rights.
    Denied,
    /// The step failed for any other reason.
    Failed,
}

impl Outcome {
    /// The handle that the outcome brings, if it brings one.
    pub open spec fn spec_handle(&self) -> Option<u64> {
        match *self {
            Outcome::Handle(handle) => if handle != 0 {
                Some(handle)
            } else {
                None
            },
            _ => None,
        }
    }

    /// The handle that the outcome brings, if it brings one.
    #[verifier::when_used_as_spec(spec_handle)]
    pub fn handle(&self) -> (handle: Option<u64>)
        ensures
            handle == self.spec_handle(),
    {
        match self {
            Outcome::Handle(handle) => if *handle != 0 {
                Some(*handle)
            } else {
                None
            },
            _ => None,
        }
    }
}

} // verus!
