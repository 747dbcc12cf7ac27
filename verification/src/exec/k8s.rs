//! Containers, which are not reached yet.

use crate::exec::channel::ExecOutput;
use crate::text;
use vstd::prelude::*;

verus! {

#[derive(Debug)]
pub struct K8sTransport {
    pub namespace: String,
    pub pod: String,
    pub container: String,
}

impl K8sTransport {
    /// Refused: containers are not reached yet.
    pub fn run(&self, _cmd: &str) -> (r: Result<ExecOutput, String>)
        ensures
            r is Err,
            r->Err_0@ == "K8s transport not yet implemented"@,
    {
        Err(text::owned("K8s transport not yet implemented"))
    }

    /// Refused: containers are not reached yet.
    pub fn connect(&self) -> (r: Result<(), String>)
        ensures
            r is Err,
            r->Err_0@ == "K8s transport not yet implemented"@,
    {
        Err(text::owned("K8s transport not yet implemented"))
    }
}

} // verus!
