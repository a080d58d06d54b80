//! The interface between a parsed command and whatever runs it.

use crate::parser::Process;
use crate::pipeline::Pipe;
use vstd::prelude::*;

verus! {

/// An operation the host program can carry out: running one command, or a
/// pipeline of two. Starting child processes and waiting on them is the
/// host's business, so the library's own descriptors answer with an error;
/// a host that can run commands supplies its own implementation and reports
/// the exit status on success.
pub trait Operation {
    fn exec() -> Result<usize, String>;
}

impl Operation for Process {
    fn exec() -> Result<usize, String> {
        Err("no executor attached".to_owned())
    }
}

impl Operation for Pipe {
    fn exec() -> Result<usize, String> {
        Err("no executor attached".to_owned())
    }
}

} // verus!
