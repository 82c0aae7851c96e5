//! Requests and responses of a remote process.
use vstd::prelude::*;

verus! {

/// A process to run: the program, the directory to run it in and its
/// arguments.
#[derive(Debug)]
pub struct Run {
    pub target: String,
    pub working_dir: Option<String>,
    pub args: Vec<String>,
}

/// The process description that the device's callers build.
pub type Process = Run;

/// A request concerning a remote process.
#[derive(Debug)]
pub enum Request {
    Run(Run),
    StandardInput(Vec<u8>),
    Terminate,
}

/// What a remote process reports.
#[derive(Debug)]
pub enum Response {
    Terminated(bool),
    StandardOutput(Vec<u8>),
    StandardError(Vec<u8>),
}

} // verus!
