//! What the supervisor and its user interface exchange about the
//! experiment.
use vstd::prelude::*;
use crate::software::Software;

verus! {

/// A request concerning the experiment.
#[derive(Debug)]
pub enum Request {
    Configure { drone_software: Software, pipuck_software: Software },
    Start,
    Stop,
}

/// Whether an experiment runs.
#[derive(Debug, Clone, Copy, PartialEq, Eq)]
pub enum State {
    Standby,
    Active,
}

/// A change of the experiment's state.
#[derive(Debug)]
pub enum Update {
    State(State),
}

} // verus!
