//! Whether an experiment runs, and which request about it is still valid.
use vstd::prelude::*;

verus! {

/// A request about the experiment.
#[derive(Debug, PartialEq, Eq, Clone, Copy)]
pub enum Action {
    Start,
    Stop,
}

/// Whether the experiment runs.
#[derive(Debug, PartialEq, Eq, Clone, Copy)]
pub enum State {
    Started,
    Stopped,
}

/// The only request that is valid in a state: a running experiment can be
/// stopped, a stopped one started.
pub open spec fn valid_action(state: State) -> Action {
    match state {
        State::Started => Action::Stop,
        State::Stopped => Action::Start,
    }
}

/// The experiment's state.
#[derive(Debug)]
pub struct Experiment {
    pub state: State,
}

/// What is done with a request.
#[derive(Debug, PartialEq, Eq, Clone, Copy)]
pub enum Decision {
    /// The request no longer fits the state and is ignored.
    Ignore,
    /// Stop: the experiment is stopped at once.
    Stop,
    /// Start: the software is installed on every robot and ARGoS started;
    /// the experiment counts as started once that is done.
    Start,
}

impl Experiment {
    /// An experiment that has not started.
    pub fn new() -> (res: Experiment)
        ensures
            res.state == State::Stopped,
    {
        Experiment { state: State::Stopped }
    }

    /// The requests that are valid now.
    pub fn actions(&self) -> (res: Vec<Action>)
        ensures
            res@ == seq![valid_action(self.state)],
    {
        let mut res: Vec<Action> = Vec::new();
        match self.state {
            State::Started => res.push(Action::Stop),
            State::Stopped => res.push(Action::Start),
        }
        assert(res@ =~= seq![valid_action(self.state)]);
        res
    }

    /// Decides on a request; a stop takes effect at once.
    pub fn decide(&mut self, action: Action) -> (res: Decision)
        ensures
            action != valid_action(old(self).state) ==> res == Decision::Ignore && final(self).state == old(self).state,
            action == valid_action(old(self).state) && action == Action::Stop
                ==> res == Decision::Stop && final(self).state == State::Stopped,
            action == valid_action(old(self).state) && action == Action::Start
                ==> res == Decision::Start && final(self).state == old(self).state,
    {
        match (self.state, action) {
            (State::Started, Action::Stop) => {
                self.state = State::Stopped;
                Decision::Stop
            },
            (State::Stopped, Action::Start) => Decision::Start,
            _ => Decision::Ignore,
        }
    }

    /// Every robot runs its software: the experiment has started.
    pub fn started(&mut self)
        ensures
            final(self).state == State::Started,
    {
        self.state = State::Started;
    }
}

/// A request is only carried out in the state it is valid in: starting
/// twice in a row, or stopping a stopped experiment, is ignored.
pub proof fn lemma_no_double_start(s: State)
    ensures
        valid_action(State::Started) != Action::Start,
        valid_action(State::Stopped) != Action::Stop,
        valid_action(s) != valid_action(if s == State::Started { State::Stopped } else { State::Started }),
{
}

} // verus!
