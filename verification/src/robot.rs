//! The actions that the supervisor asks of a robot's radio (Xbee) and of
//! its on-board computer (Fernbedienung).
use vstd::prelude::*;
use crate::software::Software;

verus! {

/// An action on an interactive terminal.
#[derive(Debug)]
pub enum TerminalAction {
    Start,
    Run(String),
    Stop,
}

/// An action carried out through a drone's Xbee.
#[derive(Debug)]
pub enum XbeeAction {
    SetAutonomousMode(bool),
    SetUpCorePower(bool),
    SetPixhawkPower(bool),
    Mavlink(TerminalAction),
}

/// An action carried out through a robot's Fernbedienung service. Setting
/// up an experiment names the robot and the software; the channel to the
/// experiment's journal travels beside the action.
#[derive(Debug)]
pub enum FernbedienungAction {
    Halt,
    Reboot,
    Bash(TerminalAction),
    SetCameraStream(bool),
    SetupExperiment(String, Software),
    StartExperiment,
    StopExperiment,
    Identify,
}

/// Why the ARGoS life cycle refuses a request.
#[derive(Debug, PartialEq, Eq, Clone, Copy)]
pub enum ArgosRefusal {
    /// Setup was asked while ARGoS is set up or running.
    AlreadySetUpOrRunning,
    /// Identification was asked while ARGoS is set up or running.
    AlreadyRunning,
    /// Start was asked before a setup, or stop on a robot that turns that
    /// down.
    NotSetUp,
}

/// What the actor of a robot is asked about its ARGoS task.
#[derive(Debug, PartialEq, Eq, Clone, Copy)]
pub enum ArgosRequest {
    /// Set up an experiment: ARGoS is prepared and waits for its start.
    Setup,
    /// Run the identification software at once.
    Identify,
    /// Start the experiment that was set up.
    Start,
    /// Stop what is set up or running.
    Stop,
    /// The task has ended on its own.
    Finished,
}

/// What the actor does in answer to an accepted request.
#[derive(Debug, PartialEq, Eq, Clone, Copy)]
pub enum ArgosOrder {
    /// Launch a task, which waits for a start signal where asked to.
    Launch { wait_for_start: bool },
    /// Send the start signal.
    SendStart,
    /// Send the stop signal.
    SendStop,
    /// Nothing to do.
    Nothing,
}

/// The handles that the actor holds on its ARGoS task: a pending start
/// signal (the experiment is set up and waits) and a pending stop signal
/// (a task is set up or running); and whether the robot turns down a stop
/// when nothing is set up (a Pi-Puck does, a drone answers it with
/// success).
#[derive(Debug, PartialEq, Eq, Clone, Copy)]
pub struct ArgosControl {
    pub start_pending: bool,
    pub stop_pending: bool,
    pub refuses_idle_stop: bool,
}

/// The state with these signals pending, of the same kind of robot as `c`.
pub open spec fn with_pending(c: ArgosControl, start_pending: bool, stop_pending: bool) -> ArgosControl {
    ArgosControl { start_pending, stop_pending, refuses_idle_stop: c.refuses_idle_stop }
}

/// The life cycle of ARGoS on a robot, one request at a time: the state
/// that follows and the answer.
pub open spec fn argos_step(c: ArgosControl, r: ArgosRequest) -> (ArgosControl, Result<ArgosOrder, ArgosRefusal>) {
    match r {
        ArgosRequest::Setup => if c.stop_pending {
            (c, Err(ArgosRefusal::AlreadySetUpOrRunning))
        } else {
            (with_pending(c, true, true), Ok(ArgosOrder::Launch { wait_for_start: true }))
        },
        ArgosRequest::Identify => if c.stop_pending {
            (c, Err(ArgosRefusal::AlreadyRunning))
        } else {
            (with_pending(c, false, true), Ok(ArgosOrder::Launch { wait_for_start: false }))
        },
        ArgosRequest::Start => if c.start_pending {
            (with_pending(c, false, c.stop_pending), Ok(ArgosOrder::SendStart))
        } else {
            (c, Err(ArgosRefusal::NotSetUp))
        },
        ArgosRequest::Stop => if c.stop_pending {
            (with_pending(c, c.start_pending, false), Ok(ArgosOrder::SendStop))
        } else if c.refuses_idle_stop {
            (c, Err(ArgosRefusal::NotSetUp))
        } else {
            (c, Ok(ArgosOrder::Nothing))
        },
        ArgosRequest::Finished => (with_pending(c, false, false), Ok(ArgosOrder::Nothing)),
    }
}

impl ArgosControl {
    /// No ARGoS task, on a robot that turns down a stop when nothing is set
    /// up where `refuses_idle_stop` is set.
    pub fn idle(refuses_idle_stop: bool) -> (res: ArgosControl)
        ensures
            !res.start_pending && !res.stop_pending,
            res.refuses_idle_stop == refuses_idle_stop,
    {
        ArgosControl { start_pending: false, stop_pending: false, refuses_idle_stop }
    }

    /// Answers a request and moves to the state that follows it.
    pub fn handle(&mut self, request: ArgosRequest) -> (res: Result<ArgosOrder, ArgosRefusal>)
        ensures
            (*final(self), res) == argos_step(*old(self), request),
    {
        match request {
            ArgosRequest::Setup => if self.stop_pending {
                Err(ArgosRefusal::AlreadySetUpOrRunning)
            } else {
                self.start_pending = true;
                self.stop_pending = true;
                Ok(ArgosOrder::Launch { wait_for_start: true })
            },
            ArgosRequest::Identify => if self.stop_pending {
                Err(ArgosRefusal::AlreadyRunning)
            } else {
                self.start_pending = false;
                self.stop_pending = true;
                Ok(ArgosOrder::Launch { wait_for_start: false })
            },
            ArgosRequest::Start => if self.start_pending {
                self.start_pending = false;
                Ok(ArgosOrder::SendStart)
            } else {
                Err(ArgosRefusal::NotSetUp)
            },
            ArgosRequest::Stop => if self.stop_pending {
                self.stop_pending = false;
                Ok(ArgosOrder::SendStop)
            } else if self.refuses_idle_stop {
                Err(ArgosRefusal::NotSetUp)
            } else {
                Ok(ArgosOrder::Nothing)
            },
            ArgosRequest::Finished => {
                self.start_pending = false;
                self.stop_pending = false;
                Ok(ArgosOrder::Nothing)
            },
        }
    }
}

/// A start signal is only ever held because of a setup: no other request
/// creates one.
pub proof fn lemma_start_only_after_setup(c: ArgosControl, r: ArgosRequest)
    ensures
        argos_step(c, r).0.start_pending ==> (r == ArgosRequest::Setup || c.start_pending),
{
}

/// A setup is accepted exactly when nothing is set up or running.
pub proof fn lemma_setup_accepted(c: ArgosControl)
    ensures
        (argos_step(c, ArgosRequest::Setup).1 is Ok) <==> !c.stop_pending,
{
}

/// Once an experiment is set up, a second setup and an identification are
/// refused, the first start is accepted and a second start refused, and no
/// setup is accepted while the started task runs.
pub proof fn lemma_setup_exclusive(c: ArgosControl)
    requires
        !c.stop_pending,
    ensures
        ({
            let set_up = argos_step(c, ArgosRequest::Setup).0;
            let started = argos_step(set_up, ArgosRequest::Start);
            &&& argos_step(set_up, ArgosRequest::Setup).1 == Err::<ArgosOrder, ArgosRefusal>(ArgosRefusal::AlreadySetUpOrRunning)
            &&& argos_step(set_up, ArgosRequest::Identify).1 == Err::<ArgosOrder, ArgosRefusal>(ArgosRefusal::AlreadyRunning)
            &&& started.1 == Ok::<ArgosOrder, ArgosRefusal>(ArgosOrder::SendStart)
            &&& argos_step(started.0, ArgosRequest::Start).1 == Err::<ArgosOrder, ArgosRefusal>(ArgosRefusal::NotSetUp)
            &&& argos_step(started.0, ArgosRequest::Setup).1 is Err
        }),
{
}

/// Stopping succeeds where a task is set up or running and, with nothing
/// set up, exactly on a robot that does not turn such a stop down; it
/// leaves no task that could be stopped again; once the task has finished,
/// a new setup is accepted.
pub proof fn lemma_stop_then_setup(c: ArgosControl)
    ensures
        argos_step(c, ArgosRequest::Stop).1 is Ok <==> (c.stop_pending || !c.refuses_idle_stop),
        !c.stop_pending && !c.refuses_idle_stop ==> argos_step(c, ArgosRequest::Stop)
            == (c, Ok::<ArgosOrder, ArgosRefusal>(ArgosOrder::Nothing)),
        !argos_step(c, ArgosRequest::Stop).0.stop_pending,
        argos_step(argos_step(c, ArgosRequest::Finished).0, ArgosRequest::Setup).1
            == Ok::<ArgosOrder, ArgosRefusal>(ArgosOrder::Launch { wait_for_start: true }),
{
}

} // verus!
