//! The decisions of a Pi-Puck's actor: the actions it offers, its camera
//! stream, the kernel messages it fetched, and when it ends.
use vstd::prelude::*;
use crate::fernbedienung::Error as FernbedienungError;

verus! {

/// What can be asked of a Pi-Puck.
#[derive(Debug, PartialEq, Eq, Clone, Copy)]
pub enum Action {
    RpiHalt,
    RpiReboot,
    StartCameraStream,
    StopCameraStream,
    GetKernelMessages,
}

/// What the actor knows of its Pi-Puck.
#[derive(Debug)]
pub struct PiPuckActor {
    /// The address of the Raspberry Pi.
    pub addr: [u8; 4],
    /// The last link strength that was read (-100 before any).
    pub link_strength: i32,
    /// Whether the camera stream runs.
    pub camera_running: bool,
    /// Kernel messages fetched and not yet reported.
    pub kernel_messages: Option<String>,
}

/// What the actor reports of its Pi-Puck.
#[derive(Debug)]
pub struct Snapshot {
    pub rpi: ([u8; 4], i32),
    pub actions: Vec<Action>,
    pub kernel_messages: Option<String>,
}

/// The actions offered: halting, rebooting, fetching the kernel messages,
/// and starting the camera stream, or stopping it while it runs.
pub open spec fn actions_spec(camera_running: bool) -> Seq<Action> {
    seq![
        Action::RpiHalt,
        Action::RpiReboot,
        Action::GetKernelMessages,
        if camera_running { Action::StopCameraStream } else { Action::StartCameraStream },
    ]
}

/// What is done about the camera stream.
#[derive(Debug, PartialEq, Eq, Clone, Copy)]
pub enum CameraOrder {
    /// Start the stream.
    Start,
    /// Tell the stream to stop.
    Stop,
    /// Nothing: the stream runs already (a warning is logged).
    AlreadyStarted,
    /// Nothing: the stream does not run (a warning is logged).
    NotStarted,
}

impl PiPuckActor {
    /// A Pi-Puck just reached: no link strength read yet, no camera stream
    /// and no kernel messages.
    pub fn new(addr: [u8; 4]) -> (res: PiPuckActor)
        ensures
            res.addr == addr,
            res.link_strength == -100,
            !res.camera_running,
            res.kernel_messages is None,
    {
        PiPuckActor { addr, link_strength: -100, camera_running: false, kernel_messages: None }
    }

    /// The report of the Pi-Puck; kernel messages are handed over once.
    pub fn snapshot(&mut self) -> (res: Snapshot)
        ensures
            res.rpi == (old(self).addr, old(self).link_strength),
            res.actions@ == actions_spec(old(self).camera_running),
            res.kernel_messages == old(self).kernel_messages,
            final(self).kernel_messages is None,
            final(self).addr == old(self).addr,
            final(self).link_strength == old(self).link_strength,
            final(self).camera_running == old(self).camera_running,
    {
        let mut actions: Vec<Action> = Vec::new();
        actions.push(Action::RpiHalt);
        actions.push(Action::RpiReboot);
        actions.push(Action::GetKernelMessages);
        actions.push(if self.camera_running { Action::StopCameraStream } else { Action::StartCameraStream });
        let kernel_messages = self.kernel_messages.take();
        assert(actions@ =~= actions_spec(old(self).camera_running));
        Snapshot { rpi: (self.addr, self.link_strength), actions, kernel_messages }
    }

    /// A poll of the link strength ended: a reading is kept and the actor
    /// goes on; a failure ends the actor.
    pub fn link_polled(&mut self, reading: Option<i32>) -> (keep_going: bool)
        ensures
            keep_going == reading is Some,
            reading matches Some(r) ==> final(self).link_strength == r,
            reading is None ==> final(self).link_strength == old(self).link_strength,
            final(self).addr == old(self).addr,
            final(self).camera_running == old(self).camera_running,
            final(self).kernel_messages == old(self).kernel_messages,
    {
        match reading {
            Some(r) => {
                self.link_strength = r;
                true
            },
            None => false,
        }
    }

    /// Asks for the camera stream to start or stop.
    pub fn camera(&mut self, start: bool) -> (res: CameraOrder)
        ensures
            start && !old(self).camera_running ==> res == CameraOrder::Start && final(self).camera_running,
            start && old(self).camera_running ==> res == CameraOrder::AlreadyStarted && final(self).camera_running,
            !start && old(self).camera_running ==> res == CameraOrder::Stop && final(self).camera_running,
            !start && !old(self).camera_running ==> res == CameraOrder::NotStarted && !final(self).camera_running,
            final(self).addr == old(self).addr,
            final(self).link_strength == old(self).link_strength,
            final(self).kernel_messages == old(self).kernel_messages,
    {
        if start {
            if self.camera_running {
                CameraOrder::AlreadyStarted
            } else {
                self.camera_running = true;
                CameraOrder::Start
            }
        } else if self.camera_running {
            CameraOrder::Stop
        } else {
            CameraOrder::NotStarted
        }
    }

    /// The camera stream's task ended; whether its end is reported as an
    /// error: a stream that was terminated (which is how it is stopped) ended
    /// normally.
    pub fn camera_ended(&mut self, result: &Result<(), FernbedienungError>) -> (is_error: bool)
        ensures
            !final(self).camera_running,
            is_error == !(result is Ok || result matches Err(FernbedienungError::AbnormalTerminationError)),
            final(self).addr == old(self).addr,
            final(self).link_strength == old(self).link_strength,
            final(self).kernel_messages == old(self).kernel_messages,
    {
        self.camera_running = false;
        match result {
            Ok(_) => false,
            Err(FernbedienungError::AbnormalTerminationError) => false,
            Err(_) => true,
        }
    }

    /// Kernel messages were fetched; they wait for the next report.
    pub fn kernel_messages_fetched(&mut self, messages: String)
        ensures
            final(self).kernel_messages == Some(messages),
            final(self).addr == old(self).addr,
            final(self).link_strength == old(self).link_strength,
            final(self).camera_running == old(self).camera_running,
    {
        self.kernel_messages = Some(messages);
    }
}

/// Whether carrying out an action ends the actor: halting and rebooting
/// take the Raspberry Pi away.
pub fn ends_actor(action: Action) -> (res: bool)
    ensures
        res <==> (action == Action::RpiHalt || action == Action::RpiReboot),
{
    match action {
        Action::RpiHalt | Action::RpiReboot => true,
        _ => false,
    }
}

} // verus!
