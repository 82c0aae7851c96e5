//! What the supervisor's web server does with the messages of a user
//! interface: which action a user's request on a drone becomes, and what a
//! newly connected interface is told first.
use vstd::prelude::*;
use crate::robot::{FernbedienungAction, TerminalAction, XbeeAction};
use crate::shared::{drone, pipuck, DownMessage, FrontEndRequest};

verus! {

/// An action for a drone's actor: carried out through its Xbee or through
/// its Up Core's Fernbedienung service.
#[derive(Debug)]
pub enum DroneAction {
    Xbee(XbeeAction),
    Fernbedienung(FernbedienungAction),
}

/// The action that a user's request on a drone becomes: terminals, cameras
/// and the Up Core's power cycle go to the Fernbedienung service; power
/// switches and the MAVLink terminal go to the Xbee.
pub open spec fn drone_action_spec(request: drone::Request) -> DroneAction {
    match request {
        drone::Request::BashTerminalStart => DroneAction::Fernbedienung(FernbedienungAction::Bash(TerminalAction::Start)),
        drone::Request::BashTerminalStop => DroneAction::Fernbedienung(FernbedienungAction::Bash(TerminalAction::Stop)),
        drone::Request::BashTerminalRun(c) => DroneAction::Fernbedienung(FernbedienungAction::Bash(TerminalAction::Run(c))),
        drone::Request::CameraStreamEnable(on) => DroneAction::Fernbedienung(FernbedienungAction::SetCameraStream(on)),
        drone::Request::PixhawkPowerEnable(on) => DroneAction::Xbee(XbeeAction::SetPixhawkPower(on)),
        drone::Request::MavlinkTerminalStart => DroneAction::Xbee(XbeeAction::Mavlink(TerminalAction::Start)),
        drone::Request::MavlinkTerminalStop => DroneAction::Xbee(XbeeAction::Mavlink(TerminalAction::Stop)),
        drone::Request::MavlinkTerminalRun(c) => DroneAction::Xbee(XbeeAction::Mavlink(TerminalAction::Run(c))),
        drone::Request::UpCorePowerEnable(on) => DroneAction::Xbee(XbeeAction::SetUpCorePower(on)),
        drone::Request::UpCoreHalt => DroneAction::Fernbedienung(FernbedienungAction::Halt),
        drone::Request::UpCoreReboot => DroneAction::Fernbedienung(FernbedienungAction::Reboot),
    }
}

/// The two terminals of a drone stay apart: every request on the MAVLink
/// terminal goes to the Pixhawk's MAVLink terminal through the Xbee, and
/// every request on the Bash terminal to the Up Core's shell through the
/// Fernbedienung service, the command unchanged; power switches go through
/// the Xbee and the Up Core's halt and reboot through the Fernbedienung
/// service.
pub proof fn lemma_terminals_kept_apart(command: String, on: bool)
    ensures
        drone_action_spec(drone::Request::MavlinkTerminalStart) == DroneAction::Xbee(XbeeAction::Mavlink(TerminalAction::Start)),
        drone_action_spec(drone::Request::MavlinkTerminalStop) == DroneAction::Xbee(XbeeAction::Mavlink(TerminalAction::Stop)),
        drone_action_spec(drone::Request::MavlinkTerminalRun(command))
            == DroneAction::Xbee(XbeeAction::Mavlink(TerminalAction::Run(command))),
        drone_action_spec(drone::Request::BashTerminalStart)
            == DroneAction::Fernbedienung(FernbedienungAction::Bash(TerminalAction::Start)),
        drone_action_spec(drone::Request::BashTerminalStop)
            == DroneAction::Fernbedienung(FernbedienungAction::Bash(TerminalAction::Stop)),
        drone_action_spec(drone::Request::BashTerminalRun(command))
            == DroneAction::Fernbedienung(FernbedienungAction::Bash(TerminalAction::Run(command))),
        drone_action_spec(drone::Request::UpCorePowerEnable(on)) == DroneAction::Xbee(XbeeAction::SetUpCorePower(on)),
        drone_action_spec(drone::Request::PixhawkPowerEnable(on)) == DroneAction::Xbee(XbeeAction::SetPixhawkPower(on)),
        drone_action_spec(drone::Request::UpCoreHalt) == DroneAction::Fernbedienung(FernbedienungAction::Halt),
        drone_action_spec(drone::Request::UpCoreReboot) == DroneAction::Fernbedienung(FernbedienungAction::Reboot),
{
}

/// Turns a user's request on a drone into the action for its actor.
pub fn drone_action(request: drone::Request) -> (res: DroneAction)
    ensures
        res == drone_action_spec(request),
{
    match request {
        drone::Request::BashTerminalStart => DroneAction::Fernbedienung(FernbedienungAction::Bash(TerminalAction::Start)),
        drone::Request::BashTerminalStop => DroneAction::Fernbedienung(FernbedienungAction::Bash(TerminalAction::Stop)),
        drone::Request::BashTerminalRun(c) => DroneAction::Fernbedienung(FernbedienungAction::Bash(TerminalAction::Run(c))),
        drone::Request::CameraStreamEnable(on) => DroneAction::Fernbedienung(FernbedienungAction::SetCameraStream(on)),
        drone::Request::PixhawkPowerEnable(on) => DroneAction::Xbee(XbeeAction::SetPixhawkPower(on)),
        drone::Request::MavlinkTerminalStart => DroneAction::Xbee(XbeeAction::Mavlink(TerminalAction::Start)),
        drone::Request::MavlinkTerminalStop => DroneAction::Xbee(XbeeAction::Mavlink(TerminalAction::Stop)),
        drone::Request::MavlinkTerminalRun(c) => DroneAction::Xbee(XbeeAction::Mavlink(TerminalAction::Run(c))),
        drone::Request::UpCorePowerEnable(on) => DroneAction::Xbee(XbeeAction::SetUpCorePower(on)),
        drone::Request::UpCoreHalt => DroneAction::Fernbedienung(FernbedienungAction::Halt),
        drone::Request::UpCoreReboot => DroneAction::Fernbedienung(FernbedienungAction::Reboot),
    }
}

/// The first messages to a newly connected interface: one request to show
/// each drone, under the message identifiers `ids`.
pub fn add_drone_messages(descriptors: Vec<drone::Descriptor>, ids: Vec<[u8; 16]>) -> (res: Vec<DownMessage>)
    requires
        ids@.len() == descriptors@.len(),
    ensures
        res@.len() == descriptors@.len(),
        forall|i: int| 0 <= i < res@.len() ==> #[trigger] res@[i]
            == DownMessage::Request(ids@[i], FrontEndRequest::AddDrone(descriptors@[i])),
{
    let mut res: Vec<DownMessage> = Vec::new();
    let mut descriptors = descriptors;
    let mut ids = ids;
    let ghost all_d = descriptors@;
    let ghost all_i = ids@;
    assert(all_d.skip(0) =~= all_d);
    assert(all_i.skip(0) =~= all_i);
    while descriptors.len() > 0
        invariant
            all_d.len() == all_i.len(),
            descriptors@.len() == ids@.len(),
            res@.len() + descriptors@.len() == all_d.len(),
            descriptors@ == all_d.skip(res@.len() as int),
            ids@ == all_i.skip(res@.len() as int),
            forall|k: int| 0 <= k < res@.len() ==> #[trigger] res@[k]
                == DownMessage::Request(all_i[k], FrontEndRequest::AddDrone(all_d[k])),
        decreases descriptors@.len(),
    {
        let d = descriptors.remove(0);
        let id = ids.remove(0);
        res.push(DownMessage::Request(id, FrontEndRequest::AddDrone(d)));
        assert(descriptors@ =~= all_d.skip(res@.len() as int));
        assert(ids@ =~= all_i.skip(res@.len() as int));
    }
    res
}

/// The first messages to a newly connected interface: one request to show
/// each Pi-Puck, under the message identifiers `ids`.
pub fn add_pipuck_messages(descriptors: Vec<pipuck::Descriptor>, ids: Vec<[u8; 16]>) -> (res: Vec<DownMessage>)
    requires
        ids@.len() == descriptors@.len(),
    ensures
        res@.len() == descriptors@.len(),
        forall|i: int| 0 <= i < res@.len() ==> #[trigger] res@[i]
            == DownMessage::Request(ids@[i], FrontEndRequest::AddPiPuck(descriptors@[i])),
{
    let mut res: Vec<DownMessage> = Vec::new();
    let mut descriptors = descriptors;
    let mut ids = ids;
    let ghost all_d = descriptors@;
    let ghost all_i = ids@;
    assert(all_d.skip(0) =~= all_d);
    assert(all_i.skip(0) =~= all_i);
    while descriptors.len() > 0
        invariant
            all_d.len() == all_i.len(),
            descriptors@.len() == ids@.len(),
            res@.len() + descriptors@.len() == all_d.len(),
            descriptors@ == all_d.skip(res@.len() as int),
            ids@ == all_i.skip(res@.len() as int),
            forall|k: int| 0 <= k < res@.len() ==> #[trigger] res@[k]
                == DownMessage::Request(all_i[k], FrontEndRequest::AddPiPuck(all_d[k])),
        decreases descriptors@.len(),
    {
        let d = descriptors.remove(0);
        let id = ids.remove(0);
        res.push(DownMessage::Request(id, FrontEndRequest::AddPiPuck(d)));
        assert(descriptors@ =~= all_d.skip(res@.len() as int));
        assert(ids@ =~= all_i.skip(res@.len() as int));
    }
    res
}

} // verus!
