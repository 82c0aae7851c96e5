use supervisor::robot::{FernbedienungAction, TerminalAction, XbeeAction};
use supervisor::shared::{drone, pipuck, DownMessage, FrontEndRequest};
use supervisor::webui::{add_drone_messages, add_pipuck_messages, drone_action, DroneAction};

#[test]
fn drone_requests_become_actions() {
    assert!(matches!(
        drone_action(drone::Request::BashTerminalRun("ls".to_string())),
        DroneAction::Fernbedienung(FernbedienungAction::Bash(TerminalAction::Run(c))) if c == "ls"
    ));
    assert!(matches!(
        drone_action(drone::Request::MavlinkTerminalStart),
        DroneAction::Xbee(XbeeAction::Mavlink(TerminalAction::Start))
    ));
    assert!(matches!(drone_action(drone::Request::UpCorePowerEnable(true)), DroneAction::Xbee(XbeeAction::SetUpCorePower(true))));
    assert!(matches!(drone_action(drone::Request::PixhawkPowerEnable(false)), DroneAction::Xbee(XbeeAction::SetPixhawkPower(false))));
    assert!(matches!(drone_action(drone::Request::CameraStreamEnable(true)), DroneAction::Fernbedienung(FernbedienungAction::SetCameraStream(true))));
    assert!(matches!(drone_action(drone::Request::UpCoreHalt), DroneAction::Fernbedienung(FernbedienungAction::Halt)));
    assert!(matches!(drone_action(drone::Request::UpCoreReboot), DroneAction::Fernbedienung(FernbedienungAction::Reboot)));
}

#[test]
fn new_interface_is_told_every_robot() {
    let d = drone::Descriptor { id: "d1".to_string(), xbee_macaddr: [0; 6], upcore_macaddr: [1; 6], optitrack_id: None };
    let messages = add_drone_messages(vec![d.clone()], vec![[5; 16]]);
    assert_eq!(messages.len(), 1);
    assert!(matches!(&messages[0], DownMessage::Request(id, FrontEndRequest::AddDrone(x)) if *id == [5; 16] && *x == d));
    let p = pipuck::Descriptor { id: "p1".to_string(), rpi_macaddr: [2; 6], optitrack_id: None, apriltag_id: None };
    let q = pipuck::Descriptor { id: "p2".to_string(), rpi_macaddr: [3; 6], optitrack_id: None, apriltag_id: None };
    let messages = add_pipuck_messages(vec![p.clone(), q.clone()], vec![[1; 16], [2; 16]]);
    assert!(matches!(&messages[1], DownMessage::Request(id, FrontEndRequest::AddPiPuck(x)) if *id == [2; 16] && *x == q));
}
