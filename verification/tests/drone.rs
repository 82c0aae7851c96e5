use supervisor::drone::{
    argos_args, autonomous_after, bash_input, default_pin_config, initial_pin_modes, power_state, sends_heartbeat,
    start_step, terminal_text, xbee_plan, DroneLinks, LinkRefusal, StartFailure, StartOrder, StartStage, XbeePlan,
};
use supervisor::robot::{TerminalAction, XbeeAction};
use supervisor::shared::drone::Update;
use supervisor::xbee::{Pin, PinMode};

#[test]
fn default_pins() {
    let config = default_pin_config();
    assert_eq!(config.len(), 11);
    assert_eq!(config[0], (Pin::DOUT, PinMode::Alternate));
    assert_eq!(config[8], (Pin::DIO4, PinMode::OutputDefaultLow));
}

#[test]
fn reconnecting_keeps_powered_outputs() {
    let states = vec![(Pin::DIO4, true), (Pin::DIO11, true), (Pin::DIO12, false)];
    let (autonomous, modes) = initial_pin_modes(Some(&states));
    assert!(autonomous);
    assert_eq!(modes.len(), 9);
    assert!(!modes.iter().any(|(p, _)| *p == Pin::DIO4 || *p == Pin::DIO11));
    assert!(modes.contains(&(Pin::DIO12, PinMode::OutputDefaultLow)));
    let (autonomous, modes) = initial_pin_modes(None);
    assert!(!autonomous);
    assert_eq!(modes, default_pin_config());
}

#[test]
fn power_report() {
    assert_eq!(power_state(&vec![(Pin::DIO11, true), (Pin::DIO12, false)]), Some((true, false)));
    assert_eq!(power_state(&vec![(Pin::DIO11, true)]), None);
}

#[test]
fn heartbeats_only_under_manual_control() {
    assert!(sends_heartbeat(false));
    assert!(!sends_heartbeat(true));
}

#[test]
fn xbee_plans() {
    assert!(matches!(
        xbee_plan(&XbeeAction::SetUpCorePower(true), false),
        XbeePlan::WriteOutput { pin: Pin::DIO11, level: true }
    ));
    assert!(matches!(xbee_plan(&XbeeAction::Mavlink(TerminalAction::Start), true), XbeePlan::RefuseAutonomous));
    match xbee_plan(&XbeeAction::Mavlink(TerminalAction::Run("ls".to_string())), false) {
        XbeePlan::SerialControl { data, count } => {
            assert_eq!(data, b"ls\n".to_vec());
            assert_eq!(count, 3);
        }
        _ => panic!("expected a serial control message"),
    }
    assert!(matches!(xbee_plan(&XbeeAction::Mavlink(TerminalAction::Stop), false), XbeePlan::Acknowledge));
    assert!(autonomous_after(&XbeeAction::SetAutonomousMode(true), false, true));
    assert!(!autonomous_after(&XbeeAction::SetAutonomousMode(true), false, false));
    assert!(autonomous_after(&XbeeAction::SetPixhawkPower(false), true, true));
}

#[test]
fn bash_command_ends_with_carriage_return() {
    assert_eq!(bash_input("ls -l"), b"ls -l\r".to_vec());
}

#[test]
fn argos_command_line() {
    let args = argos_args(&"exp.argos".to_string(), Some("10.0.0.1:4950".to_string()), Some("drone1".to_string()), None);
    assert_eq!(args, vec!["--config", "exp.argos", "--router", "10.0.0.1:4950", "--id", "drone1"]);
    let args = argos_args(&"id.argos".to_string(), None, None, Some("/dev/ttyS1:921600".to_string()));
    assert_eq!(args, vec!["--config", "id.argos", "--pixhawk", "/dev/ttyS1:921600"]);
}

#[test]
fn terminal_text_drops_escapes_and_broken_tail() {
    let data = b"\x1b[0mnsh> \xe2\x82".to_vec();
    assert_eq!(terminal_text(&data, 10), "nsh> ");
    assert_eq!(terminal_text(&b"abc".to_vec(), 2), "ab");
}

#[test]
fn links_and_replay() {
    let mut links = DroneLinks::new();
    assert_eq!(links.route_xbee(), Err(LinkRefusal::XbeeNotConnected));
    assert!(matches!(links.associate_xbee([10, 0, 0, 2]), Update::XbeeConnected([10, 0, 0, 2])));
    assert!(matches!(links.associate_fernbedienung([10, 0, 0, 3]), Update::FernbedienungConnected([10, 0, 0, 3])));
    let replay = links.replay();
    assert_eq!(replay.len(), 2);
    assert!(matches!(replay[0], Update::XbeeConnected([10, 0, 0, 2])));
    assert!(matches!(replay[1], Update::FernbedienungConnected([10, 0, 0, 3])));
    assert!(matches!(links.xbee_lost(), Update::XbeeDisconnected));
    assert_eq!(links.replay().len(), 1);
    assert_eq!(links.stop_orders(), (true, false));
    assert_eq!(links.route_fernbedienung(), Ok(()));
    assert!(matches!(links.fernbedienung_lost(), Update::FernbedienungDisconnected));
    assert_eq!(links.route_fernbedienung(), Err(LinkRefusal::FernbedienungNotConnected));
}

#[test]
fn start_sequence_on_a_drone() {
    let mut links = DroneLinks::new();
    assert_eq!(
        start_step(&links, StartStage::Begin, true),
        (StartStage::Begin, StartOrder::Finish(Err(StartFailure::XbeeNotConnected)))
    );
    links.associate_xbee([1, 2, 3, 4]);
    let (stage, order) = start_step(&links, StartStage::Begin, true);
    assert_eq!(order, StartOrder::EnableAutonomousMode);
    assert_eq!(start_step(&links, stage, false).1, StartOrder::Finish(Err(StartFailure::XbeeFailed)));
    assert_eq!(start_step(&links, stage, true).1, StartOrder::Finish(Err(StartFailure::FernbedienungNotConnected)));
    links.associate_fernbedienung([1, 2, 3, 5]);
    let (stage, order) = start_step(&links, stage, true);
    assert_eq!(order, StartOrder::StartArgos);
    assert_eq!(start_step(&links, stage, true).1, StartOrder::Finish(Ok(())));
    assert_eq!(start_step(&links, stage, false).1, StartOrder::Finish(Err(StartFailure::FernbedienungFailed)));
}
