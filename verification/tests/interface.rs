use supervisor::status::{signal_level, wifi_percent};
use supervisor::interface::{Interface, Tab};
use supervisor::shared::{builderbot, drone, pipuck, FrontEndRequest, TrackingUpdate};
use supervisor::status::{BuilderBotStatus, DroneStatus, DuoVeroLink, PiPuckStatus, PixhawkLink, UpCoreLink};

fn drone_descriptor(id: &str, optitrack: Option<i32>) -> drone::Descriptor {
    drone::Descriptor { id: id.to_string(), xbee_macaddr: [0; 6], upcore_macaddr: [1; 6], optitrack_id: optitrack }
}

#[test]
fn drone_status_updates() {
    let mut d = DroneStatus::new(drone_descriptor("d1", None));
    d.update(drone::Update::Battery(80));
    assert!(matches!(d.pixhawk, PixhawkLink::Disconnected));
    d.update(drone::Update::XbeeConnected([10, 0, 0, 5]));
    match &d.pixhawk {
        PixhawkLink::Connected { addr, signal, battery, terminal } => {
            assert_eq!(*addr, [10, 0, 0, 5]);
            assert_eq!(signal, &Err("Unknown".to_string()));
            assert_eq!(battery, &Err("Unknown".to_string()));
            assert!(terminal.is_empty());
        }
        _ => panic!("expected a connection"),
    }
    d.update(drone::Update::Battery(80));
    d.update(drone::Update::Mavlink("nsh> ".to_string()));
    d.update(drone::Update::Mavlink("ls".to_string()));
    match &d.pixhawk {
        PixhawkLink::Connected { battery, terminal, .. } => {
            assert_eq!(battery, &Ok(80));
            assert_eq!(terminal, "nsh> ls");
        }
        _ => panic!("expected a connection"),
    }
    d.update(drone::Update::Bash("ignored".to_string()));
    assert!(matches!(d.upcore, UpCoreLink::Disconnected));
    d.update(drone::Update::PowerState { pixhawk: true, upcore: false });
    assert!(d.pixhawk_power && !d.upcore_power);
    d.update(drone::Update::XbeeDisconnected);
    assert!(matches!(d.pixhawk, PixhawkLink::Disconnected));
}

#[test]
fn camera_frames_are_base64() {
    let mut d = DroneStatus::new(drone_descriptor("d1", None));
    d.update(drone::Update::Camera { camera: "front".to_string(), result: Ok(b"abc".to_vec()) });
    d.update(drone::Update::Camera { camera: "down".to_string(), result: Err("timeout".to_string()) });
    d.update(drone::Update::Camera { camera: "front".to_string(), result: Ok(b"hi".to_vec()) });
    assert_eq!(
        d.camera_stream,
        vec![("front".to_string(), Ok("aGk=".to_string())), ("down".to_string(), Err("timeout".to_string()))]
    );
}

#[test]
fn builderbot_and_pipuck_status() {
    let desc = builderbot::Descriptor { id: "bb".to_string(), duovero_macaddr: [3; 6], optitrack_id: None, apriltag_id: None };
    let mut b = BuilderBotStatus::new(desc);
    b.update(builderbot::Update::FernbedienungConnected([1, 1, 1, 1]));
    b.update(builderbot::Update::FernbedienungSignal(-40));
    b.update(builderbot::Update::Bash("$ ".to_string()));
    match &b.duovero {
        DuoVeroLink::Connected { signal, terminal, battery, .. } => {
            assert_eq!(signal, &Ok(-40));
            assert_eq!(terminal, "$ ");
            assert_eq!(battery, &Err("Unknown".to_string()));
        }
        _ => panic!("expected a connection"),
    }
    let desc = pipuck::Descriptor { id: "p".to_string(), rpi_macaddr: [2; 6], optitrack_id: None, apriltag_id: Some(4) };
    let mut p = PiPuckStatus::new(desc);
    assert_eq!(p.signal, Err("Unknown".to_string()));
    p.update(pipuck::Update::FernbedienungConnection(Some([1, 2, 3, 4])));
    p.update(pipuck::Update::FernbedienungSignal(Ok(-60)));
    assert_eq!(p.connection, Some([1, 2, 3, 4]));
    assert_eq!(p.signal, Ok(-60));
}

#[test]
fn requests_and_answers() {
    let mut ui = Interface::new(false);
    assert_eq!(ui.send_request([1; 16], true), Err("Could not send request: Disconnected".to_string()));
    assert!(ui.pending.is_empty());
    let mut ui = Interface::new(true);
    assert_eq!(ui.active_tab, Tab::Drones);
    ui.set_active_tab(Tab::Experiment);
    assert_eq!(ui.active_tab, Tab::Experiment);
    ui.send_request([1; 16], true).unwrap();
    ui.send_request([2; 16], false).unwrap();
    assert_eq!(ui.pending, vec![[1; 16]]);
    assert!(ui.handle_response([1; 16]));
    assert!(!ui.handle_response([1; 16]));
    assert!(!ui.handle_response([3; 16]));
}

#[test]
fn robots_are_shown_once_and_updated_by_name() {
    let mut ui = Interface::new(true);
    assert!(ui.apply(FrontEndRequest::AddDrone(drone_descriptor("d1", Some(7)))));
    ui.apply(FrontEndRequest::AddDrone(drone_descriptor("d1", Some(8))));
    ui.apply(FrontEndRequest::AddDrone(drone_descriptor("d2", None)));
    assert_eq!(ui.drones.len(), 2);
    assert_eq!(ui.drones[0].descriptor.optitrack_id, Some(7));
    ui.apply(FrontEndRequest::UpdateDrone("d2".to_string(), drone::Update::PowerState { pixhawk: true, upcore: true }));
    ui.apply(FrontEndRequest::UpdateDrone("zz".to_string(), drone::Update::PowerState { pixhawk: true, upcore: true }));
    assert!(!ui.drones[0].pixhawk_power);
    assert!(ui.drones[1].pixhawk_power);
}

#[test]
fn tracking_moves_tracked_robots() {
    let mut ui = Interface::new(true);
    ui.apply(FrontEndRequest::AddDrone(drone_descriptor("d1", Some(7))));
    ui.apply(FrontEndRequest::AddDrone(drone_descriptor("d2", None)));
    let updates = vec![
        TrackingUpdate { id: 7, position: [1, 2, 3], orientation: [0; 4] },
        TrackingUpdate { id: 9, position: [4, 5, 6], orientation: [0; 4] },
        TrackingUpdate { id: 7, position: [7, 8, 9], orientation: [0; 4] },
    ];
    ui.apply(FrontEndRequest::UpdateTrackingSystem(updates));
    assert_eq!(ui.drones[0].optitrack_pos, [7, 8, 9]);
    assert_eq!(ui.drones[1].optitrack_pos, [0, 0, 0]);
}

#[test]
fn a_request_id_is_awaited_once() {
    let mut ui = Interface::new(true);
    ui.send_request([5; 16], true).unwrap();
    ui.send_request([5; 16], true).unwrap();
    assert_eq!(ui.pending.len(), 1);
    assert!(ui.handle_response([5; 16]));
    assert!(!ui.handle_response([5; 16]));
}

#[test]
fn signal_bars() {
    assert_eq!(wifi_percent(-60), 30);
    assert_eq!(signal_level(wifi_percent(-90)), 1);
    assert_eq!(signal_level(24), 1);
    assert_eq!(signal_level(25), 2);
    assert_eq!(signal_level(49), 2);
    assert_eq!(signal_level(74), 3);
    assert_eq!(signal_level(75), 4);
    assert_eq!(signal_level(-5), 4);
}
