use supervisor::software::Error;
use supervisor::arena::{
    start_next, start_outcome, stop_error, Arena, Association, FernbedienungAssociation, RobotKind, StartDecision,
    StartOutcome, StartPhase,
};
use supervisor::shared::{builderbot, drone, pipuck};
use supervisor::software::Software;

fn drone(id: &str, xbee: u8, upcore: u8) -> drone::Descriptor {
    drone::Descriptor { id: id.to_string(), xbee_macaddr: [0, 0, 0, 0, 0, xbee], upcore_macaddr: [0, 0, 0, 0, 1, upcore], optitrack_id: None }
}

fn pipuck(id: &str, rpi: u8) -> pipuck::Descriptor {
    pipuck::Descriptor { id: id.to_string(), rpi_macaddr: [0, 0, 0, 0, 2, rpi], optitrack_id: None, apriltag_id: None }
}

fn builderbot(id: &str, duovero: u8) -> builderbot::Descriptor {
    builderbot::Descriptor { id: id.to_string(), duovero_macaddr: [0, 0, 0, 0, 3, duovero], optitrack_id: None, apriltag_id: None }
}

fn arena() -> Arena {
    Arena {
        builderbots: vec![builderbot("bb1", 1)],
        drones: vec![drone("d1", 1, 1), drone("d2", 2, 2), drone("d3", 2, 3)],
        pipucks: vec![pipuck("p1", 1), pipuck("p2", 1)],
    }
}

#[test]
fn xbee_association() {
    let a = arena();
    assert_eq!(a.associate_xbee_device([0, 0, 0, 0, 0, 2]), vec![1, 2]);
    assert_eq!(a.xbee_association([0, 0, 0, 0, 0, 1]), Association::One(0));
    assert_eq!(a.xbee_association([0, 0, 0, 0, 0, 2]), Association::Many);
    assert_eq!(a.xbee_association([0, 0, 0, 0, 0, 9]), Association::Unassociated);
}

#[test]
fn fernbedienung_association_order() {
    let a = arena();
    assert_eq!(a.fernbedienung_association([0, 0, 0, 0, 1, 3]), FernbedienungAssociation::Robot(RobotKind::Drone, 2));
    assert_eq!(a.fernbedienung_association([0, 0, 0, 0, 2, 1]), FernbedienungAssociation::Ambiguous(RobotKind::PiPuck));
    assert_eq!(a.fernbedienung_association([0, 0, 0, 0, 3, 1]), FernbedienungAssociation::Robot(RobotKind::BuilderBot, 0));
    assert_eq!(a.fernbedienung_association([9, 9, 9, 9, 9, 9]), FernbedienungAssociation::Unassociated);
}

#[test]
fn actions_go_to_the_named_robot() {
    let a = arena();
    assert_eq!(a.find_drone(&"d2".to_string()), Some(1));
    assert_eq!(a.find_drone(&"p1".to_string()), None);
    assert_eq!(a.find_pipuck(&"p2".to_string()), Some(1));
    assert_eq!(a.find_builderbot(&"bb1".to_string()), Some(0));
}

#[test]
fn software_is_checked_for_kinds_present() {
    let empty = Arena { builderbots: vec![], drones: vec![], pipucks: vec![] };
    assert!(empty.check_software(&Software::new(), &Software::new(), &Software::new()).is_ok());
    let a = arena();
    assert!(a.check_software(&Software::new(), &Software::new(), &Software::new()).is_err());
}

#[test]
fn start_phases_in_order() {
    let mut phase = StartPhase::StartJournal;
    let mut seen = vec![phase];
    loop {
        match start_next(phase, true) {
            StartDecision::Next(next) => {
                seen.push(next);
                phase = next;
            }
            StartDecision::Running => break,
            StartDecision::StopAll => panic!("no step failed"),
        }
    }
    assert_eq!(seen.len(), 8);
    assert_eq!(seen[4], StartPhase::SetupDrones);
    assert_eq!(seen[5], StartPhase::StartPiPucks);
    assert_eq!(start_next(StartPhase::SetupPiPucks, false), StartDecision::StopAll);
}

#[test]
fn failed_start_reports_both_errors() {
    assert!(matches!(start_outcome(Ok(()), Ok(())), StartOutcome::Started));
    match start_outcome(Err("no journal".to_string()), Err("Could not stop: d1".to_string())) {
        StartOutcome::Failed { start_error, stop_error } => {
            assert_eq!(start_error, "no journal");
            assert_eq!(stop_error.as_deref(), Some("Could not stop: d1"));
        }
        _ => panic!("expected a failure"),
    }
}

#[test]
fn stop_error_names_robots() {
    assert_eq!(stop_error(&vec![]), None);
    assert_eq!(stop_error(&vec!["d1".to_string()]), Some("Could not stop: d1".to_string()));
    assert_eq!(stop_error(&vec!["bb1".to_string(), "d2".to_string(), "p1".to_string()]), Some("Could not stop: bb1, d2, p1".to_string()));
}

#[test]
fn software_error_is_that_of_first_failing_kind() {
    let mut two_configs = Software::new();
    two_configs.add("a.argos".to_string(), vec![]);
    two_configs.add("b.argos".to_string(), vec![]);
    let only_drones = Arena { builderbots: vec![], drones: vec![drone("d1", 1, 1)], pipucks: vec![pipuck("p1", 1)] };
    /* the drones' software is checked before the Pi-Pucks' */
    assert!(matches!(
        only_drones.check_software(&Software::new(), &two_configs, &Software::new()),
        Err(Error::MultipleConfigurationFiles)
    ));
    /* the BuilderBots' software is checked first */
    assert!(matches!(
        arena().check_software(&Software::new(), &two_configs, &two_configs),
        Err(Error::MissingConfigurationFile)
    ));
    /* a kind without robots is not checked */
    let no_drones = Arena { builderbots: vec![], drones: vec![], pipucks: vec![pipuck("p1", 1)] };
    assert!(matches!(
        no_drones.check_software(&two_configs, &two_configs, &Software::new()),
        Err(Error::MissingConfigurationFile)
    ));
}
