use supervisor::robots::{pipuck_actions, probe_outcome, reply_confirms, Command, PiPuckAction, ProbeOutcome};

#[test]
fn my_command_packet() {
    let command = Command::new("MY", &[]);
    assert_eq!(command.0, vec![0x42, 0x42, 0, 0, 0, 0, 0x02, 0, 0x01, 0x02, b'M', b'Y']);
    let command = Command::new("D4", &[5]);
    assert_eq!(command.0.len(), 13);
    assert_eq!(command.0[12], 5);
}

#[test]
fn reply_address_check() {
    let mut reply = [0u8; 16];
    reply[12..16].copy_from_slice(&[192, 168, 0, 3]);
    assert!(reply_confirms(&reply, [192, 168, 0, 3]));
    assert!(!reply_confirms(&reply, [192, 168, 0, 4]));
}

#[test]
fn probe_order() {
    assert_eq!(probe_outcome(true, true), ProbeOutcome::Xbee);
    assert_eq!(probe_outcome(false, true), ProbeOutcome::Ssh);
    assert_eq!(probe_outcome(false, false), ProbeOutcome::RetryLater);
    assert_eq!(pipuck_actions(), vec![PiPuckAction::RpiShutdown, PiPuckAction::RpiReboot]);
}
