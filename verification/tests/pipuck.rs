use supervisor::fernbedienung::Error;
use supervisor::pipuck::{ends_actor, Action, CameraOrder, PiPuckActor};

#[test]
fn snapshot_hands_over_kernel_messages_once() {
    let mut actor = PiPuckActor::new([10, 0, 0, 9]);
    actor.kernel_messages_fetched("boot ok".to_string());
    assert!(actor.link_polled(Some(-48)));
    let first = actor.snapshot();
    assert_eq!(first.rpi, ([10, 0, 0, 9], -48));
    assert_eq!(first.kernel_messages.as_deref(), Some("boot ok"));
    assert_eq!(first.actions, vec![Action::RpiHalt, Action::RpiReboot, Action::GetKernelMessages, Action::StartCameraStream]);
    assert!(actor.snapshot().kernel_messages.is_none());
    assert!(!actor.link_polled(None));
}

#[test]
fn camera_stream_life_cycle() {
    let mut actor = PiPuckActor::new([10, 0, 0, 9]);
    assert_eq!(actor.camera(false), CameraOrder::NotStarted);
    assert_eq!(actor.camera(true), CameraOrder::Start);
    assert_eq!(actor.camera(true), CameraOrder::AlreadyStarted);
    assert_eq!(actor.snapshot().actions[3], Action::StopCameraStream);
    assert_eq!(actor.camera(false), CameraOrder::Stop);
    assert!(!actor.camera_ended(&Err(Error::AbnormalTerminationError)));
    assert!(actor.camera_ended(&Err(Error::ResponseError)));
    assert!(!actor.camera_ended(&Ok(())));
    assert!(!actor.camera_running);
    assert!(ends_actor(Action::RpiReboot));
    assert!(!ends_actor(Action::GetKernelMessages));
}
