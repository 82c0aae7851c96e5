use supervisor::robot::{ArgosControl, ArgosOrder, ArgosRefusal, ArgosRequest};

#[test]
fn setup_start_stop_cycle() {
    let mut c = ArgosControl::idle(false);
    assert_eq!(c.handle(ArgosRequest::Start), Err(ArgosRefusal::NotSetUp));
    assert_eq!(c.handle(ArgosRequest::Setup), Ok(ArgosOrder::Launch { wait_for_start: true }));
    assert_eq!(c.handle(ArgosRequest::Setup), Err(ArgosRefusal::AlreadySetUpOrRunning));
    assert_eq!(c.handle(ArgosRequest::Identify), Err(ArgosRefusal::AlreadyRunning));
    assert_eq!(c.handle(ArgosRequest::Start), Ok(ArgosOrder::SendStart));
    assert_eq!(c.handle(ArgosRequest::Start), Err(ArgosRefusal::NotSetUp));
    assert_eq!(c.handle(ArgosRequest::Stop), Ok(ArgosOrder::SendStop));
    /* a drone answers a stop with nothing set up with success */
    assert_eq!(c.handle(ArgosRequest::Stop), Ok(ArgosOrder::Nothing));
    assert_eq!(c.handle(ArgosRequest::Finished), Ok(ArgosOrder::Nothing));
    assert_eq!(c, ArgosControl { start_pending: false, stop_pending: false, refuses_idle_stop: false });
}

#[test]
fn identification_starts_at_once() {
    let mut c = ArgosControl::idle(false);
    assert_eq!(c.handle(ArgosRequest::Identify), Ok(ArgosOrder::Launch { wait_for_start: false }));
    assert_eq!(c.handle(ArgosRequest::Start), Err(ArgosRefusal::NotSetUp));
    assert_eq!(c.handle(ArgosRequest::Setup), Err(ArgosRefusal::AlreadySetUpOrRunning));
    c.handle(ArgosRequest::Finished).unwrap();
    assert_eq!(c.handle(ArgosRequest::Setup), Ok(ArgosOrder::Launch { wait_for_start: true }));
}

#[test]
fn pipuck_refuses_stop_without_setup() {
    let mut c = ArgosControl::idle(true);
    assert_eq!(c.handle(ArgosRequest::Stop), Err(ArgosRefusal::NotSetUp));
    assert_eq!(c.handle(ArgosRequest::Setup), Ok(ArgosOrder::Launch { wait_for_start: true }));
    assert_eq!(c.handle(ArgosRequest::Stop), Ok(ArgosOrder::SendStop));
    assert_eq!(c.handle(ArgosRequest::Stop), Err(ArgosRefusal::NotSetUp));
}
