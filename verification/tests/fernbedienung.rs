use supervisor::fernbedienung::protocol::{process, ResponseKind};
use supervisor::fernbedienung::{
    decode_output, hostname_process, iw_process, kernel_messages_process, link_strength, mac, mjpg_streamer_process,
    request_result, run_step, snapshot_url, temp_dir_process, Error, Routing, RunStep, Subscriptions,
};

#[test]
fn run_steps() {
    assert!(matches!(run_step(ResponseKind::Success), RunStep::Continue));
    match run_step(ResponseKind::Error("boom".to_string())) {
        RunStep::Finish(Err(Error::RemoteError(m))) => assert_eq!(m, "boom"),
        _ => panic!("expected a remote error"),
    }
    assert!(matches!(run_step(ResponseKind::Process(process::Response::Terminated(true))), RunStep::Finish(Ok(()))));
    assert!(matches!(
        run_step(ResponseKind::Process(process::Response::Terminated(false))),
        RunStep::Finish(Err(Error::AbnormalTerminationError))
    ));
    match run_step(ResponseKind::Process(process::Response::StandardOutput(vec![1, 2]))) {
        RunStep::Stdout(d) => assert_eq!(d, vec![1, 2]),
        _ => panic!("expected output"),
    }
    match run_step(ResponseKind::Process(process::Response::StandardError(vec![3]))) {
        RunStep::Stderr(d) => assert_eq!(d, vec![3]),
        _ => panic!("expected error output"),
    }
}

#[test]
fn single_answer_results() {
    assert_eq!(request_result(false, Some(ResponseKind::Success)), Err(Error::RequestError));
    assert_eq!(request_result(true, Some(ResponseKind::Success)), Ok(()));
    assert_eq!(request_result(true, None), Err(Error::ResponseError));
    assert_eq!(request_result(true, Some(ResponseKind::Error("x".to_string()))), Err(Error::ResponseError));
}

#[test]
fn output_is_trimmed_text() {
    assert_eq!(decode_output(&b"  /tmp/tmp.x1\n".to_vec()).unwrap(), "/tmp/tmp.x1");
    assert_eq!(decode_output(&vec![0xff]).unwrap_err(), Error::DecodeError);
}

#[test]
fn link_strength_from_iw() {
    let out = b"Connected to 00:11:22:33:44:55 (on wlan0)\n\tsignal: -54 dBm\n\ttx bitrate: 65.0 MBit/s\n".to_vec();
    assert_eq!(link_strength(&out), Ok(-54));
    assert_eq!(link_strength(&b"Not connected.".to_vec()), Err(Error::DecodeError));
}

#[test]
fn mac_from_iw() {
    let out = b"Interface wlan0\n\tifindex 3\n\taddr b8:27:eb:12:34:56\n\ttype managed\n".to_vec();
    assert_eq!(mac(&out), Ok([0xb8, 0x27, 0xeb, 0x12, 0x34, 0x56]));
    assert_eq!(mac(&b"Interface wlan0".to_vec()), Err(Error::DecodeError));
}

#[test]
fn programs() {
    let p = hostname_process();
    assert_eq!(p.target, "hostname");
    assert!(p.args.is_empty() && p.working_dir.is_none());
    assert_eq!(temp_dir_process().args, vec!["-d".to_string()]);
    assert_eq!(kernel_messages_process().target, "dmesg");
    assert_eq!(iw_process("link").args, vec!["dev".to_string(), "wlan0".to_string(), "link".to_string()]);
}

#[test]
fn camera_streamer_command_and_url() {
    let p = mjpg_streamer_process("/dev/camera0", 1024, 768, 8000, [192, 168, 1, 7]);
    assert_eq!(p.target, "mjpg_streamer");
    assert_eq!(
        p.args,
        vec![
            "-i".to_string(),
            "input_uvc.so -d /dev/camera0 -r 1024x768 -n".to_string(),
            "-o".to_string(),
            "output_http.so -p 8000 -l 192.168.1.7".to_string(),
        ]
    );
    assert_eq!(snapshot_url([10, 0, 0, 255], 8001), "http://10.0.0.255:8001/?action=snapshot");
}

#[test]
fn responses_reach_waiting_tasks_only() {
    let mut subs = Subscriptions::new();
    let a = [1u8; 16];
    let b = [2u8; 16];
    subs.subscribe(a);
    subs.subscribe(a);
    subs.subscribe(b);
    assert_eq!(subs.ids.len(), 2);
    assert_eq!(subs.route(Some(a)), Routing::Deliver);
    assert_eq!(subs.route(None), Routing::Anonymous);
    subs.finished(a);
    assert_eq!(subs.route(Some(a)), Routing::Unclaimed);
    assert_eq!(subs.route(Some(b)), Routing::Deliver);
}
