use supervisor::ssh::{checksum_query, checksums, extract_reply, scp_stream, wrap_command, Error};

#[test]
fn wrapped_command_prints_markers() {
    assert_eq!(wrap_command("hostname"), b"printf \"%b%s%b\" \"\\002\" \"`hostname`\" \"\\003\"\n".to_vec());
}

#[test]
fn reply_between_markers() {
    assert!(extract_reply(&b"garbage".to_vec()).is_none());
    assert!(extract_reply(&b"\x02partial".to_vec()).is_none());
    assert!(extract_reply(&b"\x03\x02late".to_vec()).is_none());
    assert_eq!(extract_reply(&b"echo\x02pipuck\x03\n".to_vec()), Some(Ok("pipuck".to_string())));
    assert_eq!(extract_reply(&b"\x02a\x03b\x03".to_vec()), Some(Ok("a\x03b".to_string())));
    assert_eq!(extract_reply(&vec![2, 0xff, 3]), Some(Err(Error::IoFailure)));
}

#[test]
fn scp_framing() {
    assert_eq!(scp_stream(0o644, "ctrl.lua", &b"abc".to_vec()), b"C0644 3 ctrl.lua\nabc\0".to_vec());
    assert_eq!(scp_stream(0o755, "x", &vec![]), b"C0755 0 x\n\0".to_vec());
}

#[test]
fn checksum_listing() {
    assert_eq!(checksum_query("/tmp/tmp.a"), "find /tmp/tmp.a -type f -exec md5sum '{}' \\;");
    let listing = "d41d8cd98f00b204e9800998ecf8427e  /tmp/a.lua\n0cc175b9c0f1b6a831c399e269772661  /tmp/b.argos\nstray";
    assert_eq!(
        checksums(listing),
        vec![
            ("d41d8cd98f00b204e9800998ecf8427e".to_string(), "/tmp/a.lua".to_string()),
            ("0cc175b9c0f1b6a831c399e269772661".to_string(), "/tmp/b.argos".to_string()),
        ]
    );
}
