use supervisor::router::{decode_lua_table, decode_message, ByteArrayCodec, LuaNumber, LuaType, Peers};

#[test]
fn byte_array_codec_round_trip() {
    let mut codec = ByteArrayCodec { len: None };
    let mut buf = Vec::new();
    codec.encode(&vec![7, 8, 9], &mut buf);
    assert_eq!(buf, vec![0, 0, 0, 3, 7, 8, 9]);
    buf.push(0);
    let frame = codec.decode(&mut buf).unwrap();
    assert_eq!(frame, vec![7, 8, 9]);
    assert_eq!(buf, vec![0]);
    assert!(codec.decode(&mut buf).is_none());
}

#[test]
fn byte_array_codec_waits_for_the_rest() {
    let mut codec = ByteArrayCodec { len: None };
    let mut buf = vec![0, 0, 0, 2, 1];
    assert!(codec.decode(&mut buf).is_none());
    assert_eq!(codec.len, Some(2));
    buf.push(2);
    assert_eq!(codec.decode(&mut buf).unwrap(), vec![1, 2]);
    assert_eq!(codec.len, None);
}

#[test]
fn lua_table_of_number_and_string() {
    // table { [1] = 2.5 (as mantissa and exponent), ["k"] = true }
    let mut table = Vec::new();
    // key: number 1 = 1 * 2^0
    table.push(3u8);
    table.extend_from_slice(&1i64.to_be_bytes());
    table.extend_from_slice(&0i32.to_be_bytes());
    // value: number 5 * 2^-1
    table.push(3);
    table.extend_from_slice(&5i64.to_be_bytes());
    table.extend_from_slice(&(-1i32).to_be_bytes());
    // key: string "k"
    table.push(4);
    table.extend_from_slice(b"k\0");
    // value: boolean true
    table.push(1);
    table.push(1);
    table.push(0);
    let (value, end) = decode_lua_table(&table, 0).unwrap();
    assert_eq!(end, table.len());
    match value {
        LuaType::Table(entries) => {
            assert_eq!(entries.len(), 2);
            assert!(matches!(entries[0].0, LuaType::Number(LuaNumber { mantissa: 1, exponent: 0 })));
            assert!(matches!(entries[0].1, LuaType::Number(LuaNumber { mantissa: 5, exponent: -1 })));
            assert!(matches!(&entries[1].0, LuaType::String(s) if s == "k"));
            assert!(matches!(entries[1].1, LuaType::Boolean(true)));
        }
        other => panic!("unexpected {:?}", other),
    }
    assert!(decode_message(&table).is_some());
}

#[test]
fn lua_truncated_table_is_refused() {
    let table = vec![3u8, 0, 0];
    assert!(decode_lua_table(&table, 0).is_none());
    assert!(decode_message(&table).is_none());
    // a key without a value
    let dangling = vec![1u8, 1];
    assert!(decode_message(&dangling).is_none());
    // an empty message is an empty table
    assert!(matches!(decode_message(&vec![]), Some(LuaType::Table(entries)) if entries.is_empty()));
}

#[test]
fn messages_go_to_every_other_robot() {
    let mut peers = Peers::new();
    let a = ([10, 0, 0, 1], 5000);
    let b = ([10, 0, 0, 2], 5000);
    let c = ([10, 0, 0, 2], 5001);
    peers.join(a);
    peers.join(b);
    peers.join(c);
    peers.join(a);
    assert_eq!(peers.addrs, vec![a, b, c]);
    assert_eq!(peers.recipients(b), vec![a, c]);
    peers.leave(a);
    assert_eq!(peers.recipients(b), vec![c]);
    assert_eq!(peers.recipients(([1, 1, 1, 1], 1)), vec![b, c]);
}
