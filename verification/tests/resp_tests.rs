use taskmanager::resp::{build_command, resend_after, Decoded, RespError, RespValue};

fn decode_all(bytes: &[u8]) -> Decoded {
    RespValue::decode(bytes, true)
}

#[test]
fn encode_simple_string() {
    let v = RespValue::SimpleString("OK".to_string());
    assert_eq!(v.encode(), b"+OK\r\n".to_vec());
}

#[test]
fn encode_error_integer_and_nulls() {
    assert_eq!(RespValue::Error("ERR bad".to_string()).encode(), b"-ERR bad\r\n".to_vec());
    assert_eq!(RespValue::Integer(-42).encode(), b":-42\r\n".to_vec());
    assert_eq!(RespValue::Integer(i64::MIN).encode(), b":-9223372036854775808\r\n".to_vec());
    assert_eq!(RespValue::BulkString(None).encode(), b"$-1\r\n".to_vec());
    assert_eq!(RespValue::Array(None).encode(), b"*-1\r\n".to_vec());
}

#[test]
fn encode_bulk_and_array() {
    let v = RespValue::Array(Some(vec![
        RespValue::BulkString(Some(b"hello".to_vec())),
        RespValue::Integer(7),
    ]));
    assert_eq!(v.encode(), b"*2\r\n$5\r\nhello\r\n:7\r\n".to_vec());
}

#[test]
fn build_command_is_array_of_bulk_strings() {
    assert_eq!(
        build_command(&["SET", "key", "value"]),
        b"*3\r\n$3\r\nSET\r\n$3\r\nkey\r\n$5\r\nvalue\r\n".to_vec()
    );
    let same = RespValue::Array(Some(vec![
        RespValue::BulkString(Some(b"GET".to_vec())),
        RespValue::BulkString(Some(b"k".to_vec())),
    ]));
    assert_eq!(build_command(&["GET", "k"]), same.encode());
}

#[test]
fn decode_simple_values() {
    match decode_all(b"+PONG\r\n") {
        Decoded::Complete(RespValue::SimpleString(s), 7) => assert_eq!(s, "PONG"),
        other => panic!("unexpected {:?}", matches!(other, Decoded::NeedMore)),
    }
    match decode_all(b":1000\r\n") {
        Decoded::Complete(RespValue::Integer(1000), 7) => {}
        _ => panic!("integer"),
    }
    match decode_all(b"-ERR unknown\n") {
        Decoded::Complete(RespValue::Error(e), 13) => assert_eq!(e, "ERR unknown"),
        _ => panic!("error"),
    }
}

#[test]
fn decode_bulk_and_nested_array() {
    match decode_all(b"*2\r\n$3\r\nfoo\r\n*1\r\n:5\r\nTAIL") {
        Decoded::Complete(RespValue::Array(Some(items)), n) => {
            assert_eq!(n, 21);
            assert_eq!(items.len(), 2);
            assert!(matches!(&items[0], RespValue::BulkString(Some(d)) if d == b"foo"));
            match &items[1] {
                RespValue::Array(Some(inner)) => assert!(matches!(inner[0], RespValue::Integer(5))),
                _ => panic!("inner array"),
            }
        }
        _ => panic!("array"),
    }
    assert!(matches!(decode_all(b"$-1\r\n"), Decoded::Complete(RespValue::BulkString(None), 5)));
    assert!(matches!(decode_all(b"*-1\r\n"), Decoded::Complete(RespValue::Array(None), 5)));
}

fn protocol_error(d: Decoded) -> String {
    match d {
        Decoded::Failed(RespError::Protocol(m)) => m,
        _ => panic!("expected a protocol error"),
    }
}

#[test]
fn decode_errors() {
    assert_eq!(protocol_error(decode_all(b"")), "Connection closed");
    assert_eq!(protocol_error(decode_all(b"\r\n")), "Empty response line");
    assert_eq!(protocol_error(decode_all(b":12a\r\n")), "Invalid integer: 12a");
    assert_eq!(protocol_error(decode_all(b"$x\r\n")), "Invalid bulk length: x");
    assert_eq!(protocol_error(decode_all(b"*\r\n")), "Invalid array count: ");
    assert_eq!(protocol_error(decode_all(b"?\r\n")), "Unknown RESP prefix byte: 0x3F");
    match decode_all(b"$10\r\nabc") {
        Decoded::Failed(RespError::Io(m)) => assert_eq!(m, "early eof"),
        _ => panic!("short bulk"),
    }
    match decode_all(b"+\xff\r\n") {
        Decoded::Failed(RespError::Io(m)) => assert!(m.contains("utf-8")),
        _ => panic!("invalid utf-8"),
    }
    assert!(matches!(decode_all("é\r\n".as_bytes()), Decoded::PrefixNotAscii));
}

#[test]
fn decode_waits_for_more_bytes() {
    assert!(matches!(RespValue::decode(b"+PON", false), Decoded::NeedMore));
    assert!(matches!(RespValue::decode(b"$5\r\nhel", false), Decoded::NeedMore));
    assert!(matches!(RespValue::decode(b"*2\r\n:1\r\n", false), Decoded::NeedMore));
    // the same bytes at the end of the connection are read as they stand
    assert!(matches!(RespValue::decode(b"+PON", true), Decoded::Complete(_, 4)));
}

#[test]
fn decode_reads_back_encode() {
    let v = RespValue::Array(Some(vec![
        RespValue::SimpleString("a b".to_string()),
        RespValue::Error("ERR x".to_string()),
        RespValue::Integer(-3),
        RespValue::BulkString(Some(vec![0, 13, 10, 255])),
        RespValue::BulkString(None),
        RespValue::Array(None),
    ]));
    let mut bytes = v.encode();
    let len = bytes.len();
    bytes.extend_from_slice(b"+next\r\n");
    match RespValue::decode(&bytes, false) {
        Decoded::Complete(back, n) => {
            assert_eq!(n, len);
            assert_eq!(back.encode(), v.encode());
        }
        _ => panic!("round trip"),
    }
}

#[test]
fn accessors() {
    assert_eq!(RespValue::SimpleString("x".into()).as_string(), Some("x".to_string()));
    assert_eq!(RespValue::BulkString(Some(b"yz".to_vec())).as_string(), Some("yz".to_string()));
    assert_eq!(RespValue::BulkString(Some(vec![0xff])).as_string(), None);
    assert_eq!(RespValue::Integer(3).as_string(), None);
    assert_eq!(RespValue::Integer(3).as_integer(), Some(3));
    assert_eq!(RespValue::Error("e".into()).as_integer(), None);
    assert!(RespValue::Array(Some(vec![])).as_array().is_some());
    assert!(RespValue::Array(None).as_array().is_none());
    assert!(RespValue::BulkString(None).is_null());
    assert!(RespValue::Array(None).is_null());
    assert!(!RespValue::SimpleString(String::new()).is_null());
}

#[test]
fn error_texts() {
    assert_eq!(RespError::Io("early eof".into()).to_string(), "IO error: early eof");
    assert_eq!(RespError::Protocol("p".into()).to_string(), "Protocol error: p");
    assert_eq!(RespError::Redis("r".into()).to_string(), "Redis error: r");
    assert_eq!(RespError::Config("c".into()).to_string(), "Config error: c");
    assert!(RespError::Io(String::new()).is_io());
    assert!(!RespError::Redis(String::new()).is_io());
}

#[test]
fn clone_keeps_the_value() {
    let v = RespValue::Array(Some(vec![
        RespValue::BulkString(Some(b"x".to_vec())),
        RespValue::Array(Some(vec![RespValue::Integer(2)])),
    ]));
    assert_eq!(v.clone().encode(), v.encode());
}

#[test]
fn command_reads_back_as_its_arguments() {
    let bytes = build_command(&["LRANGE", "k", "0", "-1"]);
    match RespValue::decode(&bytes, true) {
        Decoded::Complete(RespValue::Array(Some(items)), n) => {
            assert_eq!(n, bytes.len());
            let words: Vec<String> = items.iter().filter_map(|v| v.as_string()).collect();
            assert_eq!(words, vec!["LRANGE", "k", "0", "-1"]);
        }
        _ => panic!("command"),
    }
}

#[test]
fn decided_prefix_stays_decided() {
    let prefix = b"$3\r\nabc\r\n";
    let mut longer = prefix.to_vec();
    longer.extend_from_slice(b":9\r\n+more");
    match (RespValue::decode(prefix, false), RespValue::decode(&longer, true)) {
        (Decoded::Complete(a, n), Decoded::Complete(b, m)) => {
            assert_eq!(n, m);
            assert_eq!(a.encode(), b.encode());
        }
        _ => panic!("decided"),
    }
    let bad = b"?oops\r\n";
    let mut more = bad.to_vec();
    more.extend_from_slice(b"+OK\r\n");
    assert!(matches!(RespValue::decode(&more, false), Decoded::Failed(RespError::Protocol(_))));
}

#[test]
fn resend_only_after_a_connection_error() {
    assert!(resend_after(&Err(RespError::Io("broken pipe".into()))));
    assert!(!resend_after(&Err(RespError::Redis("ERR".into()))));
    assert!(!resend_after(&Ok(RespValue::Integer(1))));
    let mut buf = b"x".to_vec();
    RespValue::Integer(5).encode_into(&mut buf);
    assert_eq!(buf, b"x:5\r\n".to_vec());
}
