use engine::json::Json;
use engine::ping::{parse_status, 
    frame, handshake, read_status_payload, read_varint_slice, status_length_ok, status_request,
    strip_codes, write_string, write_varint, PingFault,
};

#[test]
fn varint_round_trips() {
    for value in [0, 1, 127, 128, 300, 25565, i32::MAX, -1] {
        let mut buf = Vec::new();
        write_varint(&mut buf, value);
        let mut pos = 0usize;
        assert_eq!(read_varint_slice(&buf, &mut pos).unwrap(), value);
        assert!(pos == buf.len());
    }
}

#[test]
fn varint_encodings_are_exact() {
    let mut buf = Vec::new();
    write_varint(&mut buf, 300);
    assert_eq!(buf, vec![0xac, 0x02]);
    let mut buf = Vec::new();
    write_varint(&mut buf, -1);
    assert_eq!(buf, vec![0xff, 0xff, 0xff, 0xff, 0x0f]);
}

#[test]
fn a_short_or_overlong_varint_is_refused() {
    let mut pos = 0usize;
    assert_eq!(read_varint_slice(&[0x80, 0x80], &mut pos), Err(PingFault::TruncatedVarint));
    assert_eq!(pos, 2);
    let mut pos = 0usize;
    assert_eq!(
        read_varint_slice(&[0xff, 0xff, 0xff, 0xff, 0xff, 0x01], &mut pos),
        Err(PingFault::MalformedVarint)
    );
    assert_eq!(pos, 5);
}

#[test]
fn a_string_is_length_prefixed() {
    let mut buf = Vec::new();
    write_string(&mut buf, "hé");
    assert_eq!(buf, vec![3, b'h', 0xc3, 0xa9]);
}

#[test]
fn the_handshake_names_loopback_and_the_port() {
    let payload = handshake(25565);
    let mut expected = vec![0x00, 0xff, 0xff, 0xff, 0xff, 0x0f, 9];
    expected.extend_from_slice(b"127.0.0.1");
    expected.extend_from_slice(&[0x63, 0xdd, 0x01]);
    assert_eq!(payload, expected);
    assert_eq!(frame(&[1, 2, 3]), vec![3, 1, 2, 3]);
    assert_eq!(status_request(), vec![1, 0]);
}

#[test]
fn a_status_payload_yields_its_text() {
    let mut payload = vec![0x00];
    write_string(&mut payload, "{\"a\":1}");
    assert_eq!(read_status_payload(&payload).unwrap(), "{\"a\":1}");
    assert_eq!(read_status_payload(&[0x01, 0x00]), Err(PingFault::UnexpectedPacket));
    assert_eq!(read_status_payload(&[0x00, 0x05, b'a']), Err(PingFault::Overrun));
    assert!(status_length_ok(0));
    assert!(status_length_ok(262144));
    assert!(!status_length_ok(-1));
    assert!(!status_length_ok(262145));
}

#[test]
fn formatting_codes_are_stripped() {
    assert_eq!(strip_codes("§aA cozy §lserver§"), "A cozy server");
    assert_eq!(strip_codes("plain"), "plain");
}

#[test]
fn status_parses_plain_and_component_motds() {
    let plain = obj(vec![
        ("players", obj(vec![("online", Json::PosInt(3)), ("max", Json::PosInt(20))])),
        ("description", Json::Str("hi".into())),
        ("version", obj(vec![("name", Json::Str("1.21.4".into()))])),
    ]);
    let parsed = parse_status(&plain);
    assert_eq!(parsed.players_online, 3);
    assert_eq!(parsed.players_max, 20);
    assert_eq!(parsed.motd, "hi");
    assert_eq!(parsed.version, "1.21.4");

    let component = obj(vec![(
        "description",
        obj(vec![
            ("text", Json::Str("§aA cozy ".into())),
            ("extra", Json::Array(vec![obj(vec![("text", Json::Str("server".into()))])])),
        ]),
    )]);
    assert_eq!(parse_status(&component).motd, "A cozy server");
}

fn obj(fields: Vec<(&str, Json)>) -> Json {
    Json::Object(fields.into_iter().map(|(k, v)| (k.to_string(), v)).collect())
}
