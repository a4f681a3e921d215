use agent::error::Error;
use agent::packet::handshake::Handshake;
use agent::packet::ping::Ping;
use agent::packet::status_request::StatusRequest;
use agent::packet::status_response::{Modinfo, Players, SamplePlayer, StatusResponse, Version};
use agent::packet::{read_packet, write_packet};
use agent::raw_json_text::{Object, RawJsonText};

fn frame<P: agent::packet::PacketEncoder>(p: &P) -> Vec<u8> {
    let mut out = Vec::new();
    write_packet(p, &mut out);
    out
}

#[test]
fn handshake_round_trip() {
    let h = Handshake {
        version: 767,
        host: String::from("play.example.org"),
        port: 25565,
        next_status: 2,
    };
    let bytes = frame(&h);
    let (back, end): (Handshake, usize) = read_packet(&bytes, 0).unwrap();
    assert_eq!(end, bytes.len());
    assert_eq!(back.version, 767);
    assert_eq!(back.host, "play.example.org");
    assert_eq!(back.port, 25565);
    assert_eq!(back.next_status, 2);
}

#[test]
fn handshake_round_trip_negative_version_and_unicode_host() {
    // A multi-byte host exercises the real UTF-8 encode and decode on the
    // wire; handing bytes through unchanged would not survive it.
    let h = Handshake {
        version: -1,
        host: String::from("мир.example"),
        port: 1,
        next_status: 1,
    };
    let bytes = frame(&h);
    let (back, _): (Handshake, usize) = read_packet(&bytes, 0).unwrap();
    assert_eq!(back.version, -1);
    assert_eq!(back.host, "мир.example");
    assert_eq!(back.next_status, 1);
}

#[test]
fn status_request_round_trip() {
    let bytes = frame(&StatusRequest {});
    assert_eq!(bytes, vec![0x01, 0x00]);
    let (_back, end): (StatusRequest, usize) = read_packet(&bytes, 0).unwrap();
    assert_eq!(end, 2);
}

#[test]
fn ping_round_trip() {
    let p = Ping::new(0x1122_3344_5566_7788);
    let bytes = frame(&p);
    // length 9, id 1, little-endian payload
    assert_eq!(
        bytes,
        vec![0x09, 0x01, 0x88, 0x77, 0x66, 0x55, 0x44, 0x33, 0x22, 0x11]
    );
    let (back, end): (Ping, usize) = read_packet(&bytes, 0).unwrap();
    assert_eq!(back.payload(), 0x1122_3344_5566_7788);
    assert_eq!(end, bytes.len());
}

#[test]
fn wrong_packet_id_is_rejected() {
    let p = Ping::new(5);
    let bytes = frame(&p);
    let r: Result<(StatusRequest, usize), Error> = read_packet(&bytes, 0);
    assert_eq!(r.err(), Some(Error::UnexpectedPacketId));
}

#[test]
fn truncated_frame_is_rejected() {
    let h = Handshake {
        version: 767,
        host: String::from("x"),
        port: 25565,
        next_status: 1,
    };
    let mut bytes = frame(&h);
    bytes.truncate(bytes.len() - 1);
    let r: Result<(Handshake, usize), Error> = read_packet(&bytes, 0);
    assert_eq!(r.err(), Some(Error::Truncated));
}

#[test]
fn invalid_utf8_host_is_rejected() {
    // frame: len 8, id 0, version 0, host length 2, two invalid bytes,
    // port, next state
    let bytes = vec![0x08u8, 0x00, 0x00, 0x02, 0xff, 0xfe, 0x63, 0xdd, 0x01];
    let r: Result<(Handshake, usize), Error> = read_packet(&bytes, 0);
    assert_eq!(r.err(), Some(Error::InvalidUtf8));
}

#[test]
fn status_response_round_trip() {
    let resp = StatusResponse {
        version: Version { name: String::from("Paper 1.21"), protocol: 767 },
        players: Players { max: 100, online: 3, sample: None },
        description: RawJsonText::String(String::from("A \"quoted\" line\nsecond line")),
        favicon: Some(String::from("data:image/png;base64,AAAA")),
        modinfo: None,
    };
    let bytes = frame(&resp);
    let (back, end): (StatusResponse, usize) = read_packet(&bytes, 0).unwrap();
    assert_eq!(end, bytes.len());
    assert_eq!(back.version.name, "Paper 1.21");
    assert_eq!(back.version.protocol, 767);
    assert_eq!(back.players.max, 100);
    assert_eq!(back.players.online, 3);
    assert!(back.players.sample.is_none());
    match &back.description {
        RawJsonText::String(s) => assert_eq!(s, "A \"quoted\" line\nsecond line"),
        RawJsonText::Object(_) => panic!("description must read back as a string"),
    }
    assert_eq!(back.favicon.as_deref(), Some("data:image/png;base64,AAAA"));
    assert!(back.modinfo.is_none());
}

#[test]
fn status_response_object_description_round_trip() {
    let resp = StatusResponse {
        version: Version { name: String::from("srv"), protocol: -1 },
        players: Players { max: 0, online: 0, sample: None },
        description: RawJsonText::Object(Object {
            text: String::from("hello"),
            kind: Some(String::from("text")),
            extra: None,
            color: Some(String::from("red")),
            font: None,
            bold: Some(true),
            italic: Some(false),
            underlined: None,
            strikethrough: None,
            obfuscated: None,
            insertion: Some(String::from("i")),
        }),
        favicon: None,
        modinfo: None,
    };
    let bytes = frame(&resp);
    let (back, _): (StatusResponse, usize) = read_packet(&bytes, 0).unwrap();
    assert_eq!(back.version.protocol, -1);
    match &back.description {
        RawJsonText::Object(o) => {
            assert_eq!(o.text, "hello");
            assert_eq!(o.kind.as_deref(), Some("text"));
            assert!(o.extra.is_none());
            assert_eq!(o.color.as_deref(), Some("red"));
            assert!(o.font.is_none());
            assert_eq!(o.bold, Some(true));
            assert_eq!(o.italic, Some(false));
            assert_eq!(o.underlined, None);
            assert_eq!(o.insertion.as_deref(), Some("i"));
        },
        RawJsonText::String(_) => panic!("description must read back as an object"),
    }
}

#[test]
fn status_response_json_is_valid_json() {
    // Hold the hand-rolled document against an independent parser.
    let resp = StatusResponse {
        version: Version { name: String::from("Mixed \\ name"), protocol: 765 },
        players: Players {
            max: 20,
            online: 2,
            sample: Some(vec![
                SamplePlayer {
                    name: String::from("alice"),
                    id: String::from("00000000-0000-0000-0000-000000000001"),
                },
                SamplePlayer {
                    name: String::from("bob"),
                    id: String::from("00000000-0000-0000-0000-000000000002"),
                },
            ]),
        },
        description: RawJsonText::String(String::from("line\u{1}\twith controls")),
        favicon: None,
        modinfo: Some(Modinfo {
            mod_list: vec![String::from("one"), String::from("two")],
            kind: String::from("FML"),
        }),
    };
    let mut json = Vec::new();
    agent::packet::status_response::write_status_json(&resp, &mut json);
    let text = String::from_utf8(json).expect("the document must be UTF-8");
    let v: serde_json::Value = serde_json::from_str(&text).expect("the document must parse");
    assert_eq!(v["version"]["name"], "Mixed \\ name");
    assert_eq!(v["version"]["protocol"], 765);
    assert_eq!(v["players"]["max"], 20);
    assert_eq!(v["players"]["online"], 2);
    assert_eq!(v["players"]["sample"][1]["name"], "bob");
    assert_eq!(v["description"], "line\u{1}\twith controls");
    assert_eq!(v["modinfo"]["modList"][0], "one");
    assert_eq!(v["modinfo"]["type"], "FML");
    assert!(v.get("favicon").is_none());
}

#[test]
fn one_frame_then_junk_stops_at_the_boundary() {
    let h = Handshake {
        version: 767,
        host: String::from("host"),
        port: 25565,
        next_status: 1,
    };
    let clean = frame(&h);
    let mut bytes = clean.clone();
    bytes.extend_from_slice(&[0xab, 0xcd, 0xef]);
    let (_back, end): (Handshake, usize) = read_packet(&bytes, 0).unwrap();
    assert_eq!(end, clean.len(), "the reader must stop exactly at the frame boundary");
    // On an input that ends at the boundary, the next read signals the end.
    let r: Result<(Handshake, usize), Error> = read_packet(&clean, clean.len());
    assert_eq!(r.err(), Some(Error::UnexpectedEof));
}

#[test]
fn packet_catalogue_writes_the_same_frames() {
    let p = Ping::new(42);
    let direct = frame(&p);
    let mut via_enum = Vec::new();
    agent::packet::Packet::Ping(Ping::new(42)).write(&mut via_enum);
    assert_eq!(via_enum, direct);
}

#[test]
fn text_component_json_matches_an_independent_parser() {
    // The object form writes every field, an absent one as null, and
    // nests values through `extra`.
    let description = RawJsonText::Object(Object {
        text: String::from("head"),
        kind: None,
        extra: Some(vec![
            RawJsonText::String(String::from("tail \"quoted\"")),
            RawJsonText::Object(Object {
                text: String::from("deep"),
                bold: Some(true),
                ..Object::default()
            }),
        ]),
        color: Some(String::from("gold")),
        font: None,
        bold: None,
        italic: None,
        underlined: Some(false),
        strikethrough: None,
        obfuscated: None,
        insertion: None,
    });
    let mut json = Vec::new();
    agent::raw_json_text::write_rjt(&description, &mut json);
    let text = String::from_utf8(json).unwrap();
    let v: serde_json::Value = serde_json::from_str(&text).unwrap();
    assert_eq!(v["text"], "head");
    assert_eq!(v["type"], serde_json::Value::Null);
    assert_eq!(v["extra"][0], "tail \"quoted\"");
    assert_eq!(v["extra"][1]["text"], "deep");
    assert_eq!(v["extra"][1]["bold"], true);
    assert_eq!(v["color"], "gold");
    assert_eq!(v["underlined"], false);
}
