use agent::client::Client;
use agent::error::Error;
use agent::packet::status_response::{Modinfo, Players, SamplePlayer, StatusResponse, Version};
use agent::packet::{read_packet, write_packet};
use agent::raw_json_text::{Object, RawJsonText};
use agent::varint::write_varint;

/// Frames a raw JSON document the way a backend answers a status request.
fn frame_json(text: &str) -> Vec<u8> {
    let mut body = Vec::new();
    write_varint(0x00, &mut body);
    write_varint(text.len() as u32, &mut body);
    body.extend_from_slice(text.as_bytes());
    let mut out = Vec::new();
    write_varint(body.len() as u32, &mut out);
    out.extend_from_slice(&body);
    out
}

#[test]
fn foreign_layout_is_read() {
    // Another server's document: whitespace, its own key order, unknown
    // members, a sample, and a description object carrying nested values.
    let text = r#" {
        "description": { "extra": [ {"text": "!"} ], "text": "welcome" },
        "enforcesSecureChat": true,
        "players": { "online": 3, "max": 10,
            "sample": [ { "id": "u-1", "name": "alice" } ] },
        "version": { "protocol": 767, "name": "Paper 1.21" },
        "favicon": "data:,x",
        "preventsChatReports": false
    } "#;
    let bytes = frame_json(text);
    let client = Client::new("backend.example", 25565);
    let resp = client.read_status(&bytes).expect("a schema-shaped document must be read");
    assert_eq!(resp.version.name, "Paper 1.21");
    assert_eq!(resp.version.protocol, 767);
    assert_eq!(resp.players.max, 10);
    assert_eq!(resp.players.online, 3);
    let sample = resp.players.sample.as_ref().unwrap();
    assert_eq!(sample.len(), 1);
    assert_eq!(sample[0].name, "alice");
    assert_eq!(sample[0].id, "u-1");
    match &resp.description {
        RawJsonText::Object(o) => {
            assert_eq!(o.text, "welcome");
            // A nested list of components is skipped, not taken back.
            assert!(o.extra.is_none());
        },
        RawJsonText::String(_) => panic!("the description is an object here"),
    }
    assert_eq!(resp.favicon.as_deref(), Some("data:,x"));
    assert_eq!(client.get_online_players_count(&bytes), Ok(3));
}

#[test]
fn foreign_layout_with_numbers_and_nulls() {
    let text = r#"{"version":{"name":"srv","protocol":-1,"build":42},
        "players":{"max":0,"online":0,"sample":null},
        "description":"plain",
        "modinfo":{"type":"FML","modList":["one","two"],"extra":3.5e2}}"#;
    let bytes = frame_json(text);
    let client = Client::new("backend.example", 25565);
    let resp = client.read_status(&bytes).unwrap();
    assert_eq!(resp.version.protocol, -1);
    assert!(resp.players.sample.is_none());
    let modinfo = resp.modinfo.as_ref().unwrap();
    assert_eq!(modinfo.kind, "FML");
    assert_eq!(modinfo.mod_list, vec![String::from("one"), String::from("two")]);
}

#[test]
fn missing_required_members_are_rejected() {
    let client = Client::new("backend.example", 25565);
    for text in ["{}", r#"{"version":{"name":"x","protocol":1}}"#, r#"{"players":{}}"#] {
        let bytes = frame_json(text);
        assert_eq!(client.read_status(&bytes).err(), Some(Error::BackendUnreachable));
    }
}

#[test]
fn own_output_with_sample_and_modinfo_reads_back() {
    let resp = StatusResponse {
        version: Version { name: String::from("srv"), protocol: 767 },
        players: Players {
            max: 20,
            online: 2,
            sample: Some(vec![
                SamplePlayer { name: String::from("alice"), id: String::from("u-1") },
                SamplePlayer { name: String::from("bob"), id: String::from("u-2") },
            ]),
        },
        description: RawJsonText::Object(Object {
            text: String::from("hi"),
            bold: Some(true),
            ..Object::default()
        }),
        favicon: Some(String::from("data:,y")),
        modinfo: Some(Modinfo {
            mod_list: vec![String::from("one")],
            kind: String::from("FML"),
        }),
    };
    let mut bytes = Vec::new();
    write_packet(&resp, &mut bytes);
    let (back, end): (StatusResponse, usize) = read_packet(&bytes, 0).unwrap();
    assert_eq!(end, bytes.len());
    assert_eq!(back.version.name, "srv");
    let sample = back.players.sample.as_ref().unwrap();
    assert_eq!(sample.len(), 2);
    assert_eq!(sample[1].name, "bob");
    assert_eq!(sample[1].id, "u-2");
    match &back.description {
        RawJsonText::Object(o) => {
            assert_eq!(o.text, "hi");
            assert_eq!(o.bold, Some(true));
        },
        RawJsonText::String(_) => panic!("the description is an object here"),
    }
    assert_eq!(back.favicon.as_deref(), Some("data:,y"));
    let modinfo = back.modinfo.as_ref().unwrap();
    assert_eq!(modinfo.kind, "FML");
    assert_eq!(modinfo.mod_list, vec![String::from("one")]);
}
