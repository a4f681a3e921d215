use agent::client::Client;
use agent::error::Error;
use agent::packet::handshake::Handshake;
use agent::packet::status_request::StatusRequest;
use agent::packet::status_response::{Players, StatusResponse, Version};
use agent::packet::{read_packet, write_packet};
use agent::raw_json_text::RawJsonText;

fn frame<P: agent::packet::PacketEncoder>(p: &P) -> Vec<u8> {
    let mut out = Vec::new();
    write_packet(p, &mut out);
    out
}

#[test]
fn first_status_query_sends_handshake_then_request() {
    let mut client = Client::new("backend.example", 25565);
    let bytes = client.status_query();

    let (h, p1): (Handshake, usize) = read_packet(&bytes, 0).unwrap();
    assert_eq!(h.version, 765);
    assert_eq!(h.host, "backend.example");
    assert_eq!(h.port, 25565);
    assert_eq!(h.next_status, 1);
    let (_req, p2): (StatusRequest, usize) = read_packet(&bytes, p1).unwrap();
    assert_eq!(p2, bytes.len());
}

#[test]
fn later_status_queries_skip_the_handshake() {
    let mut client = Client::new("backend.example", 25565);
    let _first = client.status_query();
    let second = client.status_query();
    assert_eq!(second, frame(&StatusRequest {}));
}

#[test]
fn client_reads_the_online_count_back() {
    let resp = StatusResponse {
        version: Version { name: String::from("srv"), protocol: 765 },
        players: Players { max: 10, online: 4, sample: None },
        description: RawJsonText::String(String::from("up")),
        favicon: None,
        modinfo: None,
    };
    let bytes = frame(&resp);
    let client = Client::new("backend.example", 25565);
    assert_eq!(client.get_online_players_count(&bytes), Ok(4));
}

#[test]
fn client_reports_a_malformed_answer() {
    let client = Client::new("backend.example", 25565);
    // A frame whose payload is not a status document.
    let bytes = vec![0x03u8, 0x00, 0x01, 0x7b];
    assert_eq!(client.get_online_players_count(&bytes), Err(Error::BackendUnreachable));
    // An empty answer.
    let empty: Vec<u8> = Vec::new();
    assert_eq!(client.get_online_players_count(&empty), Err(Error::UnexpectedEof));
}

#[test]
fn raw_text_packet_hands_back_any_body() {
    // The raw reader hands back the frame's text body whatever it holds,
    // stopping exactly at the frame boundary.
    let text = "not a status document at all — любой текст";
    let mut body = Vec::new();
    agent::varint::write_varint(0x00, &mut body);
    agent::varint::write_varint(text.len() as u32, &mut body);
    body.extend_from_slice(text.as_bytes());
    let mut bytes = Vec::new();
    agent::varint::write_varint(body.len() as u32, &mut bytes);
    bytes.extend_from_slice(&body);
    let boundary = bytes.len();
    bytes.extend_from_slice(&[0xaa, 0xbb]);

    let client = Client::new("backend.example", 25565);
    let (back, end) = client.read_text_packet(&bytes, 0).unwrap();
    assert_eq!(back, text);
    assert_eq!(end, boundary);
}

#[test]
fn raw_text_packet_rejects_a_nonzero_id() {
    let mut body = Vec::new();
    agent::varint::write_varint(0x01, &mut body);
    agent::varint::write_varint(0, &mut body);
    let mut bytes = Vec::new();
    agent::varint::write_varint(body.len() as u32, &mut bytes);
    bytes.extend_from_slice(&body);
    let client = Client::new("backend.example", 25565);
    assert_eq!(client.read_text_packet(&bytes, 0).err(), Some(Error::UnexpectedPacketId));
}

#[test]
fn raw_text_packet_rejects_a_short_body() {
    // The body announces four bytes but the frame holds one.
    let bytes = vec![0x03u8, 0x00, 0x04, 0x61];
    let client = Client::new("backend.example", 25565);
    assert_eq!(client.read_text_packet(&bytes, 0).err(), Some(Error::UnexpectedEof));
}
