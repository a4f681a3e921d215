use agent::error::Error;
use agent::packet::handshake::Handshake;
use agent::packet::ping::Ping;
use agent::packet::status_request::StatusRequest;
use agent::packet::status_response::StatusResponse;
use agent::packet::{read_packet, write_packet};
use agent::proxy::{MotdStep, ProxyState, Server as ProxyServer};
use agent::raw_json_text::RawJsonText;
use agent::server::{handle_connection, MotdConfig, Server};

fn frame<P: agent::packet::PacketEncoder>(p: &P) -> Vec<u8> {
    let mut out = Vec::new();
    write_packet(p, &mut out);
    out
}

fn handshake(next_status: i32) -> Vec<u8> {
    frame(&Handshake {
        version: 767,
        host: String::from("x"),
        port: 25565,
        next_status,
    })
}

/// The whole status scenario: handshake, status request, keepalive, and
/// the two answers.
#[test]
fn end_to_end_status_dialogue() {
    let cfg = MotdConfig {
        version_name: String::from("Not Proxying"),
        protocol: 767,
        players_max: 100,
        players_online: 1,
        motd: String::from("maintenance window"),
    };
    let resp = cfg.status_response();
    let reason = agent::packet::disconnect_login::DisconnectLogin {
        reason: RawJsonText::String(String::from("busy")),
    };

    let mut input = handshake(1);
    input.extend_from_slice(&frame(&StatusRequest {}));
    input.extend_from_slice(&frame(&Ping::new(0xfeed_beef)));

    let output = handle_connection(&resp, &reason, &input).expect("the dialogue must succeed");

    let (status, p1): (StatusResponse, usize) = read_packet(&output, 0).unwrap();
    assert_eq!(status.players.online, 1);
    assert_eq!(status.players.max, 100);
    assert_eq!(status.version.name, "Not Proxying");
    assert_eq!(status.version.protocol, 767);
    match &status.description {
        RawJsonText::String(s) => assert_eq!(s, "maintenance window"),
        RawJsonText::Object(_) => panic!("the description is the configured text"),
    }
    let (echo, p2): (Ping, usize) = read_packet(&output, p1).unwrap();
    assert_eq!(echo.payload(), 0xfeed_beef);
    assert_eq!(p2, output.len());
}

#[test]
fn login_intent_gets_the_disconnect_notice() {
    let server = Server::default();
    let input = handshake(2);
    let output = server.serve_connection(&input).unwrap();
    assert_eq!(output, frame(&server.reason));
}

#[test]
fn unknown_intent_is_a_protocol_error_with_no_reply() {
    let server = Server::default();
    let input = handshake(9);
    assert_eq!(server.serve_connection(&input).err(), Some(Error::UnsupportedNextState));
}

#[test]
fn default_responder_answers_the_status_dialogue() {
    let server = Server::default();
    let mut input = handshake(1);
    input.extend_from_slice(&frame(&StatusRequest {}));
    input.extend_from_slice(&frame(&Ping::new(7)));
    let output = server.serve_connection(&input).unwrap();
    let (status, p1): (StatusResponse, usize) = read_packet(&output, 0).unwrap();
    assert_eq!(status.version.name, "Motd Only Server");
    assert_eq!(status.version.protocol, 765);
    assert_eq!(status.players.online, 1);
    let (echo, _): (Ping, usize) = read_packet(&output, p1).unwrap();
    assert_eq!(echo.payload(), 7);
}

#[test]
fn proxy_routes_status_to_the_responder_without_backend_contact() {
    // The proxy is dormant and no backend exists anywhere; a status
    // dialogue must still be answered, from the synthetic metadata alone.
    let mut server = ProxyServer::new("127.0.0.1:25564", "127.0.0.1:25565", "i-none");
    let mut input = handshake(1);
    input.extend_from_slice(&frame(&StatusRequest {}));
    input.extend_from_slice(&frame(&Ping::new(1)));
    match server.handle_motd(&input).unwrap() {
        MotdStep::Respond(out) => {
            let (status, _): (StatusResponse, usize) = read_packet(&out, 0).unwrap();
            assert_eq!(status.version.name, "Not Proxying");
            assert_eq!(status.players.online, 1);
        },
        _ => panic!("a status dialogue is answered directly"),
    }
    assert_eq!(server.controller.state, ProxyState::Dormant);
}

#[test]
fn proxy_login_claims_the_start_and_notices_report_the_outcome() {
    let mut server = ProxyServer::new("127.0.0.1:25564", "127.0.0.1:25565", "i-none");
    match server.handle_motd(&handshake(2)).unwrap() {
        MotdStep::StartRequested => {},
        _ => panic!("a login while dormant claims the start sequence"),
    }
    assert_eq!(server.controller.state, ProxyState::Starting);

    // A second login while starting is turned away with the busy notice.
    match server.handle_motd(&handshake(2)).unwrap() {
        MotdStep::Respond(out) => assert_eq!(out, frame(&server.busy_notice)),
        _ => panic!("a login while starting is turned away"),
    }

    let ok_bytes = server.start_notice(true);
    assert_eq!(ok_bytes, frame(&server.start_ok_notice));
    assert_eq!(server.controller.state, ProxyState::Starting);

    server.controller.on_poll(true);
    assert_eq!(server.controller.state, ProxyState::Proxying);
    match server.handle_motd(&handshake(2)).unwrap() {
        MotdStep::Splice => {},
        _ => panic!("a login while proxying rides the proxy"),
    }
}

#[test]
fn proxy_failed_start_releases_the_claim() {
    let mut server = ProxyServer::new("a", "b", "c");
    server.handle_motd(&handshake(2)).unwrap();
    let bytes = server.start_notice(false);
    assert_eq!(bytes, frame(&server.start_failed_notice));
    assert_eq!(server.controller.state, ProxyState::Dormant);
}
