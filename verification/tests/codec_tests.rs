use proximity_bridge::codec::{decode_line, encode_message, remove_end_newline};
use proximity_bridge::message::{BridgeMessage, DecodeError};
use proximity_bridge::position::Position;

fn decode_ok(line: &str) -> BridgeMessage {
    decode_line(line).expect("line should decode").expect("tag should be recognised")
}

fn round_trip(m: &BridgeMessage) -> BridgeMessage {
    let line = encode_message(m);
    decode_ok(line.as_str())
}

#[test]
fn encode_server_config_exact() {
    let m = BridgeMessage::ServerConfig { max_hearing_distance: 100 };
    assert_eq!(
        encode_message(&m),
        "{\"state\":\"serverConfig\",\"maxHearingDistance\":100}\r\n"
    );
}

#[test]
fn encode_end_exact() {
    assert_eq!(encode_message(&BridgeMessage::End), "{\"state\":\"end\"}\r\n");
}

#[test]
fn encode_create_lobby_result_exact() {
    let m = BridgeMessage::CreateLobbyResult { id: 42, secret: "s3cr3t".to_string() };
    assert_eq!(
        encode_message(&m),
        "{\"state\":\"createLobby\",\"id\":42,\"secret\":\"s3cr3t\"}\r\n"
    );
}

#[test]
fn encode_user_info_exact() {
    let m = BridgeMessage::DiscordUserInfo {
        id: -7,
        username: "player".to_string(),
        discriminator: "0042".to_string(),
    };
    assert_eq!(
        encode_message(&m),
        "{\"state\":\"discordUserInfo\",\"id\":-7,\"username\":\"player\",\"discriminator\":\"0042\"}\r\n"
    );
}

#[test]
fn encode_positions_exact() {
    let m = BridgeMessage::PlayerPositionsReport {
        positions: vec![
            (1, Position { world: "world".to_string(), x: 0, y: 64, z: 0 }),
            (2, Position { world: "nether".to_string(), x: -3, y: 70, z: 9 }),
        ],
    };
    assert_eq!(
        encode_message(&m),
        "{\"state\":\"sendPlayersPosition\",\"positions\":{\"1\":{\"world\":\"world\",\"x\":0,\"y\":64,\"z\":0},\"2\":{\"world\":\"nether\",\"x\":-3,\"y\":70,\"z\":9}}}\r\n"
    );
}

#[test]
fn round_trip_server_config() {
    let back = round_trip(&BridgeMessage::ServerConfig { max_hearing_distance: 77 });
    match back {
        BridgeMessage::ServerConfig { max_hearing_distance } => {
            assert_eq!(max_hearing_distance, 77)
        }
        _ => panic!("wrong tag"),
    }
}

#[test]
fn round_trip_create_lobby_request() {
    let back = round_trip(&BridgeMessage::CreateLobbyRequest);
    assert!(matches!(back, BridgeMessage::CreateLobbyRequest));
}

#[test]
fn round_trip_create_lobby_result() {
    let back = round_trip(&BridgeMessage::CreateLobbyResult {
        id: 123456789,
        secret: "abcDEF".to_string(),
    });
    match back {
        BridgeMessage::CreateLobbyResult { id, secret } => {
            assert_eq!(id, 123456789);
            assert_eq!(secret, "abcDEF");
        }
        _ => panic!("wrong tag"),
    }
}

#[test]
fn round_trip_connect_lobby_request() {
    let back = round_trip(&BridgeMessage::ConnectLobbyRequest {
        id: -31,
        secret: "key".to_string(),
    });
    match back {
        BridgeMessage::ConnectLobbyRequest { id, secret } => {
            assert_eq!(id, -31);
            assert_eq!(secret, "key");
        }
        _ => panic!("wrong tag"),
    }
}

#[test]
fn round_trip_link_code() {
    let back = round_trip(&BridgeMessage::LinkCode { code: 18446744073709551615 });
    match back {
        BridgeMessage::LinkCode { code } => assert_eq!(code, u64::MAX),
        _ => panic!("wrong tag"),
    }
}

#[test]
fn round_trip_user_info() {
    let back = round_trip(&BridgeMessage::DiscordUserInfo {
        id: 9_007_199_254_740_993,
        username: "someone".to_string(),
        discriminator: "0001".to_string(),
    });
    match back {
        BridgeMessage::DiscordUserInfo { id, username, discriminator } => {
            assert_eq!(id, 9_007_199_254_740_993);
            assert_eq!(username, "someone");
            assert_eq!(discriminator, "0001");
        }
        _ => panic!("wrong tag"),
    }
}

#[test]
fn round_trip_end() {
    let back = round_trip(&BridgeMessage::End);
    assert!(matches!(back, BridgeMessage::End));
}

#[test]
fn round_trip_positions() {
    let back = round_trip(&BridgeMessage::PlayerPositionsReport {
        positions: vec![
            (1, Position { world: "world".to_string(), x: 0, y: 0, z: 0 }),
            (2, Position { world: "world".to_string(), x: 50, y: 0, z: 0 }),
            (3, Position { world: "nether".to_string(), x: -12, y: 60, z: 2147483647 }),
        ],
    });
    match back {
        BridgeMessage::PlayerPositionsReport { positions } => {
            assert_eq!(positions.len(), 3);
            assert_eq!(positions[0].0, 1);
            assert_eq!(positions[0].1.world, "world");
            assert_eq!((positions[0].1.x, positions[0].1.y, positions[0].1.z), (0, 0, 0));
            assert_eq!(positions[1].0, 2);
            assert_eq!((positions[1].1.x, positions[1].1.y, positions[1].1.z), (50, 0, 0));
            assert_eq!(positions[2].0, 3);
            assert_eq!(positions[2].1.world, "nether");
            assert_eq!(
                (positions[2].1.x, positions[2].1.y, positions[2].1.z),
                (-12, 60, 2147483647)
            );
        }
        _ => panic!("wrong tag"),
    }
}

#[test]
fn malformed_positions_report_is_an_error() {
    // a positions report without its positions field is refused, not a crash
    let r = decode_line("{\"state\":\"sendPlayersPosition\"}");
    assert_eq!(r.unwrap_err(), DecodeError::MissingField);
}

#[test]
fn invalid_json_is_an_error() {
    let r = decode_line("not json at all");
    assert_eq!(r.unwrap_err(), DecodeError::InvalidJson);
}

#[test]
fn missing_state_is_an_error() {
    let r = decode_line("{\"x\":1}");
    assert_eq!(r.unwrap_err(), DecodeError::MissingState);
}

#[test]
fn unrecognised_tag_is_dropped() {
    let r = decode_line("{\"state\":\"somethingNew\",\"x\":1}");
    assert!(r.unwrap().is_none());
}

#[test]
fn connect_lobby_without_secret_is_an_error() {
    let r = decode_line("{\"state\":\"connectLobby\",\"id\":5}");
    assert_eq!(r.unwrap_err(), DecodeError::MissingField);
}

#[test]
fn create_lobby_without_fields_is_a_request() {
    let back = decode_ok("{\"state\":\"createLobby\"}");
    assert!(matches!(back, BridgeMessage::CreateLobbyRequest));
}

#[test]
fn fractional_hearing_distance_is_an_error() {
    let r = decode_line("{\"state\":\"serverConfig\",\"maxHearingDistance\":12.5}");
    assert_eq!(r.unwrap_err(), DecodeError::MissingField);
}

#[test]
fn position_with_bad_world_is_an_error() {
    let r = decode_line(
        "{\"state\":\"sendPlayersPosition\",\"positions\":{\"1\":{\"world\":5,\"x\":0,\"y\":0,\"z\":0}}}",
    );
    assert_eq!(r.unwrap_err(), DecodeError::MissingField);
}

#[test]
fn position_with_bad_key_is_an_error() {
    let r = decode_line(
        "{\"state\":\"sendPlayersPosition\",\"positions\":{\"abc\":{\"world\":\"w\",\"x\":0,\"y\":0,\"z\":0}}}",
    );
    assert_eq!(r.unwrap_err(), DecodeError::MissingField);
}

#[test]
fn decode_accepts_zero_padded_keys() {
    let back = decode_ok(
        "{\"state\":\"sendPlayersPosition\",\"positions\":{\"007\":{\"world\":\"w\",\"x\":1,\"y\":2,\"z\":3}}}",
    );
    match back {
        BridgeMessage::PlayerPositionsReport { positions } => {
            assert_eq!(positions.len(), 1);
            assert_eq!(positions[0].0, 7);
        }
        _ => panic!("wrong tag"),
    }
}

#[test]
fn remove_end_newline_strips_terminator() {
    assert_eq!(remove_end_newline(&"abc\r\n".to_string()), "abc");
    assert_eq!(remove_end_newline(&"abc\n".to_string()), "abc");
    assert_eq!(remove_end_newline(&"abc\r".to_string()), "abc");
    assert_eq!(remove_end_newline(&"abc\n\n".to_string()), "abc");
    assert_eq!(remove_end_newline(&"abc".to_string()), "abc");
    assert_eq!(remove_end_newline(&"".to_string()), "");
    // inner terminators stay; only the end is trimmed
    assert_eq!(remove_end_newline(&"a\nb\r\n".to_string()), "a\nb");
}
