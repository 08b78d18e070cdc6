use proximity_bridge::message::BridgeMessage;
use proximity_bridge::position::Position;
use proximity_bridge::session::{
    handle_inbound, handle_message, MyEventHandler, SessionState, VoiceCommand,
};

fn pos(world: &str, x: i32, y: i32, z: i32) -> Position {
    Position { world: world.to_string(), x, y, z }
}

#[test]
fn server_config_stores_distance() {
    let mut state = SessionState::new();
    assert_eq!(state.max_hearing_distance, 0);
    let cmds = handle_message(
        &mut state,
        &BridgeMessage::ServerConfig { max_hearing_distance: 100 },
        1,
    );
    assert_eq!(state.max_hearing_distance, 100);
    assert!(cmds.is_empty());
}

#[test]
fn create_lobby_request_issues_command() {
    let mut state = SessionState::new();
    let cmds = handle_message(&mut state, &BridgeMessage::CreateLobbyRequest, 1);
    assert_eq!(cmds.len(), 1);
    assert!(matches!(cmds[0], VoiceCommand::CreateLobby));
}

#[test]
fn connect_lobby_request_issues_command() {
    let mut state = SessionState::new();
    let cmds = handle_message(
        &mut state,
        &BridgeMessage::ConnectLobbyRequest { id: 8, secret: "k".to_string() },
        1,
    );
    assert_eq!(cmds.len(), 1);
    match &cmds[0] {
        VoiceCommand::ConnectLobby { id, secret } => {
            assert_eq!(*id, 8);
            assert_eq!(secret, "k");
        }
        _ => panic!("wrong command"),
    }
}

#[test]
fn positions_report_sets_volumes_for_others() {
    let mut state = SessionState { max_hearing_distance: 100 };
    let report = BridgeMessage::PlayerPositionsReport {
        positions: vec![
            (1, pos("world", 0, 0, 0)),
            (2, pos("world", 50, 0, 0)),
            (3, pos("nether", 0, 0, 0)),
        ],
    };
    let cmds = handle_message(&mut state, &report, 1);
    assert_eq!(cmds.len(), 2);
    match &cmds[0] {
        VoiceCommand::SetLocalVolume { member_id, volume } => {
            assert_eq!(*member_id, 2);
            assert_eq!(*volume, 28);
        }
        _ => panic!("wrong command"),
    }
    match &cmds[1] {
        VoiceCommand::SetLocalVolume { member_id, volume } => {
            assert_eq!(*member_id, 3);
            assert_eq!(*volume, 0);
        }
        _ => panic!("wrong command"),
    }
}

#[test]
fn positions_report_without_self_uses_default_origin() {
    // the reporter is absent from the map: their position stays the
    // default overworld origin, so a speaker at the origin is at full volume
    let mut state = SessionState { max_hearing_distance: 100 };
    let report = BridgeMessage::PlayerPositionsReport {
        positions: vec![(2, pos("world", 0, 0, 0))],
    };
    let cmds = handle_message(&mut state, &report, 1);
    assert_eq!(cmds.len(), 1);
    match &cmds[0] {
        VoiceCommand::SetLocalVolume { member_id, volume } => {
            assert_eq!(*member_id, 2);
            assert_eq!(*volume, 110);
        }
        _ => panic!("wrong command"),
    }
}

#[test]
fn batch_config_applies_to_later_reports() {
    // a config and a report drained in the same tick: the report already
    // sees the new hearing distance
    let mut state = SessionState::new();
    let batch = vec![
        BridgeMessage::ServerConfig { max_hearing_distance: 100 },
        BridgeMessage::PlayerPositionsReport {
            positions: vec![(1, pos("world", 0, 0, 0)), (2, pos("world", 50, 0, 0))],
        },
    ];
    let cmds = handle_inbound(&mut state, &batch, 1);
    assert_eq!(state.max_hearing_distance, 100);
    assert_eq!(cmds.len(), 1);
    match &cmds[0] {
        VoiceCommand::SetLocalVolume { member_id, volume } => {
            assert_eq!(*member_id, 2);
            assert_eq!(*volume, 28);
        }
        _ => panic!("wrong command"),
    }
}

#[test]
fn unconfigured_session_silences_everyone() {
    let mut state = SessionState::new();
    let report = BridgeMessage::PlayerPositionsReport {
        positions: vec![(1, pos("world", 0, 0, 0)), (2, pos("world", 1, 0, 0))],
    };
    let cmds = handle_message(&mut state, &report, 1);
    assert_eq!(cmds.len(), 1);
    match &cmds[0] {
        VoiceCommand::SetLocalVolume { volume, .. } => assert_eq!(*volume, 0),
        _ => panic!("wrong command"),
    }
}

#[test]
fn ignored_tags_do_nothing() {
    let mut state = SessionState { max_hearing_distance: 42 };
    let cmds = handle_message(&mut state, &BridgeMessage::End, 1);
    assert!(cmds.is_empty());
    assert_eq!(state.max_hearing_distance, 42);
    let cmds = handle_message(&mut state, &BridgeMessage::LinkCode { code: 5 }, 1);
    assert!(cmds.is_empty());
}

#[test]
fn new_member_is_muted_on_connect() {
    let handler = MyEventHandler::new();
    match handler.on_member_connect(99) {
        VoiceCommand::SetLocalVolume { member_id, volume } => {
            assert_eq!(member_id, 99);
            assert_eq!(volume, 0);
        }
        _ => panic!("wrong command"),
    }
}
