//! The message schema shared with the game server: a tagged union keyed by
//! the wire `state` string. Exactly one tag is active per message; a line
//! whose tag is not recognised decodes to no message at all and is dropped.

use vstd::prelude::*;
use crate::position::{Position, PositionView};

verus! {

/// Why a wire line could not be decoded.
#[derive(Clone, Copy, Debug, PartialEq, Eq, Structural)]
pub enum DecodeError {
    /// The line is not a JSON object.
    InvalidJson,
    /// The object has no string `state` field.
    MissingState,
    /// The tag was recognised but a field it requires is absent or has the
    /// wrong shape.
    MissingField,
}

/// Mathematical image of a [`BridgeMessage`].
pub enum MessageView {
    ServerConfig { max_hearing_distance: u32 },
    CreateLobbyRequest,
    CreateLobbyResult { id: i64, secret: Seq<char> },
    ConnectLobbyRequest { id: i64, secret: Seq<char> },
    PlayerPositionsReport { positions: Seq<(i64, PositionView)> },
    LinkCode { code: u64 },
    DiscordUserInfo { id: i64, username: Seq<char>, discriminator: Seq<char> },
    End,
}

/// One message crossing the bridge, in either direction.
#[derive(Debug)]
pub enum BridgeMessage {
    /// The server announces the maximum hearing distance, in blocks.
    ServerConfig { max_hearing_distance: u32 },
    /// The server asks the client to create a voice lobby.
    CreateLobbyRequest,
    /// The client reports the lobby it created.
    CreateLobbyResult { id: i64, secret: String },
    /// The server asks the client to join an existing lobby.
    ConnectLobbyRequest { id: i64, secret: String },
    /// The server reports every player's position for this tick.
    PlayerPositionsReport { positions: Vec<(i64, Position)> },
    /// The server hands out the code that links the game account.
    LinkCode { code: u64 },
    /// The client introduces the local voice-platform user.
    DiscordUserInfo { id: i64, username: String, discriminator: String },
    /// Either side announces a clean shutdown.
    End,
}

impl View for BridgeMessage {
    type V = MessageView;

    open spec fn view(&self) -> MessageView {
        match self {
            BridgeMessage::ServerConfig { max_hearing_distance } => MessageView::ServerConfig {
                max_hearing_distance: *max_hearing_distance,
            },
            BridgeMessage::CreateLobbyRequest => MessageView::CreateLobbyRequest,
            BridgeMessage::CreateLobbyResult { id, secret } => MessageView::CreateLobbyResult {
                id: *id,
                secret: secret@,
            },
            BridgeMessage::ConnectLobbyRequest { id, secret } => MessageView::ConnectLobbyRequest {
                id: *id,
                secret: secret@,
            },
            BridgeMessage::PlayerPositionsReport { positions } => {
                MessageView::PlayerPositionsReport {
                    positions: positions@.map_values(|p: (i64, Position)| (p.0, p.1@)),
                }
            },
            BridgeMessage::LinkCode { code } => MessageView::LinkCode { code: *code },
            BridgeMessage::DiscordUserInfo { id, username, discriminator } => {
                MessageView::DiscordUserInfo {
                    id: *id,
                    username: username@,
                    discriminator: discriminator@,
                }
            },
            BridgeMessage::End => MessageView::End,
        }
    }
}

} // verus!
