//! The server-link driver's decisions. Each tick reads one line from the
//! socket; what the line makes the driver do — enqueue the message inbound,
//! answer on the socket, surface a link code, or shut the connection down —
//! is decided here, exactly. The socket itself, the console, and the exit
//! of the process stay in the process shell.

use vstd::prelude::*;
use crate::codec::{
    spec_decode_line, spec_encode, decode_line, encode_message, remove_end_newline, trim_line_end,
};
use crate::message::{BridgeMessage, MessageView, DecodeError};

verus! {

/// Mathematical image of a [`UserInfo`].
pub struct UserInfoView {
    pub id: i64,
    pub username: Seq<char>,
    pub discriminator: Seq<char>,
}

/// The local voice-platform user, as introduced to the game server.
pub struct UserInfo {
    pub id: i64,
    pub username: String,
    pub discriminator: String,
}

impl View for UserInfo {
    type V = UserInfoView;

    open spec fn view(&self) -> UserInfoView {
        UserInfoView {
            id: self.id,
            username: self.username@,
            discriminator: self.discriminator@,
        }
    }
}

/// Mathematical image of a [`LinkStep`].
pub struct LinkStepView {
    pub enqueue: Option<MessageView>,
    pub reply: Option<Seq<char>>,
    pub link_code: Option<u64>,
    pub shutdown: bool,
    pub error: Option<DecodeError>,
}

/// Everything one read line asks of the process shell: at most one message
/// for the inbound queue, at most one reply line for the socket, at most
/// one link code to show the player, whether to shut the connection down
/// and exit, and the decode error to log if the line was malformed.
pub struct LinkStep {
    pub enqueue: Option<BridgeMessage>,
    pub reply: Option<String>,
    pub link_code: Option<u64>,
    pub shutdown: bool,
    pub error: Option<DecodeError>,
}

impl View for LinkStep {
    type V = LinkStepView;

    open spec fn view(&self) -> LinkStepView {
        LinkStepView {
            enqueue: match self.enqueue {
                Some(m) => Some(m@),
                None => None,
            },
            reply: match self.reply {
                Some(r) => Some(r@),
                None => None,
            },
            link_code: self.link_code,
            shutdown: self.shutdown,
            error: self.error,
        }
    }
}

/// A step that asks nothing.
pub open spec fn spec_idle_step() -> LinkStepView {
    LinkStepView { enqueue: None, reply: None, link_code: None, shutdown: false, error: None }
}

/// What the driver does with the decode of one line, for user `user`:
/// a malformed line is dropped with its error; a server config is answered
/// with the user's introduction and enqueued; lobby requests and position
/// reports are enqueued unchanged; a link code is surfaced; an end is
/// answered with an end and shuts the link down; anything else is ignored.
pub open spec fn spec_link_step(
    d: Result<Option<MessageView>, DecodeError>,
    user: UserInfoView,
) -> LinkStepView {
    match d {
        Err(e) => LinkStepView {
            enqueue: None,
            reply: None,
            link_code: None,
            shutdown: false,
            error: Some(e),
        },
        Ok(None) => spec_idle_step(),
        Ok(Some(m)) => match m {
            MessageView::ServerConfig { .. } => LinkStepView {
                enqueue: Some(m),
                reply: Some(
                    spec_encode(
                        MessageView::DiscordUserInfo {
                            id: user.id,
                            username: user.username,
                            discriminator: user.discriminator,
                        },
                    ),
                ),
                link_code: None,
                shutdown: false,
                error: None,
            },
            MessageView::CreateLobbyRequest => LinkStepView {
                enqueue: Some(m),
                reply: None,
                link_code: None,
                shutdown: false,
                error: None,
            },
            MessageView::ConnectLobbyRequest { .. } => LinkStepView {
                enqueue: Some(m),
                reply: None,
                link_code: None,
                shutdown: false,
                error: None,
            },
            MessageView::PlayerPositionsReport { .. } => LinkStepView {
                enqueue: Some(m),
                reply: None,
                link_code: None,
                shutdown: false,
                error: None,
            },
            MessageView::LinkCode { code } => LinkStepView {
                enqueue: None,
                reply: None,
                link_code: Some(code),
                shutdown: false,
                error: None,
            },
            MessageView::End => LinkStepView {
                enqueue: None,
                reply: Some(spec_encode(MessageView::End)),
                link_code: None,
                shutdown: true,
                error: None,
            },
            _ => spec_idle_step(),
        },
    }
}

/// Decides what one read line asks of the process shell, exactly as
/// [`spec_link_step`] states over the decode of the trimmed line.
pub fn link_handle_line(line: &str, user: &UserInfo) -> (step: LinkStep)
    ensures
        step@ == spec_link_step(spec_decode_line(trim_line_end(line@)), user@),
{
    let owned = line.to_owned();
    let trimmed = remove_end_newline(&owned);
    match decode_line(trimmed.as_str()) {
        Err(e) => LinkStep {
            enqueue: None,
            reply: None,
            link_code: None,
            shutdown: false,
            error: Some(e),
        },
        Ok(None) => LinkStep {
            enqueue: None,
            reply: None,
            link_code: None,
            shutdown: false,
            error: None,
        },
        Ok(Some(m)) => {
            match &m {
                BridgeMessage::ServerConfig { .. } => {
                    let intro = BridgeMessage::DiscordUserInfo {
                        id: user.id,
                        username: user.username.clone(),
                        discriminator: user.discriminator.clone(),
                    };
                    let reply = encode_message(&intro);
                    LinkStep {
                        enqueue: Some(m),
                        reply: Some(reply),
                        link_code: None,
                        shutdown: false,
                        error: None,
                    }
                },
                BridgeMessage::CreateLobbyRequest => LinkStep {
                    enqueue: Some(m),
                    reply: None,
                    link_code: None,
                    shutdown: false,
                    error: None,
                },
                BridgeMessage::ConnectLobbyRequest { .. } => LinkStep {
                    enqueue: Some(m),
                    reply: None,
                    link_code: None,
                    shutdown: false,
                    error: None,
                },
                BridgeMessage::PlayerPositionsReport { .. } => LinkStep {
                    enqueue: Some(m),
                    reply: None,
                    link_code: None,
                    shutdown: false,
                    error: None,
                },
                BridgeMessage::LinkCode { code } => LinkStep {
                    enqueue: None,
                    reply: None,
                    link_code: Some(*code),
                    shutdown: false,
                    error: None,
                },
                BridgeMessage::End => {
                    let reply = encode_message(&BridgeMessage::End);
                    LinkStep {
                        enqueue: None,
                        reply: Some(reply),
                        link_code: None,
                        shutdown: true,
                        error: None,
                    }
                },
                _ => LinkStep {
                    enqueue: None,
                    reply: None,
                    link_code: None,
                    shutdown: false,
                    error: None,
                },
            }
        },
    }
}

/// The wire lines a drained outbound batch sends to the server: only
/// lobby-creation results are written; every other outbound tag is
/// deliberately not forwarded.
pub open spec fn spec_outbound_lines(ms: Seq<MessageView>) -> Seq<Seq<char>>
    decreases ms.len(),
{
    if ms.len() == 0 {
        Seq::<Seq<char>>::empty()
    } else {
        spec_outbound_lines(ms.drop_last()) + (match ms.last() {
            MessageView::CreateLobbyResult { .. } => seq![spec_encode(ms.last())],
            _ => Seq::<Seq<char>>::empty(),
        })
    }
}

/// Encodes the outbound batch into the lines to write, exactly as
/// [`spec_outbound_lines`] states: lobby-creation results only, in order.
pub fn outbound_lines(msgs: &Vec<BridgeMessage>) -> (lines: Vec<String>)
    ensures
        lines@.map_values(|s: String| s@) == spec_outbound_lines(
            msgs@.map_values(|m: BridgeMessage| m@),
        ),
{
    let ghost mv = msgs@.map_values(|m: BridgeMessage| m@);
    let mut lines: Vec<String> = Vec::new();
    let mut i: usize = 0;
    proof {
        assert(mv.take(0) =~= Seq::<MessageView>::empty());
        assert(lines@.map_values(|s: String| s@) =~= spec_outbound_lines(mv.take(0)));
    }
    while i < msgs.len()
        invariant
            i <= msgs.len(),
            mv == msgs@.map_values(|m: BridgeMessage| m@),
            lines@.map_values(|s: String| s@) == spec_outbound_lines(mv.take(i as int)),
        decreases msgs.len() - i,
    {
        proof {
            assert(mv.take(i + 1).drop_last() =~= mv.take(i as int));
            assert(mv.take(i + 1).last() == mv[i as int]);
        }
        match &msgs[i] {
            BridgeMessage::CreateLobbyResult { .. } => {
                let line = encode_message(&msgs[i]);
                lines.push(line);
                proof {
                    assert(lines@.map_values(|s: String| s@) =~= lines@.drop_last().map_values(
                        |s: String| s@,
                    ).push(spec_encode(mv[i as int])));
                }
            },
            _ => {
                proof {
                    assert(lines@.map_values(|s: String| s@) + Seq::<Seq<char>>::empty()
                        =~= lines@.map_values(|s: String| s@));
                }
            },
        }
        i += 1;
    }
    proof {
        assert(mv.take(msgs@.len() as int) =~= mv);
    }
    lines
}

} // verus!
