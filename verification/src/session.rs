//! The voice-session driver's decisions. Each polling tick drains the
//! inbound queue and turns every message into voice-session commands: a
//! server config stores the hearing distance, lobby requests become lobby
//! commands, and a positions report becomes one local-volume override per
//! other player, computed by the volume rule against the reporter's own
//! position. Performing the commands against the voice platform is the
//! process shell's work; the decisions themselves are proved here.

use vstd::prelude::*;
use crate::message::{BridgeMessage, MessageView};
use crate::position::{Position, PositionView};
use crate::volume::{spec_volume, volume};

verus! {

/// The per-process hearing configuration: zero until a server config
/// arrives, which silences everyone — a safe default.
#[derive(Clone, Copy, Debug, PartialEq, Eq, Structural)]
pub struct SessionState {
    pub max_hearing_distance: u32,
}

impl SessionState {
    /// The state before any server config was seen.
    pub fn new() -> (s: SessionState)
        ensures
            s.max_hearing_distance == 0,
    {
        SessionState { max_hearing_distance: 0 }
    }
}

/// Mathematical image of a [`VoiceCommand`].
pub enum CommandView {
    CreateLobby,
    ConnectLobby { id: i64, secret: Seq<char> },
    SetLocalVolume { member_id: i64, volume: u8 },
}

/// One command for the process shell to issue to the voice platform.
pub enum VoiceCommand {
    /// Create a lobby, then join its voice channel and report the result.
    CreateLobby,
    /// Join the given lobby and its voice channel, muting every current
    /// member until a position places them.
    ConnectLobby { id: i64, secret: String },
    /// Override the local playback volume of one member.
    SetLocalVolume { member_id: i64, volume: u8 },
}

impl View for VoiceCommand {
    type V = CommandView;

    open spec fn view(&self) -> CommandView {
        match self {
            VoiceCommand::CreateLobby => CommandView::CreateLobby,
            VoiceCommand::ConnectLobby { id, secret } => CommandView::ConnectLobby {
                id: *id,
                secret: secret@,
            },
            VoiceCommand::SetLocalVolume { member_id, volume } => CommandView::SetLocalVolume {
                member_id: *member_id,
                volume: *volume,
            },
        }
    }
}

/// The event handler hooked to the voice session: its one decision is made
/// in [`MyEventHandler::on_member_connect`].
pub struct MyEventHandler {}

impl MyEventHandler {
    /// A fresh handler.
    pub fn new() -> MyEventHandler {
        MyEventHandler {}
    }

    /// A member that has just connected is muted until a position report
    /// places them: the directive is always volume zero for that member.
    pub fn on_member_connect(&self, member_id: i64) -> (c: VoiceCommand)
        ensures
            c@ == (CommandView::SetLocalVolume { member_id, volume: 0u8 }),
    {
        VoiceCommand::SetLocalVolume { member_id, volume: 0 }
    }
}

/// The reporter's own default position before the report names one: the
/// default overworld name at the origin.
pub open spec fn default_position_view() -> PositionView {
    PositionView { world: "world"@, x: 0, y: 0, z: 0 }
}

/// The reporter's own position in a report: the last entry carrying
/// `self_id`, or the default when the report never names the reporter.
pub open spec fn spec_self_position(ps: Seq<(i64, PositionView)>, self_id: i64) -> PositionView
    decreases ps.len(),
{
    if ps.len() == 0 {
        default_position_view()
    } else if ps.last().0 == self_id {
        ps.last().1
    } else {
        spec_self_position(ps.drop_last(), self_id)
    }
}

/// Every entry of a report that is not the reporter, in report order.
pub open spec fn spec_others(ps: Seq<(i64, PositionView)>, self_id: i64) -> Seq<
    (i64, PositionView),
>
    decreases ps.len(),
{
    if ps.len() == 0 {
        Seq::<(i64, PositionView)>::empty()
    } else if ps.last().0 == self_id {
        spec_others(ps.drop_last(), self_id)
    } else {
        spec_others(ps.drop_last(), self_id) + seq![ps.last()]
    }
}

/// One volume override per other player, in order, each computed by the
/// volume rule against the reporter's position under hearing distance `m`.
pub open spec fn spec_volume_commands(
    others: Seq<(i64, PositionView)>,
    self_pos: PositionView,
    m: nat,
) -> Seq<CommandView>
    decreases others.len(),
{
    if others.len() == 0 {
        Seq::<CommandView>::empty()
    } else {
        spec_volume_commands(others.drop_last(), self_pos, m) + seq![
            CommandView::SetLocalVolume {
                member_id: others.last().0,
                volume: spec_volume(self_pos, others.last().1, m) as u8,
            },
        ]
    }
}

/// What one inbound message does to the session: the state after it and
/// the commands it issues.
pub open spec fn spec_handle_one(state: SessionState, m: MessageView, self_id: i64) -> (
    SessionState,
    Seq<CommandView>,
) {
    match m {
        MessageView::ServerConfig { max_hearing_distance } => (
            SessionState { max_hearing_distance },
            Seq::<CommandView>::empty(),
        ),
        MessageView::CreateLobbyRequest => (state, seq![CommandView::CreateLobby]),
        MessageView::ConnectLobbyRequest { id, secret } => (
            state,
            seq![CommandView::ConnectLobby { id, secret }],
        ),
        MessageView::PlayerPositionsReport { positions } => (
            state,
            spec_volume_commands(
                spec_others(positions, self_id),
                spec_self_position(positions, self_id),
                state.max_hearing_distance as nat,
            ),
        ),
        _ => (state, Seq::<CommandView>::empty()),
    }
}

/// What a whole drained batch does, message by message in queue order,
/// threading the state through.
pub open spec fn spec_handle_all(state: SessionState, msgs: Seq<MessageView>, self_id: i64) -> (
    SessionState,
    Seq<CommandView>,
)
    decreases msgs.len(),
{
    if msgs.len() == 0 {
        (state, Seq::<CommandView>::empty())
    } else {
        let first = spec_handle_one(state, msgs[0], self_id);
        let rest = spec_handle_all(first.0, msgs.drop_first(), self_id);
        (rest.0, first.1 + rest.1)
    }
}

/// Copies a position value.
fn duplicate_position(p: &Position) -> (r: Position)
    ensures
        r@ == p@,
{
    Position { world: p.world.clone(), x: p.x, y: p.y, z: p.z }
}

/// Applies one inbound message to the session state and returns the voice
/// commands it issues, exactly as [`spec_handle_one`] states.
pub fn handle_message(state: &mut SessionState, msg: &BridgeMessage, self_id: i64) -> (cmds: Vec<
    VoiceCommand,
>)
    ensures
        *final(state) == spec_handle_one(*old(state), msg@, self_id).0,
        cmds@.map_values(|c: VoiceCommand| c@) == spec_handle_one(*old(state), msg@, self_id).1,
{
    let ghost expected = spec_handle_one(*old(state), msg@, self_id).1;
    match msg {
        BridgeMessage::ServerConfig { max_hearing_distance } => {
            state.max_hearing_distance = *max_hearing_distance;
            let cmds: Vec<VoiceCommand> = Vec::new();
            proof {
                assert(cmds@.map_values(|c: VoiceCommand| c@) =~= expected);
            }
            cmds
        },
        BridgeMessage::CreateLobbyRequest => {
            let mut cmds: Vec<VoiceCommand> = Vec::new();
            cmds.push(VoiceCommand::CreateLobby);
            proof {
                assert(cmds@.map_values(|c: VoiceCommand| c@) =~= expected);
            }
            cmds
        },
        BridgeMessage::ConnectLobbyRequest { id, secret } => {
            let mut cmds: Vec<VoiceCommand> = Vec::new();
            cmds.push(VoiceCommand::ConnectLobby { id: *id, secret: secret.clone() });
            proof {
                assert(cmds@.map_values(|c: VoiceCommand| c@) =~= expected);
            }
            cmds
        },
        BridgeMessage::PlayerPositionsReport { positions } => {
            let ghost ps = positions@.map_values(|q: (i64, Position)| (q.0, q.1@));
            let mut personal = Position::default();
            let mut others: Vec<(i64, Position)> = Vec::new();
            let mut i: usize = 0;
            proof {
                assert(ps.take(0) =~= Seq::<(i64, PositionView)>::empty());
                assert(others@.map_values(|q: (i64, Position)| (q.0, q.1@)) =~= spec_others(
                    ps.take(0),
                    self_id,
                ));
            }
            while i < positions.len()
                invariant
                    i <= positions.len(),
                    ps == positions@.map_values(|q: (i64, Position)| (q.0, q.1@)),
                    personal@ == spec_self_position(ps.take(i as int), self_id),
                    others@.map_values(|q: (i64, Position)| (q.0, q.1@)) == spec_others(
                        ps.take(i as int),
                        self_id,
                    ),
                decreases positions.len() - i,
            {
                proof {
                    assert(ps.take(i + 1).drop_last() =~= ps.take(i as int));
                    assert(ps.take(i + 1).last() == ps[i as int]);
                }
                if positions[i].0 == self_id {
                    personal = duplicate_position(&positions[i].1);
                } else {
                    let id = positions[i].0;
                    let p = duplicate_position(&positions[i].1);
                    others.push((id, p));
                    proof {
                        assert(others@.map_values(|q: (i64, Position)| (q.0, q.1@))
                            =~= others@.drop_last().map_values(|q: (i64, Position)| (q.0, q.1@))
                            .push((id, p@)));
                    }
                }
                i += 1;
            }
            proof {
                assert(ps.take(positions@.len() as int) =~= ps);
            }
            let ghost ov = others@.map_values(|q: (i64, Position)| (q.0, q.1@));
            let mut cmds: Vec<VoiceCommand> = Vec::new();
            let mut j: usize = 0;
            proof {
                assert(ov.take(0) =~= Seq::<(i64, PositionView)>::empty());
                assert(cmds@.map_values(|c: VoiceCommand| c@) =~= spec_volume_commands(
                    ov.take(0),
                    personal@,
                    state.max_hearing_distance as nat,
                ));
            }
            while j < others.len()
                invariant
                    j <= others.len(),
                    ov == others@.map_values(|q: (i64, Position)| (q.0, q.1@)),
                    personal@ == spec_self_position(ps, self_id),
                    cmds@.map_values(|c: VoiceCommand| c@) == spec_volume_commands(
                        ov.take(j as int),
                        personal@,
                        state.max_hearing_distance as nat,
                    ),
                decreases others.len() - j,
            {
                proof {
                    assert(ov.take(j + 1).drop_last() =~= ov.take(j as int));
                    assert(ov.take(j + 1).last() == ov[j as int]);
                }
                let member_id = others[j].0;
                let v = volume(&personal, &others[j].1, state.max_hearing_distance);
                cmds.push(VoiceCommand::SetLocalVolume { member_id, volume: v });
                j += 1;
                proof {
                    assert(cmds@.map_values(|c: VoiceCommand| c@) =~= cmds@.drop_last().map_values(
                        |c: VoiceCommand| c@,
                    ).push(
                        CommandView::SetLocalVolume {
                            member_id,
                            volume: spec_volume(
                                personal@,
                                ov[j - 1].1,
                                state.max_hearing_distance as nat,
                            ) as u8,
                        },
                    ));
                }
            }
            proof {
                assert(ov.take(others@.len() as int) =~= ov);
                assert(cmds@.map_values(|c: VoiceCommand| c@) =~= expected);
            }
            cmds
        },
        _ => {
            let cmds: Vec<VoiceCommand> = Vec::new();
            proof {
                assert(cmds@.map_values(|c: VoiceCommand| c@) =~= expected);
            }
            cmds
        },
    }
}

/// Applies a whole drained inbound batch in queue order and returns every
/// command issued, exactly as [`spec_handle_all`] states.
pub fn handle_inbound(state: &mut SessionState, msgs: &Vec<BridgeMessage>, self_id: i64) -> (cmds:
    Vec<VoiceCommand>)
    ensures
        *final(state) == spec_handle_all(*old(state), msgs@.map_values(|m: BridgeMessage| m@), self_id).0,
        cmds@.map_values(|c: VoiceCommand| c@) == spec_handle_all(
            *old(state),
            msgs@.map_values(|m: BridgeMessage| m@),
            self_id,
        ).1,
{
    let ghost mv = msgs@.map_values(|m: BridgeMessage| m@);
    let ghost goal = spec_handle_all(*old(state), mv, self_id);
    let mut cmds: Vec<VoiceCommand> = Vec::new();
    let mut i: usize = 0;
    proof {
        assert(mv.skip(0) =~= mv);
    }
    while i < msgs.len()
        invariant
            i <= msgs.len(),
            mv == msgs@.map_values(|m: BridgeMessage| m@),
            goal == spec_handle_all(*old(state), mv, self_id),
            goal.0 == spec_handle_all(*state, mv.skip(i as int), self_id).0,
            goal.1 =~= cmds@.map_values(|c: VoiceCommand| c@) + spec_handle_all(
                *state,
                mv.skip(i as int),
                self_id,
            ).1,
        decreases msgs.len() - i,
    {
        let ghost tail = mv.skip(i as int);
        proof {
            assert(tail[0] == mv[i as int]);
            assert(tail.drop_first() =~= mv.skip(i + 1));
        }
        let mut step = handle_message(state, &msgs[i], self_id);
        proof {
            let stepv = step@.map_values(|c: VoiceCommand| c@);
            assert(cmds@.map_values(|c: VoiceCommand| c@) + (stepv + spec_handle_all(
                *state,
                mv.skip(i + 1),
                self_id,
            ).1) =~= (cmds@ + step@).map_values(|c: VoiceCommand| c@) + spec_handle_all(
                *state,
                mv.skip(i + 1),
                self_id,
            ).1);
        }
        cmds.append(&mut step);
        i += 1;
    }
    proof {
        assert(mv.skip(msgs@.len() as int) =~= Seq::<MessageView>::empty());
        assert(goal.1 =~= cmds@.map_values(|c: VoiceCommand| c@));
    }
    cmds
}

} // verus!
