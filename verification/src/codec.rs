//! The line codec: one JSON object per line, carriage-return–line-feed
//! terminated, with a `state` field naming the tag. Decoding is exact about
//! which lines make which message, which fail, and which are dropped as
//! unrecognised; encoding states the precise characters written.

use vstd::prelude::*;
use crate::digits::{spec_parse_i64, parse_i64, dec_digits, dec_int, append_u64, append_i64};
use crate::json::{
    json_parse, json_field_str, json_field_i64, json_field_u64, json_field_entries, parse_json,
    get_str, get_i64, get_u64, get_entries,
};
use crate::message::{BridgeMessage, MessageView, DecodeError};
use crate::position::{Position, PositionView, spec_decode_position, str_eq};

verus! {

/// What a sequence of JSON object entries decodes to as a positions map:
/// every key must read as a signed 64-bit player id and every value as a
/// position object, kept in entry order.
pub open spec fn spec_decode_entries(es: Seq<(Seq<char>, serde_json::Value)>) -> Option<
    Seq<(i64, PositionView)>,
>
    decreases es.len(),
{
    if es.len() == 0 {
        Some(Seq::<(i64, PositionView)>::empty())
    } else {
        match (spec_parse_i64(es[0].0), spec_decode_position(es[0].1)) {
            (Some(id), Some(p)) => {
                match spec_decode_entries(es.drop_first()) {
                    Some(rest) => Some(seq![(id, p)] + rest),
                    None => None,
                }
            },
            _ => None,
        }
    }
}

/// What a parsed JSON document decodes to: a message, nothing for an
/// unrecognised tag, or the error naming what was malformed.
pub open spec fn spec_decode_value(v: serde_json::Value) -> Result<
    Option<MessageView>,
    DecodeError,
> {
    match json_field_str(v, "state"@) {
        None => Err(DecodeError::MissingState),
        Some(st) => {
            if st == "serverConfig"@ {
                match json_field_u64(v, "maxHearingDistance"@) {
                    Some(d) => {
                        if d <= u32::MAX {
                            Ok(
                                Some(
                                    MessageView::ServerConfig {
                                        max_hearing_distance: d as u32,
                                    },
                                ),
                            )
                        } else {
                            Err(DecodeError::MissingField)
                        }
                    },
                    None => Err(DecodeError::MissingField),
                }
            } else if st == "createLobby"@ {
                match (json_field_i64(v, "id"@), json_field_str(v, "secret"@)) {
                    (Some(id), Some(secret)) => Ok(
                        Some(MessageView::CreateLobbyResult { id, secret }),
                    ),
                    _ => Ok(Some(MessageView::CreateLobbyRequest)),
                }
            } else if st == "connectLobby"@ {
                match (json_field_i64(v, "id"@), json_field_str(v, "secret"@)) {
                    (Some(id), Some(secret)) => Ok(
                        Some(MessageView::ConnectLobbyRequest { id, secret }),
                    ),
                    _ => Err(DecodeError::MissingField),
                }
            } else if st == "sendPlayersPosition"@ {
                match json_field_entries(v, "positions"@) {
                    Some(es) => {
                        match spec_decode_entries(es) {
                            Some(positions) => Ok(
                                Some(MessageView::PlayerPositionsReport { positions }),
                            ),
                            None => Err(DecodeError::MissingField),
                        }
                    },
                    None => Err(DecodeError::MissingField),
                }
            } else if st == "linkCode"@ {
                match json_field_u64(v, "code"@) {
                    Some(code) => Ok(Some(MessageView::LinkCode { code })),
                    None => Err(DecodeError::MissingField),
                }
            } else if st == "discordUserInfo"@ {
                match (
                    json_field_i64(v, "id"@),
                    json_field_str(v, "username"@),
                    json_field_str(v, "discriminator"@),
                ) {
                    (Some(id), Some(username), Some(discriminator)) => Ok(
                        Some(MessageView::DiscordUserInfo { id, username, discriminator }),
                    ),
                    _ => Err(DecodeError::MissingField),
                }
            } else if st == "end"@ {
                Ok(Some(MessageView::End))
            } else {
                Ok(None)
            }
        },
    }
}

/// What one wire line decodes to: a parse failure, or the decode of the
/// parsed document.
pub open spec fn spec_decode_line(s: Seq<char>) -> Result<Option<MessageView>, DecodeError> {
    match json_parse(s) {
        None => Err(DecodeError::InvalidJson),
        Some(v) => spec_decode_value(v),
    }
}

/// Does the executable decode outcome `r` carry exactly the mathematical
/// outcome `d`?
pub open spec fn decode_matches(
    r: Result<Option<BridgeMessage>, DecodeError>,
    d: Result<Option<MessageView>, DecodeError>,
) -> bool {
    match (r, d) {
        (Ok(Some(m)), Ok(Some(mv))) => m@ == mv,
        (Ok(None), Ok(None)) => true,
        (Err(e1), Err(e2)) => e1 == e2,
        _ => false,
    }
}

/// Decodes the entries of a positions object into the id-keyed position
/// list, in entry order.
fn decode_entries(entries: Vec<(String, serde_json::Value)>) -> (r: Result<
    Vec<(i64, Position)>,
    DecodeError,
>)
    ensures
        match spec_decode_entries(entries@.map_values(|p: (String, serde_json::Value)| (p.0@, p.1))) {
            Some(ps) => (r matches Ok(out) && out@.map_values(|q: (i64, Position)| (q.0, q.1@))
                == ps),
            None => r == Err::<Vec<(i64, Position)>, DecodeError>(DecodeError::MissingField),
        },
{
    let ghost full = entries@.map_values(|p: (String, serde_json::Value)| (p.0@, p.1));
    let mut out: Vec<(i64, Position)> = Vec::new();
    let mut i: usize = 0;
    proof {
        assert(full.skip(0) =~= full);
    }
    while i < entries.len()
        invariant
            i <= entries.len(),
            full == entries@.map_values(|p: (String, serde_json::Value)| (p.0@, p.1)),
            match spec_decode_entries(full.skip(i as int)) {
                Some(rest) => spec_decode_entries(full) == Some(
                    out@.map_values(|q: (i64, Position)| (q.0, q.1@)) + rest,
                ),
                None => spec_decode_entries(full) is None,
            },
        decreases entries.len() - i,
    {
        let ghost tail = full.skip(i as int);
        proof {
            assert(tail.len() > 0);
            assert(tail[0] == full[i as int]);
            assert(tail.drop_first() =~= full.skip(i + 1));
        }
        let id = match parse_i64(entries[i].0.as_str()) {
            Some(id) => id,
            None => {
                proof {
                    assert(spec_decode_entries(tail) is None);
                }
                return Err(DecodeError::MissingField);
            },
        };
        let p = match Position::new(&entries[i].1) {
            Ok(p) => p,
            Err(_) => {
                proof {
                    assert(spec_decode_entries(tail) is None);
                }
                return Err(DecodeError::MissingField);
            },
        };
        out.push((id, p));
        i += 1;
        proof {
            let f = |q: (i64, Position)| (q.0, q.1@);
            assert(out@.map_values(f) =~= out@.drop_last().map_values(f).push((id, p@)));
            if spec_decode_entries(full.skip(i as int)) is Some {
                let rest = spec_decode_entries(full.skip(i as int)).unwrap();
                assert(spec_decode_entries(tail) == Some(seq![(id, p@)] + rest));
                assert(out@.drop_last().map_values(f) + (seq![(id, p@)] + rest)
                    =~= out@.map_values(f) + rest);
            }
        }
    }
    proof {
        assert(full.skip(i as int) =~= Seq::<(Seq<char>, serde_json::Value)>::empty());
        assert(spec_decode_entries(full) == Some(
            out@.map_values(|q: (i64, Position)| (q.0, q.1@))
                + Seq::<(i64, PositionView)>::empty(),
        ));
        assert(out@.map_values(|q: (i64, Position)| (q.0, q.1@))
            + Seq::<(i64, PositionView)>::empty() =~= out@.map_values(
            |q: (i64, Position)| (q.0, q.1@),
        ));
    }
    Ok(out)
}

/// Decodes a parsed JSON document into at most one message, exactly as
/// [`spec_decode_value`] states.
pub fn decode_value(v: &serde_json::Value) -> (r: Result<Option<BridgeMessage>, DecodeError>)
    ensures
        decode_matches(r, spec_decode_value(*v)),
{
    let st = match get_str(v, "state") {
        Some(st) => st,
        None => {
            return Err(DecodeError::MissingState);
        },
    };
    if str_eq(st.as_str(), "serverConfig") {
        match get_u64(v, "maxHearingDistance") {
            Some(d) => {
                if d <= u32::MAX as u64 {
                    Ok(Some(BridgeMessage::ServerConfig { max_hearing_distance: d as u32 }))
                } else {
                    Err(DecodeError::MissingField)
                }
            },
            None => Err(DecodeError::MissingField),
        }
    } else if str_eq(st.as_str(), "createLobby") {
        match (get_i64(v, "id"), get_str(v, "secret")) {
            (Some(id), Some(secret)) => Ok(Some(BridgeMessage::CreateLobbyResult { id, secret })),
            _ => Ok(Some(BridgeMessage::CreateLobbyRequest)),
        }
    } else if str_eq(st.as_str(), "connectLobby") {
        match (get_i64(v, "id"), get_str(v, "secret")) {
            (Some(id), Some(secret)) => Ok(Some(BridgeMessage::ConnectLobbyRequest { id, secret })),
            _ => Err(DecodeError::MissingField),
        }
    } else if str_eq(st.as_str(), "sendPlayersPosition") {
        let entries = match get_entries(v, "positions") {
            Some(es) => es,
            None => {
                return Err(DecodeError::MissingField);
            },
        };
        match decode_entries(entries) {
            Ok(positions) => Ok(Some(BridgeMessage::PlayerPositionsReport { positions })),
            Err(e) => Err(e),
        }
    } else if str_eq(st.as_str(), "linkCode") {
        match get_u64(v, "code") {
            Some(code) => Ok(Some(BridgeMessage::LinkCode { code })),
            None => Err(DecodeError::MissingField),
        }
    } else if str_eq(st.as_str(), "discordUserInfo") {
        match (get_i64(v, "id"), get_str(v, "username"), get_str(v, "discriminator")) {
            (Some(id), Some(username), Some(discriminator)) => Ok(
                Some(BridgeMessage::DiscordUserInfo { id, username, discriminator }),
            ),
            _ => Err(DecodeError::MissingField),
        }
    } else if str_eq(st.as_str(), "end") {
        Ok(Some(BridgeMessage::End))
    } else {
        Ok(None)
    }
}

/// Decodes one wire line, exactly as [`spec_decode_line`] states: a line
/// that is not valid JSON fails, a recognised tag with sound fields makes
/// its message, an unrecognised tag makes none.
pub fn decode_line(line: &str) -> (r: Result<Option<BridgeMessage>, DecodeError>)
    ensures
        decode_matches(r, spec_decode_line(line@)),
{
    match parse_json(line) {
        None => Err(DecodeError::InvalidJson),
        Some(v) => decode_value(&v),
    }
}

/// The wire text of one positions-map entry: the id as a quoted decimal
/// key, then the position object.
pub open spec fn spec_encode_entry(e: (i64, PositionView)) -> Seq<char> {
    "\""@ + dec_int(e.0 as int) + "\":{\"world\":\""@ + e.1.world + "\",\"x\":"@ + dec_int(e.1.x)
        + ",\"y\":"@ + dec_int(e.1.y) + ",\"z\":"@ + dec_int(e.1.z) + "}"@
}

/// The wire text of a positions map's entries, comma separated, in order.
pub open spec fn spec_encode_positions(ps: Seq<(i64, PositionView)>) -> Seq<char>
    decreases ps.len(),
{
    if ps.len() == 0 {
        Seq::<char>::empty()
    } else if ps.len() == 1 {
        spec_encode_entry(ps.last())
    } else {
        spec_encode_positions(ps.drop_last()) + ","@ + spec_encode_entry(ps.last())
    }
}

/// The exact wire line for a message: one JSON object with the tag in its
/// `state` field, terminated by a carriage return and a line feed.
pub open spec fn spec_encode(m: MessageView) -> Seq<char> {
    match m {
        MessageView::ServerConfig { max_hearing_distance } => {
            "{\"state\":\"serverConfig\",\"maxHearingDistance\":"@ + dec_digits(
                max_hearing_distance as nat,
            ) + "}\r\n"@
        },
        MessageView::CreateLobbyRequest => "{\"state\":\"createLobby\"}\r\n"@,
        MessageView::CreateLobbyResult { id, secret } => {
            "{\"state\":\"createLobby\",\"id\":"@ + dec_int(id as int) + ",\"secret\":\""@ + secret
                + "\"}\r\n"@
        },
        MessageView::ConnectLobbyRequest { id, secret } => {
            "{\"state\":\"connectLobby\",\"id\":"@ + dec_int(id as int) + ",\"secret\":\""@
                + secret + "\"}\r\n"@
        },
        MessageView::PlayerPositionsReport { positions } => {
            "{\"state\":\"sendPlayersPosition\",\"positions\":{"@ + spec_encode_positions(positions)
                + "}}\r\n"@
        },
        MessageView::LinkCode { code } => {
            "{\"state\":\"linkCode\",\"code\":"@ + dec_digits(code as nat) + "}\r\n"@
        },
        MessageView::DiscordUserInfo { id, username, discriminator } => {
            "{\"state\":\"discordUserInfo\",\"id\":"@ + dec_int(id as int) + ",\"username\":\""@
                + username + "\",\"discriminator\":\""@ + discriminator + "\"}\r\n"@
        },
        MessageView::End => "{\"state\":\"end\"}\r\n"@,
    }
}

/// Appends one positions-map entry to `s`.
fn append_entry(s: &mut String, id: i64, p: &Position)
    ensures
        final(s)@ == old(s)@ + spec_encode_entry((id, p@)),
{
    s.append("\"");
    append_i64(s, id);
    s.append("\":{\"world\":\"");
    s.append(p.world.as_str());
    s.append("\",\"x\":");
    append_i64(s, p.x as i64);
    s.append(",\"y\":");
    append_i64(s, p.y as i64);
    s.append(",\"z\":");
    append_i64(s, p.z as i64);
    s.append("}");
    proof {
        assert(s@ =~= old(s)@ + spec_encode_entry((id, p@)));
    }
}

/// Encodes a message into its exact wire line, as [`spec_encode`] states.
pub fn encode_message(m: &BridgeMessage) -> (line: String)
    ensures
        line@ == spec_encode(m@),
{
    let mut s = String::new();
    match m {
        BridgeMessage::ServerConfig { max_hearing_distance } => {
            s.append("{\"state\":\"serverConfig\",\"maxHearingDistance\":");
            append_u64(&mut s, *max_hearing_distance as u64);
            s.append("}\r\n");
            proof {
                assert(s@ =~= spec_encode(m@));
            }
        },
        BridgeMessage::CreateLobbyRequest => {
            s.append("{\"state\":\"createLobby\"}\r\n");
            proof {
                assert(s@ =~= spec_encode(m@));
            }
        },
        BridgeMessage::CreateLobbyResult { id, secret } => {
            s.append("{\"state\":\"createLobby\",\"id\":");
            append_i64(&mut s, *id);
            s.append(",\"secret\":\"");
            s.append(secret.as_str());
            s.append("\"}\r\n");
            proof {
                assert(s@ =~= spec_encode(m@));
            }
        },
        BridgeMessage::ConnectLobbyRequest { id, secret } => {
            s.append("{\"state\":\"connectLobby\",\"id\":");
            append_i64(&mut s, *id);
            s.append(",\"secret\":\"");
            s.append(secret.as_str());
            s.append("\"}\r\n");
            proof {
                assert(s@ =~= spec_encode(m@));
            }
        },
        BridgeMessage::PlayerPositionsReport { positions } => {
            let ghost ps = positions@.map_values(|q: (i64, Position)| (q.0, q.1@));
            s.append("{\"state\":\"sendPlayersPosition\",\"positions\":{");
            let ghost base = s@;
            let mut i: usize = 0;
            proof {
                assert(ps.take(0) =~= Seq::<(i64, PositionView)>::empty());
                assert(s@ =~= base + spec_encode_positions(ps.take(0)));
            }
            while i < positions.len()
                invariant
                    i <= positions.len(),
                    ps == positions@.map_values(|q: (i64, Position)| (q.0, q.1@)),
                    s@ == base + spec_encode_positions(ps.take(i as int)),
                decreases positions.len() - i,
            {
                if i > 0 {
                    s.append(",");
                }
                append_entry(&mut s, positions[i].0, &positions[i].1);
                i += 1;
                proof {
                    assert(ps.take(i as int).drop_last() =~= ps.take(i as int - 1));
                    assert(ps.take(i as int).last() == ps[i as int - 1]);
                    assert(s@ =~= base + spec_encode_positions(ps.take(i as int)));
                }
            }
            s.append("}}\r\n");
            proof {
                assert(ps.take(positions@.len() as int) =~= ps);
                assert(s@ =~= spec_encode(m@));
            }
        },
        BridgeMessage::LinkCode { code } => {
            s.append("{\"state\":\"linkCode\",\"code\":");
            append_u64(&mut s, *code);
            s.append("}\r\n");
            proof {
                assert(s@ =~= spec_encode(m@));
            }
        },
        BridgeMessage::DiscordUserInfo { id, username, discriminator } => {
            s.append("{\"state\":\"discordUserInfo\",\"id\":");
            append_i64(&mut s, *id);
            s.append(",\"username\":\"");
            s.append(username.as_str());
            s.append("\",\"discriminator\":\"");
            s.append(discriminator.as_str());
            s.append("\"}\r\n");
            proof {
                assert(s@ =~= spec_encode(m@));
            }
        },
        BridgeMessage::End => {
            s.append("{\"state\":\"end\"}\r\n");
            proof {
                assert(s@ =~= spec_encode(m@));
            }
        },
    }
    s
}

/// `s` with every trailing occurrence of `c` removed.
pub open spec fn trim_end_char(s: Seq<char>, c: char) -> Seq<char>
    decreases s.len(),
{
    if s.len() > 0 && s.last() == c {
        trim_end_char(s.drop_last(), c)
    } else {
        s
    }
}

/// A wire line with its terminator stripped: every trailing line feed is
/// removed, then every carriage return left trailing after that.
pub open spec fn trim_line_end(s: Seq<char>) -> Seq<char> {
    trim_end_char(trim_end_char(s, '\n'), '\r')
}

/// Strips the line terminator from a read line, as [`trim_line_end`]
/// states.
pub fn remove_end_newline(value: &String) -> (r: String)
    ensures
        r@ == trim_line_end(value@),
{
    let sref = value.as_str();
    let n = sref.unicode_len();
    let mut e = n;
    proof {
        assert(value@.take(n as int) =~= value@);
    }
    while e > 0 && sref.get_char(e - 1) == '\n'
        invariant
            e <= n,
            n == value@.len(),
            sref@ == value@,
            trim_end_char(value@, '\n') == trim_end_char(value@.take(e as int), '\n'),
        decreases e,
    {
        proof {
            assert(value@.take(e as int).last() == value@[e - 1]);
            assert(value@.take(e as int).drop_last() =~= value@.take(e as int - 1));
        }
        e -= 1;
    }
    let ghost t1 = trim_end_char(value@, '\n');
    proof {
        if e > 0 {
            assert(value@.take(e as int).last() == value@[e - 1]);
        }
        assert(t1 == value@.take(e as int));
    }
    while e > 0 && sref.get_char(e - 1) == '\r'
        invariant
            e <= n,
            n == value@.len(),
            sref@ == value@,
            e <= t1.len(),
            t1 =~= value@.take(t1.len() as int),
            trim_end_char(t1, '\r') == trim_end_char(value@.take(e as int), '\r'),
        decreases e,
    {
        proof {
            assert(value@.take(e as int).last() == value@[e - 1]);
            assert(value@.take(e as int).drop_last() =~= value@.take(e as int - 1));
        }
        e -= 1;
    }
    proof {
        if e > 0 {
            assert(value@.take(e as int).last() == value@[e - 1]);
        }
        assert(trim_end_char(t1, '\r') == value@.take(e as int));
    }
    let out = sref.substring_char(0, e);
    proof {
        assert(out@ =~= value@.take(e as int));
    }
    out.to_owned()
}

} // verus!
