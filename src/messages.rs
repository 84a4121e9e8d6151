use crate::ids::{hyphenated, session_id_text};
use vstd::prelude::*;

verus! {

/// Text pushed to one client connection.
pub struct WsMessage(pub String);

/// A request to join the session `self_id` to the room `lobby_id`; `addr` is
/// the handle through which the session's client is reached.
pub struct Connect<S> {
    pub addr: S,
    pub lobby_id: u128,
    pub self_id: u128,
}

/// A request to take the session `id` out of the room `room_id`.
#[derive(Clone, Copy, Debug, PartialEq, Eq, Structural)]
pub struct Disconnect {
    pub room_id: u128,
    pub id: u128,
}

/// Text that the client of session `id` sent into the room `room_id`.
pub struct ClientActorMessage {
    pub id: u128,
    pub msg: String,
    pub room_id: u128,
}

/// The kinds of notification a client receives.
#[derive(Clone, Copy, Debug, PartialEq, Eq, Structural)]
pub enum DataType {
    Connect,
    Message,
    Disconnect,
}

/// A notification for clients: its kind and its text.
pub struct MessagePayload {
    pub kind: DataType,
    pub content: String,
}

/// The tag that names a kind on the wire.
pub open spec fn kind_tag(kind: DataType) -> Seq<char> {
    match kind {
        DataType::Connect => seq!['C', 'o', 'n', 'n', 'e', 'c', 't'],
        DataType::Message => seq!['M', 'e', 's', 's', 'a', 'g', 'e'],
        DataType::Disconnect => seq!['D', 'i', 's', 'c', 'o', 'n', 'n', 'e', 'c', 't'],
    }
}

/// How a JSON string writes one character: quote, backslash and the control
/// characters are escaped, every other character stands as it is.
pub open spec fn json_escape_char(c: char) -> Seq<char> {
    if c == '"' {
        seq!['\\', '"']
    } else if c == '\\' {
        seq!['\\', '\\']
    } else if c == '\x08' {
        seq!['\\', 'b']
    } else if c == '\t' {
        seq!['\\', 't']
    } else if c == '\n' {
        seq!['\\', 'n']
    } else if c == '\x0C' {
        seq!['\\', 'f']
    } else if c == '\r' {
        seq!['\\', 'r']
    } else if (c as u32) < 0x20 {
        seq!['\\', 'u', '0', '0', crate::ids::hex_digit((c as int) / 16), crate::ids::hex_digit((c as int) % 16)]
    } else {
        seq![c]
    }
}

/// The characters of `s`, each escaped as a JSON string writes it.
pub open spec fn json_escaped(s: Seq<char>) -> Seq<char>
    decreases s.len(),
{
    if s.len() == 0 {
        Seq::empty()
    } else {
        json_escaped(s.drop_last()) + json_escape_char(s.last())
    }
}

/// `s` written as a JSON string literal.
pub open spec fn json_quoted(s: Seq<char>) -> Seq<char> {
    seq!['"'] + json_escaped(s) + seq!['"']
}

/// The wire text of a notification whose content, already written as a JSON
/// string literal, is `quoted`: an object with the fields in key order.
pub open spec fn framed(kind: DataType, quoted: Seq<char>) -> Seq<char> {
    seq!['{', '"', 'c', 'o', 'n', 't', 'e', 'n', 't', '"', ':'] + quoted + seq![',', '"', 'k', 'i', 'n', 'd', '"', ':', '"'] + kind_tag(kind) + seq!['"', '}']
}

/// The wire text of a notification of `kind` with `content`.
pub open spec fn envelope_text(kind: DataType, content: Seq<char>) -> Seq<char> {
    framed(kind, json_quoted(content))
}

/// Relies on serde_json's `Display` for `Value::String`: the text written as a
/// JSON string literal.
#[verifier::external_body]
fn quote_json(s: &str) -> (r: String)
    ensures
        r@ == json_quoted(s@),
{
    serde_json::Value::String(s.to_owned()).to_string()
}

/// Builds the wire text of a notification of `kind` whose content, already
/// written as a JSON string literal, is `quoted`.
pub fn frame_envelope(kind: DataType, quoted: &str) -> (r: String)
    ensures
        r@ == framed(kind, quoted@),
{
    let mut r = String::from_str("{\"content\":");
    r.append(quoted);
    r.append(",\"kind\":\"");
    match kind {
        DataType::Connect => r.append("Connect"),
        DataType::Message => r.append("Message"),
        DataType::Disconnect => r.append("Disconnect"),
    }
    r.append("\"}");
    proof {
        reveal_strlit("{\"content\":");
        reveal_strlit(",\"kind\":\"");
        reveal_strlit("Connect");
        reveal_strlit("Message");
        reveal_strlit("Disconnect");
        reveal_strlit("\"}");
    }
    assert(r@ =~= framed(kind, quoted@));
    r
}

impl MessagePayload {
    /// The wire text of this notification.
    pub fn to_json(&self) -> (r: String)
        ensures
            r@ == envelope_text(self.kind, self.content@),
    {
        let quoted = quote_json(self.content.as_str());
        frame_envelope(self.kind, quoted.as_str())
    }
}

/// The wire text of a notification of `kind` about session `id`: its content
/// is the session's hyphenated id.
pub(crate) fn id_envelope(kind: DataType, id: u128) -> (r: String)
    ensures
        r@ == envelope_text(kind, hyphenated(id)),
{
    let payload = MessagePayload { kind, content: session_id_text(id) };
    payload.to_json()
}

} // verus!
