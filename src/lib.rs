//! A room-scoped message relay: a session registry that fans text out to the
//! members of a room, and the per-connection state machine around it.

mod ids;
mod lobby;
mod messages;
mod ws;

pub use ids::{hex_digit, hyphenated, nibble, parsed_uuid};
pub use lobby::{
    all_carry, apply_all, apply_change, change_id, consistent, deregister_idempotent, deregister_removes_member, deregistered,
    empty_lobby, farewell_targets, fresh_joins, is_member_of, joined, left,
    membership_is_joins_less_leaves, Membership, is_whisper, members, reachable, register_adds_member,
    registered, space_from, targets, whisper_targets, whisper_token, Delivery, Lobby, LobbyView,
    Session,
};
pub use messages::{
    envelope_text, frame_envelope, framed, json_escape_char, json_escaped, json_quoted, kind_tag,
    ClientActorMessage, Connect, DataType, Disconnect, MessagePayload, WsMessage,
};
pub use ws::{
    is_live, timed_out, ConnState, Frame, FrameAction, TickAction, WsConn, CLIENT_TIMEOUT_MS,
    HEARTBEAT_INTERVAL_MS,
};
