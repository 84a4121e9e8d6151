use chat_relay::{ClientActorMessage, Connect, Delivery, Disconnect, Lobby, TickAction, WsConn};

const ROOM_ONE: u128 = 0x11;
const ROOM_TWO: u128 = 0x22;
const A: u128 = 0xa;
const B: u128 = 0x0123_4567_89ab_cdef_0123_4567_89ab_cdef;
const C: u128 = 0xc;

const A_TEXT: &str = "00000000-0000-0000-0000-00000000000a";
const B_TEXT: &str = "01234567-89ab-cdef-0123-456789abcdef";

fn envelope(kind: &str, content: &str) -> String {
    format!("{{\"content\":\"{}\",\"kind\":\"{}\"}}", content, kind)
}

fn sorted(d: Vec<Delivery>) -> Vec<(u128, String)> {
    let mut v: Vec<(u128, String)> = d.into_iter().map(|x| (x.to, x.msg.0)).collect();
    v.sort();
    v
}

fn join(lobby: &mut Lobby<()>, room: u128, id: u128) -> Vec<Delivery> {
    lobby.register(Connect { addr: (), lobby_id: room, self_id: id })
}

fn say(lobby: &Lobby<()>, room: u128, id: u128, text: &str) -> Vec<Delivery> {
    lobby.relay(&ClientActorMessage { id, msg: text.to_string(), room_id: room })
}

fn members(lobby: &Lobby<()>, room: u128) -> Vec<u128> {
    let mut m = lobby.room_members(room);
    m.sort();
    m
}

#[test]
fn two_sessions_in_one_room() {
    let mut lobby: Lobby<()> = Lobby::new();
    let d = join(&mut lobby, ROOM_ONE, A);
    assert_eq!(sorted(d), vec![(A, envelope("Connect", A_TEXT))]);

    let d = join(&mut lobby, ROOM_ONE, B);
    assert_eq!(d.len(), 2);
    assert_eq!(d[1].to, B);
    assert_eq!(
        sorted(d),
        vec![(A, envelope("Connect", B_TEXT)), (B, envelope("Connect", B_TEXT))]
    );

    let d = say(&lobby, ROOM_ONE, A, "hello");
    assert_eq!(
        sorted(d),
        vec![(A, envelope("Message", "hello")), (B, envelope("Message", "hello"))]
    );

    let whisper = format!("\\w {} hi", B_TEXT);
    let d = say(&lobby, ROOM_ONE, A, &whisper);
    let expected = format!("{{\"content\":\"\\\\w {} hi\",\"kind\":\"Message\"}}", B_TEXT);
    assert_eq!(sorted(d), vec![(B, expected)]);

    let mut conn_b = WsConn::with_id(ROOM_ONE, B, 0);
    assert!(!conn_b.registered(true));
    let leave = match conn_b.hb(20_000) {
        TickAction::TimedOut(d) => d,
        _ => panic!("the silent client was not dropped"),
    };
    let d = lobby.deregister(leave);
    assert_eq!(sorted(d), vec![(A, envelope("Disconnect", B_TEXT))]);
    assert_eq!(members(&lobby, ROOM_ONE), vec![A]);
    assert!(!lobby.has_session(B));
    assert!(lobby.deregister(conn_b.stopping()).is_empty());
}

#[test]
fn membership_follows_joins_and_leaves() {
    let mut lobby: Lobby<()> = Lobby::new();
    join(&mut lobby, ROOM_ONE, A);
    join(&mut lobby, ROOM_ONE, B);
    join(&mut lobby, ROOM_TWO, C);
    assert_eq!(members(&lobby, ROOM_ONE), vec![A, B]);
    assert_eq!(members(&lobby, ROOM_TWO), vec![C]);
    lobby.deregister(Disconnect { room_id: ROOM_ONE, id: A });
    assert_eq!(members(&lobby, ROOM_ONE), vec![B]);
    lobby.deregister(Disconnect { room_id: ROOM_ONE, id: B });
    assert!(!lobby.has_room(ROOM_ONE));
    assert_eq!(members(&lobby, ROOM_ONE), Vec::<u128>::new());
    assert_eq!(members(&lobby, ROOM_TWO), vec![C]);
}

#[test]
fn first_member_learns_its_own_id() {
    let mut lobby: Lobby<()> = Lobby::default();
    let d = join(&mut lobby, ROOM_ONE, B);
    assert_eq!(d.len(), 1);
    assert_eq!(d[0].to, B);
    assert_eq!(d[0].msg.0, envelope("Connect", B_TEXT));
    assert!(lobby.has_session(B));
    assert!(lobby.outbound(B).is_some());
}

#[test]
fn known_session_joining_again_changes_nothing() {
    let mut lobby: Lobby<()> = Lobby::new();
    join(&mut lobby, ROOM_ONE, A);
    let d = join(&mut lobby, ROOM_TWO, A);
    assert!(d.is_empty());
    assert_eq!(members(&lobby, ROOM_ONE), vec![A]);
    assert!(!lobby.has_room(ROOM_TWO));
}

#[test]
fn sole_member_leaving_removes_room() {
    let mut lobby: Lobby<()> = Lobby::new();
    join(&mut lobby, ROOM_ONE, A);
    let d = lobby.deregister(Disconnect { room_id: ROOM_ONE, id: A });
    assert!(d.is_empty());
    assert!(!lobby.has_room(ROOM_ONE));
    assert!(!lobby.has_session(A));
    assert!(lobby.outbound(A).is_none());
}

#[test]
fn deregister_twice_is_once() {
    let mut lobby: Lobby<()> = Lobby::new();
    join(&mut lobby, ROOM_ONE, A);
    join(&mut lobby, ROOM_ONE, B);
    join(&mut lobby, ROOM_ONE, C);
    let first = lobby.deregister(Disconnect { room_id: ROOM_ONE, id: B });
    assert_eq!(
        sorted(first),
        vec![(A, envelope("Disconnect", B_TEXT)), (C, envelope("Disconnect", B_TEXT))]
    );
    let second = lobby.deregister(Disconnect { room_id: ROOM_ONE, id: B });
    assert!(second.is_empty());
    assert_eq!(members(&lobby, ROOM_ONE), vec![A, C]);
}

#[test]
fn deregister_from_wrong_room_is_ignored() {
    let mut lobby: Lobby<()> = Lobby::new();
    join(&mut lobby, ROOM_ONE, A);
    join(&mut lobby, ROOM_TWO, C);
    let d = lobby.deregister(Disconnect { room_id: ROOM_TWO, id: A });
    assert!(d.is_empty());
    assert_eq!(members(&lobby, ROOM_ONE), vec![A]);
    assert_eq!(members(&lobby, ROOM_TWO), vec![C]);
}

#[test]
fn broadcast_stays_in_room() {
    let mut lobby: Lobby<()> = Lobby::new();
    join(&mut lobby, ROOM_ONE, A);
    join(&mut lobby, ROOM_ONE, B);
    join(&mut lobby, ROOM_TWO, C);
    let d = say(&lobby, ROOM_TWO, C, "only us");
    assert_eq!(sorted(d), vec![(C, envelope("Message", "only us"))]);
}

#[test]
fn relay_to_empty_room_is_noop() {
    let lobby: Lobby<()> = Lobby::new();
    assert!(say(&lobby, ROOM_ONE, A, "anyone?").is_empty());
}

#[test]
fn whisper_crosses_rooms() {
    let mut lobby: Lobby<()> = Lobby::new();
    join(&mut lobby, ROOM_ONE, A);
    join(&mut lobby, ROOM_TWO, B);
    let text = format!("\\w {}", B_TEXT);
    let d = say(&lobby, ROOM_ONE, A, &text);
    let expected = format!("{{\"content\":\"\\\\w {}\",\"kind\":\"Message\"}}", B_TEXT);
    assert_eq!(sorted(d), vec![(B, expected)]);
}

#[test]
fn whisper_with_bad_token_is_dropped() {
    let mut lobby: Lobby<()> = Lobby::new();
    join(&mut lobby, ROOM_ONE, A);
    assert!(say(&lobby, ROOM_ONE, A, "\\w nobody hi").is_empty());
    assert!(say(&lobby, ROOM_ONE, A, "\\w").is_empty());
    assert!(say(&lobby, ROOM_ONE, A, "\\wx").is_empty());
}

#[test]
fn whisper_to_unknown_session_is_dropped() {
    let mut lobby: Lobby<()> = Lobby::new();
    join(&mut lobby, ROOM_ONE, A);
    assert!(say(&lobby, ROOM_ONE, A, "\\w 00000000-0000-0000-0000-0000000000ff hi").is_empty());
}

#[test]
fn whisper_reads_uuid_forms() {
    let mut lobby: Lobby<()> = Lobby::new();
    join(&mut lobby, ROOM_ONE, B);
    let d = say(&lobby, ROOM_ONE, A, "\\w 0123456789ABCDEF0123456789ABCDEF");
    assert_eq!(d.len(), 1);
    assert_eq!(d[0].to, B);
}

#[test]
fn whisper_helpers() {
    let mut lobby: Lobby<()> = Lobby::new();
    join(&mut lobby, ROOM_ONE, A);
    let text = "x".to_string();
    let d = lobby.whisper(Some(A), &text);
    assert_eq!(sorted(d), vec![(A, "x".to_string())]);
    assert!(lobby.whisper(Some(B), &text).is_empty());
    assert!(lobby.whisper(None, &text).is_empty());
    assert_eq!(lobby.send_message(&text, A).len(), 1);
    assert!(lobby.send_message(&text, C).is_empty());
}

#[test]
fn message_text_is_escaped() {
    let mut lobby: Lobby<()> = Lobby::new();
    join(&mut lobby, ROOM_ONE, A);
    let d = say(&lobby, ROOM_ONE, A, "say \"hi\"\n\ttab\u{1}é");
    assert_eq!(
        sorted(d),
        vec![(A, "{\"content\":\"say \\\"hi\\\"\\n\\ttab\\u0001é\",\"kind\":\"Message\"}".to_string())]
    );
}

#[test]
fn each_session_keeps_its_own_handle() {
    let mut lobby: Lobby<u32> = Lobby::new();
    lobby.register(Connect { addr: 5, lobby_id: ROOM_ONE, self_id: A });
    lobby.register(Connect { addr: 6, lobby_id: ROOM_ONE, self_id: B });
    lobby.register(Connect { addr: 7, lobby_id: ROOM_ONE, self_id: A });
    assert_eq!(lobby.outbound(A), Some(&5));
    assert_eq!(lobby.outbound(B), Some(&6));
    lobby.deregister(Disconnect { room_id: ROOM_ONE, id: A });
    assert_eq!(lobby.outbound(A), None);
    assert_eq!(lobby.outbound(B), Some(&6));
}
