use crate::ids::{hyphenated, parse_session_id, parsed_uuid};
use crate::messages::{envelope_text, id_envelope, ClientActorMessage, Connect, DataType, Disconnect, MessagePayload, WsMessage};
use std::collections::{HashMap, HashSet};
use vstd::prelude::*;
use vstd::string::StrSliceExecFns;

verus! {

broadcast use vstd::std_specs::hash::group_hash_axioms;

/// One text to push to the client of session `to`.
pub struct Delivery {
    pub to: u128,
    pub msg: WsMessage,
}

/// The sessions that a list of deliveries reaches, in order.
pub open spec fn targets(d: Seq<Delivery>) -> Seq<u128> {
    d.map_values(|x: Delivery| x.to)
}

/// Every delivery of the list carries `text`.
pub open spec fn all_carry(d: Seq<Delivery>, text: Seq<char>) -> bool {
    forall|i: int| 0 <= i < d.len() ==> (#[trigger] d[i]).msg.0@ == text
}

/// One delivery of `text` to each member of `set`, each member once.
fn fan_out(set: &HashSet<u128>, text: &String) -> (r: Vec<Delivery>)
    ensures
        targets(r@).no_duplicates(),
        targets(r@).to_set() == set@,
        all_carry(r@, text@),
{
    let mut out: Vec<Delivery> = Vec::new();
    for m in it: set.iter()
        invariant
            it.seq().unref().to_set() == set@,
            it.seq().unref().no_duplicates(),
            out@.len() == it.index(),
            targets(out@) == it.seq().unref().take(it.index()),
            all_carry(out@, text@),
            it.index() == it.seq().len() ==> targets(out@).to_set() == set@ && targets(out@).no_duplicates(),
    {
        proof {
            assert(it.seq().unref().take(it.index() + 1) =~= it.seq().unref().take(it.index()).push(*m));
        }
        out.push(Delivery { to: *m, msg: WsMessage(text.clone()) });
        proof {
            assert(targets(out@) =~= it.seq().unref().take(it.index() + 1));
            assert(it.seq().unref().take(it.seq().len() as int) =~= it.seq().unref());
        }
    }
    out
}


/// A registered session: the room it joined and the handle that reaches its
/// client.
pub struct Session<S> {
    pub room_id: u128,
    pub outbound: S,
}

/// What the registry holds, abstractly: the room of each session, and the
/// members of each room.
pub struct LobbyView {
    pub sessions: Map<u128, u128>,
    pub rooms: Map<u128, Set<u128>>,
}

/// The members of `room`: empty where no such room is held.
pub open spec fn members(v: LobbyView, room: u128) -> Set<u128> {
    if v.rooms.contains_key(room) {
        v.rooms[room]
    } else {
        Set::empty()
    }
}

/// Rooms and sessions agree: no room is empty, each member of a room is a
/// session of that room, and each session is a member of its room.
pub open spec fn consistent(v: LobbyView) -> bool {
    &&& forall|r: u128| #[trigger] v.rooms.contains_key(r) ==> !v.rooms[r].is_empty()
    &&& forall|r: u128, s: u128|
        v.rooms.contains_key(r) && #[trigger] v.rooms[r].contains(s) ==> v.sessions.contains_key(s)
            && v.sessions[s] == r
    &&& forall|s: u128| #[trigger]
        v.sessions.contains_key(s) ==> v.rooms.contains_key(v.sessions[s]) && v.rooms[v.sessions[s]].contains(
            s,
        )
}

/// `s` is a session of `room`.
pub open spec fn is_member_of(v: LobbyView, room: u128, s: u128) -> bool {
    v.sessions.contains_key(s) && v.sessions[s] == room
}

/// The state after `s` joins `room`; a known session changes nothing.
pub open spec fn registered(v: LobbyView, room: u128, s: u128) -> LobbyView {
    if v.sessions.contains_key(s) {
        v
    } else {
        LobbyView {
            sessions: v.sessions.insert(s, room),
            rooms: v.rooms.insert(room, members(v, room).insert(s)),
        }
    }
}

/// The state after `s` leaves `room`: its session goes, and the room goes with
/// its last member. Where `s` is no session of `room`, nothing changes.
pub open spec fn deregistered(v: LobbyView, room: u128, s: u128) -> LobbyView {
    if is_member_of(v, room, s) {
        LobbyView {
            sessions: v.sessions.remove(s),
            rooms: if members(v, room).remove(s).is_empty() {
                v.rooms.remove(room)
            } else {
                v.rooms.insert(room, members(v, room).remove(s))
            },
        }
    } else {
        v
    }
}

/// Who is told that `s` left `room`: the other members, where `s` is one.
pub open spec fn farewell_targets(v: LobbyView, room: u128, s: u128) -> Set<u128> {
    if is_member_of(v, room, s) {
        members(v, room).remove(s)
    } else {
        Set::empty()
    }
}

/// Who a text addressed to `target` reaches: that session, where it is one.
pub open spec fn reachable(v: LobbyView, target: Option<u128>) -> Seq<u128> {
    match target {
        Some(t) => if v.sessions.contains_key(t) {
            seq![t]
        } else {
            Seq::empty()
        },
        None => Seq::empty(),
    }
}

/// The text starts with the whisper marker `\w`.
pub open spec fn is_whisper(t: Seq<char>) -> bool {
    t.len() >= 2 && t[0] == '\\' && t[1] == 'w'
}

/// The index of the first space in `t` at or after `i`, or the length of `t`.
pub open spec fn space_from(t: Seq<char>, i: int) -> int
    decreases t.len() - i,
{
    if i >= t.len() {
        t.len() as int
    } else if t[i] == ' ' {
        i
    } else {
        space_from(t, i + 1)
    }
}

/// The second of the space-separated fields of `t`, if `t` holds a space.
pub open spec fn whisper_token(t: Seq<char>) -> Option<Seq<char>> {
    let p = space_from(t, 0);
    if p >= t.len() {
        None
    } else {
        Some(t.subrange(p + 1, space_from(t, p + 1)))
    }
}

/// Who a relayed text reaches: for a whisper, the session its token names;
/// otherwise (see `relay`) the members of the room.
pub open spec fn whisper_targets(v: LobbyView, t: Seq<char>) -> Seq<u128> {
    match whisper_token(t) {
        Some(tok) => reachable(v, parsed_uuid(tok)),
        None => Seq::empty(),
    }
}

/// Joining adds exactly the new session to its room and keeps rooms and
/// sessions in agreement; no other room changes.
pub proof fn register_adds_member(v: LobbyView, room: u128, s: u128)
    requires
        consistent(v),
    ensures
        consistent(registered(v, room, s)),
        !v.sessions.contains_key(s) ==> members(registered(v, room, s), room) == members(v, room).insert(s),
        !v.sessions.contains_key(s) ==> !members(v, room).contains(s),
        forall|r: u128| r != room ==> members(#[trigger] registered(v, room, s), r) == members(v, r),
{
}

/// Leaving removes exactly that session from its room; a room whose only
/// member leaves is dropped, and rooms and sessions stay in agreement.
pub proof fn deregister_removes_member(v: LobbyView, room: u128, s: u128)
    requires
        consistent(v),
    ensures
        consistent(deregistered(v, room, s)),
        is_member_of(v, room, s) ==> members(deregistered(v, room, s), room) == members(v, room).remove(s),
        is_member_of(v, room, s) && members(v, room) == Set::<u128>::empty().insert(s)
            ==> !deregistered(v, room, s).rooms.contains_key(room),
        is_member_of(v, room, s) && members(v, room) != Set::<u128>::empty().insert(s)
            ==> deregistered(v, room, s).rooms.contains_key(room),
        forall|r: u128| r != room ==> members(#[trigger] deregistered(v, room, s), r) == members(v, r),
{
    if is_member_of(v, room, s) {
        let rest = members(v, room).remove(s);
        if members(v, room) == Set::<u128>::empty().insert(s) {
            assert(rest =~= Set::empty());
        } else {
            assert(!members(v, room).is_empty());
            if rest.is_empty() {
                assert(members(v, room) =~= Set::<u128>::empty().insert(s));
            }
        }
        if rest.is_empty() {
            assert(members(deregistered(v, room, s), room) =~= rest);
        }
    }
}

/// Leaving twice is leaving once: the second call changes nothing and tells
/// nobody.
pub proof fn deregister_idempotent(v: LobbyView, room: u128, s: u128)
    requires
        consistent(v),
    ensures
        deregistered(deregistered(v, room, s), room, s) == deregistered(v, room, s),
        farewell_targets(deregistered(v, room, s), room, s) == Set::<u128>::empty(),
{
}

/// One change of membership: a session joins a room, or leaves it.
pub enum Membership {
    Join { room: u128, id: u128 },
    Leave { room: u128, id: u128 },
}

/// The session a change is about.
pub open spec fn change_id(c: Membership) -> u128 {
    match c {
        Membership::Join { id, .. } => id,
        Membership::Leave { id, .. } => id,
    }
}

/// The state after one change.
pub open spec fn apply_change(v: LobbyView, c: Membership) -> LobbyView {
    match c {
        Membership::Join { room, id } => registered(v, room, id),
        Membership::Leave { room, id } => deregistered(v, room, id),
    }
}

/// The state after the changes, in order.
pub open spec fn apply_all(v: LobbyView, cs: Seq<Membership>) -> LobbyView
    decreases cs.len(),
{
    if cs.len() == 0 {
        v
    } else {
        apply_change(apply_all(v, cs.drop_last()), cs.last())
    }
}

/// Each join names a session that no earlier change named.
pub open spec fn fresh_joins(cs: Seq<Membership>) -> bool {
    forall|i: int, j: int|
        0 <= j < i < cs.len() && (#[trigger] cs[i]) is Join ==> change_id(#[trigger] cs[j]) != change_id(
            cs[i],
        )
}

/// `id` joined `room` somewhere in the changes.
pub open spec fn joined(cs: Seq<Membership>, room: u128, id: u128) -> bool {
    exists|i: int| 0 <= i < cs.len() && #[trigger] cs[i] == (Membership::Join { room, id })
}

/// `id` left `room` somewhere in the changes.
pub open spec fn left(cs: Seq<Membership>, room: u128, id: u128) -> bool {
    exists|i: int| 0 <= i < cs.len() && #[trigger] cs[i] == (Membership::Leave { room, id })
}

/// The registry with no sessions and no rooms.
pub open spec fn empty_lobby() -> LobbyView {
    LobbyView { sessions: Map::empty(), rooms: Map::empty() }
}

/// After any run of joins and leaves from an empty registry, where every
/// join brings a new session, the members of each room are exactly the
/// sessions that joined it less those that left it, and no room is empty.
pub proof fn membership_is_joins_less_leaves(cs: Seq<Membership>)
    requires
        fresh_joins(cs),
    ensures
        consistent(apply_all(empty_lobby(), cs)),
        forall|room: u128, id: u128|
            #[trigger] members(apply_all(empty_lobby(), cs), room).contains(id) <==> joined(cs, room, id)
                && !left(cs, room, id),
    decreases cs.len(),
{
    let v = apply_all(empty_lobby(), cs);
    if cs.len() == 0 {
        assert(consistent(v));
    } else {
        let pre = cs.drop_last();
        let c = cs.last();
        assert forall|i: int, j: int|
            0 <= j < i < pre.len() && (#[trigger] pre[i]) is Join implies change_id(#[trigger] pre[j])
            != change_id(pre[i]) by {
            assert(pre[i] == cs[i] && pre[j] == cs[j]);
        }
        membership_is_joins_less_leaves(pre);
        let u = apply_all(empty_lobby(), pre);
        assert(v == apply_change(u, c));
        assert forall|room: u128, id: u128| #[trigger] joined(cs, room, id) <==> joined(pre, room, id) || c == (
            Membership::Join { room, id }) by {
            if joined(cs, room, id) {
                let i = choose|i: int| 0 <= i < cs.len() && #[trigger] cs[i] == (Membership::Join { room, id });
                if i < pre.len() {
                    assert(pre[i] == cs[i]);
                }
            }
            if joined(pre, room, id) {
                let i = choose|i: int| 0 <= i < pre.len() && #[trigger] pre[i] == (Membership::Join { room, id });
                assert(cs[i] == pre[i]);
            }
            if c == (Membership::Join { room, id }) {
                assert(cs[cs.len() - 1] == c);
            }
        }
        assert forall|room: u128, id: u128| #[trigger] left(cs, room, id) <==> left(pre, room, id) || c == (
            Membership::Leave { room, id }) by {
            if left(cs, room, id) {
                let i = choose|i: int| 0 <= i < cs.len() && #[trigger] cs[i] == (Membership::Leave { room, id });
                if i < pre.len() {
                    assert(pre[i] == cs[i]);
                }
            }
            if left(pre, room, id) {
                let i = choose|i: int| 0 <= i < pre.len() && #[trigger] pre[i] == (Membership::Leave { room, id });
                assert(cs[i] == pre[i]);
            }
            if c == (Membership::Leave { room, id }) {
                assert(cs[cs.len() - 1] == c);
            }
        }
        match c {
            Membership::Join { room: r, id: s } => {
                register_adds_member(u, r, s);
                assert forall|room: u128, id: u128| !(joined(pre, room, s) || left(pre, room, id) && id == s) by {
                    if joined(pre, room, s) {
                        let i = choose|i: int| 0 <= i < pre.len() && #[trigger] pre[i] == (Membership::Join { room, id: s });
                        assert(cs[i] == pre[i]);
                        assert(cs[cs.len() - 1] == c);
                    }
                    if left(pre, room, id) && id == s {
                        let i = choose|i: int| 0 <= i < pre.len() && #[trigger] pre[i] == (Membership::Leave { room, id });
                        assert(cs[i] == pre[i]);
                        assert(cs[cs.len() - 1] == c);
                    }
                }
                assert(!u.sessions.contains_key(s)) by {
                    if u.sessions.contains_key(s) {
                        assert(members(u, u.sessions[s]).contains(s));
                    }
                }
                assert forall|room: u128, id: u128|
                    #[trigger] members(v, room).contains(id) <==> joined(cs, room, id) && !left(cs, room, id) by {
                    assert(members(u, room).contains(id) <==> joined(pre, room, id) && !left(pre, room, id));
                    if room != r {
                        assert(members(v, room) == members(u, room));
                    }
                }
            },
            Membership::Leave { room: r, id: s } => {
                deregister_removes_member(u, r, s);
                assert forall|room: u128, id: u128|
                    #[trigger] members(v, room).contains(id) <==> joined(cs, room, id) && !left(cs, room, id) by {
                    assert(members(u, room).contains(id) <==> joined(pre, room, id) && !left(pre, room, id));
                    if room != r {
                        assert(members(v, room) == members(u, room));
                    } else if !is_member_of(u, r, s) {
                        assert(v == u);
                        assert(!members(u, r).contains(s));
                    }
                }
            },
        }
    }
}

/// The registry of sessions and rooms.
pub struct Lobby<S> {
    sessions: HashMap<u128, Session<S>>,
    rooms: HashMap<u128, HashSet<u128>>,
}

impl<S> View for Lobby<S> {
    type V = LobbyView;

    closed spec fn view(&self) -> LobbyView {
        LobbyView {
            sessions: self.sessions@.map_values(|x: Session<S>| x.room_id),
            rooms: self.rooms@.map_values(|h: HashSet<u128>| h@),
        }
    }
}

impl<S> Lobby<S> {
    /// The handle that reaches the client of each session.
    pub closed spec fn handles(&self) -> Map<u128, S> {
        self.sessions@.map_values(|x: Session<S>| x.outbound)
    }

    /// Rooms and sessions agree, and each session has its handle.
    pub open spec fn wf(&self) -> bool {
        &&& consistent(self@)
        &&& self.handles().dom() == self@.sessions.dom()
    }

    /// An empty registry.
    pub fn new() -> (r: Self)
        ensures
            r.wf(),
            r@.sessions == Map::<u128, u128>::empty(),
            r@.rooms == Map::<u128, Set<u128>>::empty(),
            r.handles() == Map::<u128, S>::empty(),
    {
        let r = Lobby { sessions: HashMap::new(), rooms: HashMap::new() };
        assert(r.handles().dom() =~= r@.sessions.dom());
        assert(r@.sessions =~= Map::<u128, u128>::empty());
        assert(r@.rooms =~= Map::<u128, Set<u128>>::empty());
        assert(r.handles() =~= Map::<u128, S>::empty());
        r
    }

    /// Whether `id` is a registered session.
    pub fn has_session(&self, id: u128) -> (r: bool)
        ensures
            r == self@.sessions.contains_key(id),
    {
        self.sessions.contains_key(&id)
    }

    /// Whether a room `room` is held.
    pub fn has_room(&self, room: u128) -> (r: bool)
        ensures
            r == self@.rooms.contains_key(room),
    {
        self.rooms.contains_key(&room)
    }

    /// The handle that reaches the client of session `id`, if it is one.
    pub fn outbound(&self, id: u128) -> (r: Option<&S>)
        requires
            self.wf(),
        ensures
            match r {
                Some(h) => self@.sessions.contains_key(id) && *h == self.handles()[id],
                None => !self@.sessions.contains_key(id),
            },
    {
        match self.sessions.get(&id) {
            Some(session) => Some(&session.outbound),
            None => None,
        }
    }

    /// The members of `room`, each once, in no particular order.
    pub fn room_members(&self, room: u128) -> (r: Vec<u128>)
        ensures
            r@.no_duplicates(),
            r@.to_set() == members(self@, room),
    {
        let mut out: Vec<u128> = Vec::new();
        match self.rooms.get(&room) {
            Some(set) => {
                for m in it: set.iter()
                    invariant
                        it.seq().unref().to_set() == set@,
                        it.seq().unref().no_duplicates(),
                        out@ == it.seq().unref().take(it.index()),
                        it.index() == it.seq().len() ==> out@.to_set() == set@ && out@.no_duplicates(),
                {
                    proof {
                        assert(it.seq().unref().take(it.index() + 1) =~= it.seq().unref().take(
                            it.index(),
                        ).push(*m));
                        assert(it.seq().unref().take(it.seq().len() as int) =~= it.seq().unref());
                    }
                    out.push(*m);
                }
            },
            None => {
                assert(out@.to_set() =~= Set::<u128>::empty());
            },
        }
        out
    }

    /// Joins session `msg.self_id` to room `msg.lobby_id`, creating the room
    /// if needed. Every earlier member is told of the newcomer, then the
    /// newcomer itself, last, once its session is held. An id that is already
    /// a session changes nothing and tells nobody.
    pub fn register(&mut self, msg: Connect<S>) -> (r: Vec<Delivery>)
        requires
            old(self).wf(),
        ensures
            final(self).wf(),
            final(self)@ == registered(old(self)@, msg.lobby_id, msg.self_id),
            final(self).handles() == if old(self)@.sessions.contains_key(msg.self_id) {
                old(self).handles()
            } else {
                old(self).handles().insert(msg.self_id, msg.addr)
            },
            old(self)@.sessions.contains_key(msg.self_id) ==> r@.len() == 0,
            !old(self)@.sessions.contains_key(msg.self_id) ==> {
                &&& r@.len() > 0
                &&& targets(r@).no_duplicates()
                &&& targets(r@).drop_last().to_set() == members(old(self)@, msg.lobby_id)
                &&& targets(r@).last() == msg.self_id
                &&& all_carry(r@, envelope_text(DataType::Connect, hyphenated(msg.self_id)))
            },
            forall|i: int| 0 <= i < r@.len() ==> final(self)@.sessions.contains_key(#[trigger] r@[i].to),
    {
        let id = msg.self_id;
        let room = msg.lobby_id;
        if self.sessions.contains_key(&id) {
            return Vec::new();
        }
        proof {
            register_adds_member(self@, room, id);
        }
        let ghost v0 = self@;
        let ghost h0 = self.handles();
        let ghost addr = msg.addr;
        let payload = id_envelope(DataType::Connect, id);
        let mut set = match self.rooms.remove(&room) {
            Some(set) => set,
            None => HashSet::new(),
        };
        let mut out = fan_out(&set, &payload);
        let ghost before = out@;
        set.insert(id);
        self.rooms.insert(room, set);
        self.sessions.insert(id, Session { room_id: room, outbound: msg.addr });
        out.push(Delivery { to: id, msg: WsMessage(payload) });
        proof {
            assert(self@.sessions =~= v0.sessions.insert(id, room));
            assert(self.handles() =~= h0.insert(id, addr));
            assert(self.handles().dom() =~= self@.sessions.dom());
            assert(self@.rooms =~= v0.rooms.insert(room, members(v0, room).insert(id)));
            assert(targets(out@).drop_last() =~= targets(before));
            assert(targets(out@) =~= targets(before).push(id));
            assert(!targets(before).contains(id)) by {
                if targets(before).contains(id) {
                    assert(targets(before).to_set().contains(id));
                }
            }
            assert forall|i: int| 0 <= i < out@.len() implies self@.sessions.contains_key(
                #[trigger] out@[i].to,
            ) by {
                if i < before.len() {
                    assert(targets(before)[i] == out@[i].to);
                    assert(targets(before).to_set().contains(out@[i].to));
                }
            }
        }
        out
    }

    /// Takes session `msg.id` out of room `msg.room_id`: the session goes,
    /// the other members are told, and the room goes with its last member.
    /// Where `msg.id` is no session of that room (already gone, say), nothing
    /// changes and nobody is told.
    pub fn deregister(&mut self, msg: Disconnect) -> (r: Vec<Delivery>)
        requires
            old(self).wf(),
        ensures
            final(self).wf(),
            final(self)@ == deregistered(old(self)@, msg.room_id, msg.id),
            final(self).handles() == if is_member_of(old(self)@, msg.room_id, msg.id) {
                old(self).handles().remove(msg.id)
            } else {
                old(self).handles()
            },
            targets(r@).no_duplicates(),
            targets(r@).to_set() == farewell_targets(old(self)@, msg.room_id, msg.id),
            all_carry(r@, envelope_text(DataType::Disconnect, hyphenated(msg.id))),
            forall|i: int| 0 <= i < r@.len() ==> final(self)@.sessions.contains_key(#[trigger] r@[i].to),
    {
        let id = msg.id;
        let room = msg.room_id;
        match self.sessions.get(&id) {
            Some(session) => {
                if session.room_id != room {
                    assert(targets(Seq::<Delivery>::empty()) =~= Seq::<u128>::empty());
                    return Vec::new();
                }
            },
            None => {
                assert(targets(Seq::<Delivery>::empty()) =~= Seq::<u128>::empty());
                return Vec::new();
            },
        }
        proof {
            deregister_removes_member(self@, room, id);
        }
        let ghost v0 = self@;
        let ghost h0 = self.handles();
        self.sessions.remove(&id);
        let payload = id_envelope(DataType::Disconnect, id);
        let mut set = match self.rooms.remove(&room) {
            Some(set) => set,
            None => HashSet::new(),
        };
        set.remove(&id);
        let out = fan_out(&set, &payload);
        if !set.is_empty() {
            self.rooms.insert(room, set);
            proof {
                assert(self@.rooms =~= v0.rooms.insert(room, members(v0, room).remove(id)));
            }
        } else {
            proof {
                assert(self@.rooms =~= v0.rooms.remove(room));
            }
        }
        proof {
            assert(self@.sessions =~= v0.sessions.remove(id));
            assert(self.handles() =~= h0.remove(id));
            assert(self.handles().dom() =~= self@.sessions.dom());
            assert forall|i: int| 0 <= i < out@.len() implies self@.sessions.contains_key(
                #[trigger] out@[i].to,
            ) by {
                assert(targets(out@)[i] == out@[i].to);
                assert(targets(out@).to_set().contains(out@[i].to));
                assert(v0.rooms[room].contains(out@[i].to));
            }
        }
        out
    }

    /// Pushes `message` to session `id_to`, where it is a session; an
    /// unknown id is dropped.
    pub fn send_message(&self, message: &String, id_to: u128) -> (r: Vec<Delivery>)
        ensures
            targets(r@) == reachable(self@, Some(id_to)),
            all_carry(r@, message@),
            forall|i: int| 0 <= i < r@.len() ==> self@.sessions.contains_key(#[trigger] r@[i].to),
    {
        let mut out: Vec<Delivery> = Vec::new();
        if self.sessions.contains_key(&id_to) {
            out.push(Delivery { to: id_to, msg: WsMessage(message.clone()) });
        }
        assert(targets(out@) =~= reachable(self@, Some(id_to)));
        out
    }

    /// Pushes `message` to the session that a whisper named, if its token
    /// was read as an id and that id is a session, whatever its room.
    pub fn whisper(&self, target: Option<u128>, message: &String) -> (r: Vec<Delivery>)
        ensures
            targets(r@) == reachable(self@, target),
            all_carry(r@, message@),
            forall|i: int| 0 <= i < r@.len() ==> self@.sessions.contains_key(#[trigger] r@[i].to),
    {
        match target {
            Some(t) => self.send_message(message, t),
            None => {
                assert(targets(Seq::<Delivery>::empty()) =~= Seq::<u128>::empty());
                Vec::new()
            },
        }
    }

    /// Relays text that session `msg.id` sent into room `msg.room_id`, as a
    /// Message notification. Text that starts with `\w` is a whisper: it goes
    /// only to the session whose id is its second space-separated field, in
    /// whatever room, and nowhere if that field is missing, is not an id, or
    /// names no session. Any other text goes to every member of the room,
    /// the sender included; a room with no members gets nothing.
    pub fn relay(&self, msg: &ClientActorMessage) -> (r: Vec<Delivery>)
        requires
            self.wf(),
        ensures
            all_carry(r@, envelope_text(DataType::Message, msg.msg@)),
            targets(r@).no_duplicates(),
            is_whisper(msg.msg@) ==> targets(r@) == whisper_targets(self@, msg.msg@),
            !is_whisper(msg.msg@) ==> targets(r@).to_set() == members(self@, msg.room_id),
            forall|i: int| 0 <= i < r@.len() ==> self@.sessions.contains_key(#[trigger] r@[i].to),
    {
        let payload = MessagePayload { kind: DataType::Message, content: msg.msg.clone() };
        let text = payload.to_json();
        let body = msg.msg.as_str();
        if starts_with_whisper(body) {
            let r = match whisper_token_of(body) {
                Some(tok) => self.whisper(parse_session_id(tok), &text),
                None => {
                    assert(targets(Seq::<Delivery>::empty()) =~= Seq::<u128>::empty());
                    Vec::new()
                },
            };
            r
        } else {
            match self.rooms.get(&msg.room_id) {
                Some(set) => {
                    let r = fan_out(set, &text);
                    proof {
                        assert forall|i: int| 0 <= i < r@.len() implies self@.sessions.contains_key(
                            #[trigger] r@[i].to,
                        ) by {
                            assert(targets(r@)[i] == r@[i].to);
                            assert(targets(r@).to_set().contains(r@[i].to));
                            assert(self@.rooms[msg.room_id].contains(r@[i].to));
                        }
                    }
                    r
                },
                None => {
                    assert(targets(Seq::<Delivery>::empty()) =~= Seq::<u128>::empty());
                    Vec::new()
                },
            }
        }
    }
}

impl<S> Default for Lobby<S> {
    fn default() -> (r: Self)
        ensures
            r.wf(),
            r@.sessions == Map::<u128, u128>::empty(),
            r@.rooms == Map::<u128, Set<u128>>::empty(),
    {
        Lobby::new()
    }
}

/// Whether the text starts with the whisper marker.
fn starts_with_whisper(t: &str) -> (r: bool)
    ensures
        r == is_whisper(t@),
{
    let n = t.unicode_len();
    n >= 2 && t.get_char(0) == '\\' && t.get_char(1) == 'w'
}

/// The second space-separated field of the text, if it holds a space.
fn whisper_token_of(t: &str) -> (r: Option<&str>)
    ensures
        match r {
            Some(x) => whisper_token(t@) == Some(x@),
            None => whisper_token(t@) is None,
        },
{
    let n = t.unicode_len();
    let mut i: usize = 0;
    while i < n && t.get_char(i) != ' '
        invariant
            i <= n,
            n == t@.len(),
            space_from(t@, i as int) == space_from(t@, 0),
        decreases n - i,
    {
        i = i + 1;
    }
    if i == n {
        return None;
    }
    let start = i + 1;
    let mut j: usize = start;
    while j < n && t.get_char(j) != ' '
        invariant
            start <= j <= n,
            n == t@.len(),
            space_from(t@, j as int) == space_from(t@, start as int),
        decreases n - j,
    {
        j = j + 1;
    }
    Some(t.substring_char(start, j))
}

} // verus!
