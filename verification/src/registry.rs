//! The coordinator's state as mathematics: which sessions are registered,
//! which rooms exist, and what each of the three operations does to them.
//!
//! A session id maps to the handle of its connection; a room id maps to the
//! ids of its members, in the order in which they joined.

use crate::messages::{connected_notice, disconnected_notice, publish_notice};
use crate::messages::{DeliveryView, SessionMessageView};
use vstd::prelude::*;

verus! {

/// Why a registration was turned down.
#[derive(Debug, Clone, Copy, PartialEq, Eq, Structural)]
pub enum RegisterError {
    /// The session id is registered already.
    SessionIdTaken,
    /// No room waits for a partner, and the id offered for a new room names
    /// an existing one.
    RoomIdTaken,
}

/// The sessions and rooms of a coordinator.
pub struct RegistryView {
    pub sessions: Map<Seq<char>, u64>,
    pub rooms: Map<Seq<char>, Seq<Seq<char>>>,
}

impl RegistryView {
    /// No sessions and no rooms.
    pub open spec fn empty() -> RegistryView {
        RegistryView { sessions: Map::empty(), rooms: Map::empty() }
    }

    /// `session_id` is one of the members of the room `room_id`.
    pub open spec fn is_member(self, room_id: Seq<char>, session_id: Seq<char>) -> bool {
        self.rooms.contains_key(room_id) && self.rooms[room_id].contains(session_id)
    }

    /// `session_id` is a member of some room.
    pub open spec fn in_a_room(self, session_id: Seq<char>) -> bool {
        exists|r: Seq<char>| self.is_member(r, session_id)
    }

    /// A room that holds `session_id`, if there is one.
    pub open spec fn room_of(self, session_id: Seq<char>) -> Seq<char> {
        choose|r: Seq<char>| self.is_member(r, session_id)
    }

    /// The room `room_id` has exactly one member.
    pub open spec fn is_open(self, room_id: Seq<char>) -> bool {
        self.rooms.contains_key(room_id) && self.rooms[room_id].len() == 1
    }

    /// The room `room_id` has exactly one member, and it is not `session_id`.
    pub open spec fn is_free_for(self, room_id: Seq<char>, session_id: Seq<char>) -> bool {
        self.is_open(room_id) && !self.rooms[room_id].contains(session_id)
    }

    /// Some room waits for a partner that `session_id` can be.
    pub open spec fn has_free_room(self, session_id: Seq<char>) -> bool {
        exists|r: Seq<char>| self.is_free_for(r, session_id)
    }

    /// A room that waits for a partner that `session_id` can be, if there is
    /// one.
    pub open spec fn free_room(self, session_id: Seq<char>) -> Seq<char> {
        choose|r: Seq<char>| self.is_free_for(r, session_id)
    }

    /// What holds of the state between any two operations: a room has one or
    /// two members, all of them registered; no session is in two rooms; at
    /// most one room waits for a partner.
    pub open spec fn inv(self) -> bool {
        &&& self.sessions.dom().finite()
        &&& self.rooms.dom().finite()
        &&& forall|r: Seq<char>| #[trigger]
            self.rooms.contains_key(r) ==> 1 <= self.rooms[r].len() <= 2
                && self.rooms[r].no_duplicates()
        &&& forall|r: Seq<char>, s: Seq<char>| #[trigger]
            self.is_member(r, s) ==> self.sessions.contains_key(s)
        &&& forall|r1: Seq<char>, r2: Seq<char>, s: Seq<char>|
            #[trigger] self.is_member(r1, s) && #[trigger] self.is_member(r2, s) ==> r1 == r2
        &&& forall|r1: Seq<char>, r2: Seq<char>|
            #[trigger] self.is_open(r1) && #[trigger] self.is_open(r2) ==> r1 == r2
    }

    /// One delivery of `message` to each of `members`, in their order.
    pub open spec fn notices(
        self,
        members: Seq<Seq<char>>,
        message: SessionMessageView,
    ) -> Seq<DeliveryView> {
        Seq::new(
            members.len(),
            |i: int| DeliveryView { to: members[i], addr: self.sessions[members[i]], message },
        )
    }

    /// Whether, and why, a registration under these ids is turned down.
    pub open spec fn register_error(
        self,
        session_id: Seq<char>,
        room_id: Seq<char>,
    ) -> Option<RegisterError> {
        if self.sessions.contains_key(session_id) {
            Some(RegisterError::SessionIdTaken)
        } else if !self.has_free_room(session_id) && self.rooms.contains_key(room_id) {
            Some(RegisterError::RoomIdTaken)
        } else {
            None
        }
    }

    /// The state after the connection `addr` has registered as `session_id`:
    /// it joins the room that waits for a partner, or, where none does, opens
    /// the room `room_id`.
    pub open spec fn register(
        self,
        addr: u64,
        session_id: Seq<char>,
        room_id: Seq<char>,
    ) -> RegistryView {
        let sessions = self.sessions.insert(session_id, addr);
        if self.has_free_room(session_id) {
            let r = self.free_room(session_id);
            RegistryView { sessions, rooms: self.rooms.insert(r, self.rooms[r].push(session_id)) }
        } else {
            RegistryView { sessions, rooms: self.rooms.insert(room_id, seq![session_id]) }
        }
    }

    /// The notices that a registration causes: where the newcomer joins a
    /// room, each member of that room, the newcomer included, is told the
    /// newcomer's id; where it opens a room, nobody is told anything.
    pub open spec fn register_notices(
        self,
        addr: u64,
        session_id: Seq<char>,
        room_id: Seq<char>,
    ) -> Seq<DeliveryView> {
        if self.has_free_room(session_id) {
            let after = self.register(addr, session_id, room_id);
            after.notices(after.rooms[self.free_room(session_id)], connected_notice(session_id))
        } else {
            Seq::empty()
        }
    }

    /// The notices that a publish request causes: each member of the
    /// sender's room, the sender included, gets the text; a sender without a
    /// room reaches nobody.
    pub open spec fn publish_notices(
        self,
        session_id: Seq<char>,
        message: Seq<char>,
    ) -> Seq<DeliveryView> {
        if self.in_a_room(session_id) {
            self.notices(
                self.rooms[self.room_of(session_id)],
                publish_notice(message, session_id),
            )
        } else {
            Seq::empty()
        }
    }

    /// The members of the room of `session_id` that stay behind when it
    /// leaves.
    pub open spec fn partners(self, session_id: Seq<char>) -> Seq<Seq<char>> {
        let members = self.rooms[self.room_of(session_id)];
        members.remove(members.index_of(session_id))
    }

    /// The state after `session_id` has left: the session is forgotten and
    /// its room, if it had one, is gone, whoever else was in it.
    pub open spec fn disconnect(self, session_id: Seq<char>) -> RegistryView {
        if !self.sessions.contains_key(session_id) {
            self
        } else if self.in_a_room(session_id) {
            RegistryView {
                sessions: self.sessions.remove(session_id),
                rooms: self.rooms.remove(self.room_of(session_id)),
            }
        } else {
            RegistryView { sessions: self.sessions.remove(session_id), rooms: self.rooms }
        }
    }

    /// The notices that a departure causes: the members that stay behind are
    /// told, the one that leaves is not; an unknown session causes none.
    pub open spec fn disconnect_notices(self, session_id: Seq<char>) -> Seq<DeliveryView> {
        if self.sessions.contains_key(session_id) && self.in_a_room(session_id) {
            self.notices(self.partners(session_id), disconnected_notice())
        } else {
            Seq::empty()
        }
    }
}

/// A state without sessions and rooms is in order.
pub proof fn lemma_empty_inv()
    ensures
        RegistryView::empty().inv(),
{
}

/// At most one room holds a given session, so any room that does is *the*
/// room of that session.
pub proof fn lemma_room_of(v: RegistryView, session_id: Seq<char>, room_id: Seq<char>)
    requires
        v.inv(),
        v.is_member(room_id, session_id),
    ensures
        v.in_a_room(session_id),
        v.room_of(session_id) == room_id,
{
    assert(v.is_member(v.room_of(session_id), session_id));
}

/// At most one room waits for a partner, so any room that does is *the*
/// free room.
pub proof fn lemma_free_room(v: RegistryView, session_id: Seq<char>, room_id: Seq<char>)
    requires
        v.inv(),
        v.is_free_for(room_id, session_id),
    ensures
        v.has_free_room(session_id),
        v.free_room(session_id) == room_id,
{
    let r = v.free_room(session_id);
    assert(v.is_free_for(r, session_id));
    assert(v.is_open(r) && v.is_open(room_id));
}

/// A registration that is not turned down leaves the state in order.
pub proof fn lemma_register_inv(
    v: RegistryView,
    addr: u64,
    session_id: Seq<char>,
    room_id: Seq<char>,
)
    requires
        v.inv(),
        v.register_error(session_id, room_id) is None,
    ensures
        v.register(addr, session_id, room_id).inv(),
{
    let w = v.register(addr, session_id, room_id);
    assert forall|r: Seq<char>| v.rooms.contains_key(r) implies !v.rooms[r].contains(
        session_id,
    ) by {
        if v.rooms[r].contains(session_id) {
            assert(v.is_member(r, session_id));
        }
    }
    if v.has_free_room(session_id) {
        let f = v.free_room(session_id);
        assert(v.is_free_for(f, session_id));
        let old_members = v.rooms[f];
        let members = old_members.push(session_id);
        assert(members.len() == 2);
        assert(members[0] == old_members[0]);
        assert(members[1] == session_id);
        assert(!old_members.contains(session_id));
        assert(old_members[0] != session_id);
        assert(members.no_duplicates());
        assert forall|r: Seq<char>, s: Seq<char>| #[trigger] w.is_member(r, s) implies (r == f
            && s == session_id) || v.is_member(r, s) by {
            if r == f {
                let i = choose|i: int| 0 <= i < members.len() && members[i] == s;
                if i == 0 {
                    assert(old_members[0] == s);
                    assert(v.is_member(r, s));
                }
            } else {
                assert(v.rooms.contains_key(r));
                assert(w.rooms[r] == v.rooms[r]);
            }
        }
        assert forall|r1: Seq<char>, r2: Seq<char>, s: Seq<char>| #[trigger]
            w.is_member(r1, s) && #[trigger] w.is_member(r2, s) implies r1 == r2 by {
            if s == session_id {
                if r1 != f {
                    assert(v.is_member(r1, s));
                }
                if r2 != f {
                    assert(v.is_member(r2, s));
                }
            } else {
                assert(v.is_member(r1, s));
                assert(v.is_member(r2, s));
            }
        }
        assert forall|r1: Seq<char>, r2: Seq<char>| #[trigger] w.is_open(r1) && #[trigger]
            w.is_open(r2) implies r1 == r2 by {
            assert(r1 != f && r2 != f);
            assert(v.is_open(r1) && v.is_open(r2));
        }
    } else {
        let members = seq![session_id];
        assert(members.no_duplicates());
        assert forall|r: Seq<char>, s: Seq<char>| #[trigger] w.is_member(r, s) implies (r
            == room_id && s == session_id) || v.is_member(r, s) by {
            if r == room_id {
                let i = choose|i: int| 0 <= i < members.len() && members[i] == s;
                assert(members[i] == session_id);
            } else {
                assert(v.rooms.contains_key(r));
                assert(w.rooms[r] == v.rooms[r]);
            }
        }
        assert forall|r1: Seq<char>, r2: Seq<char>, s: Seq<char>| #[trigger]
            w.is_member(r1, s) && #[trigger] w.is_member(r2, s) implies r1 == r2 by {
            if s == session_id {
                if r1 != room_id {
                    assert(v.is_member(r1, s));
                }
                if r2 != room_id {
                    assert(v.is_member(r2, s));
                }
            } else {
                assert(v.is_member(r1, s));
                assert(v.is_member(r2, s));
            }
        }
        assert forall|r1: Seq<char>, r2: Seq<char>| #[trigger] w.is_open(r1) && #[trigger]
            w.is_open(r2) implies r1 == r2 by {
            if r1 != room_id {
                assert(v.is_open(r1));
                assert(v.is_free_for(r1, session_id));
            }
            if r2 != room_id {
                assert(v.is_open(r2));
                assert(v.is_free_for(r2, session_id));
            }
        }
    }
}

/// A departure leaves the state in order.
pub proof fn lemma_disconnect_inv(v: RegistryView, session_id: Seq<char>)
    requires
        v.inv(),
    ensures
        v.disconnect(session_id).inv(),
{
    let w = v.disconnect(session_id);
    if v.sessions.contains_key(session_id) {
        assert forall|r: Seq<char>, s: Seq<char>| #[trigger] w.is_member(r, s) implies v.is_member(
            r,
            s,
        ) && s != session_id by {
            assert(v.is_member(r, s));
            if s == session_id {
                lemma_room_of(v, session_id, r);
            }
        }
        assert forall|r1: Seq<char>, r2: Seq<char>, s: Seq<char>| #[trigger]
            w.is_member(r1, s) && #[trigger] w.is_member(r2, s) implies r1 == r2 by {
            assert(v.is_member(r1, s));
            assert(v.is_member(r2, s));
        }
        assert forall|r1: Seq<char>, r2: Seq<char>| #[trigger] w.is_open(r1) && #[trigger]
            w.is_open(r2) implies r1 == r2 by {
            assert(v.is_open(r1) && v.is_open(r2));
        }
    }
}

/// One request to the coordinator.
pub enum Request {
    Register { addr: u64, session_id: Seq<char>, room_id: Seq<char> },
    Publish { session_id: Seq<char>, message: Seq<char> },
    Disconnect { session_id: Seq<char> },
}

impl RegistryView {
    /// The state after one request. A registration that is turned down and
    /// a publish request change nothing.
    pub open spec fn apply(self, request: Request) -> RegistryView {
        match request {
            Request::Register { addr, session_id, room_id } => {
                if self.register_error(session_id, room_id) is None {
                    self.register(addr, session_id, room_id)
                } else {
                    self
                }
            },
            Request::Publish { session_id, message } => self,
            Request::Disconnect { session_id } => self.disconnect(session_id),
        }
    }

    /// The state after a sequence of requests, served one after the other.
    pub open spec fn apply_all(self, requests: Seq<Request>) -> RegistryView
        decreases requests.len(),
    {
        if requests.len() == 0 {
            self
        } else {
            self.apply_all(requests.drop_last()).apply(requests.last())
        }
    }
}

/// Whatever is asked of the coordinator, in whatever order, no room ever
/// holds more than two sessions and no session is ever in two rooms.
pub proof fn lemma_rooms_hold_at_most_two(v: RegistryView, requests: Seq<Request>)
    requires
        v.inv(),
    ensures
        v.apply_all(requests).inv(),
        forall|r: Seq<char>| #[trigger]
            v.apply_all(requests).rooms.contains_key(r) ==> v.apply_all(requests).rooms[r].len()
                <= 2,
    decreases requests.len(),
{
    if requests.len() > 0 {
        let before = v.apply_all(requests.drop_last());
        lemma_rooms_hold_at_most_two(v, requests.drop_last());
        match requests.last() {
            Request::Register { addr, session_id, room_id } => {
                if before.register_error(session_id, room_id) is None {
                    lemma_register_inv(before, addr, session_id, room_id);
                }
            },
            Request::Publish { session_id, message } => {},
            Request::Disconnect { session_id } => {
                lemma_disconnect_inv(before, session_id);
            },
        }
    }
}

/// A room with two members is never joined: a registration leaves it as it
/// is. Where every room is full, the newcomer opens a room of its own.
pub proof fn lemma_full_room_is_never_joined(
    v: RegistryView,
    addr: u64,
    session_id: Seq<char>,
    room_id: Seq<char>,
    full: Seq<char>,
)
    requires
        v.inv(),
        v.register_error(session_id, room_id) is None,
        v.rooms.contains_key(full),
        v.rooms[full].len() == 2,
    ensures
        v.register(addr, session_id, room_id).rooms.contains_key(full),
        v.register(addr, session_id, room_id).rooms[full] == v.rooms[full],
        !v.register(addr, session_id, room_id).is_member(full, session_id),
        (forall|r: Seq<char>| #[trigger] v.rooms.contains_key(r) ==> v.rooms[r].len() == 2) ==> {
            &&& !v.rooms.contains_key(room_id)
            &&& v.register(addr, session_id, room_id).rooms == v.rooms.insert(
                room_id,
                seq![session_id],
            )
            &&& v.register_notices(addr, session_id, room_id) == Seq::<DeliveryView>::empty()
        },
{
    if v.has_free_room(session_id) {
        assert(v.is_free_for(v.free_room(session_id), session_id));
    }
    if v.rooms[full].contains(session_id) {
        assert(v.is_member(full, session_id));
    }
}

/// Where no room exists, the first of two newcomers opens a room and the
/// second joins it; then both, and nobody else, are told the id of the
/// second.
pub proof fn lemma_second_joins_first(
    v: RegistryView,
    first_addr: u64,
    first: Seq<char>,
    first_room: Seq<char>,
    second_addr: u64,
    second: Seq<char>,
    second_room: Seq<char>,
)
    requires
        v.inv(),
        v.rooms == Map::<Seq<char>, Seq<Seq<char>>>::empty(),
        !v.sessions.contains_key(first),
        !v.sessions.contains_key(second),
        first != second,
    ensures
        v.register_error(first, first_room) is None,
        v.register_notices(first_addr, first, first_room) == Seq::<DeliveryView>::empty(),
        v.register(first_addr, first, first_room).register_error(second, second_room) is None,
        v.register(first_addr, first, first_room).register(
            second_addr,
            second,
            second_room,
        ).rooms == v.rooms.insert(first_room, seq![first, second]),
        v.register(first_addr, first, first_room).register_notices(
            second_addr,
            second,
            second_room,
        ) == seq![
            DeliveryView { to: first, addr: first_addr, message: connected_notice(second) },
            DeliveryView { to: second, addr: second_addr, message: connected_notice(second) },
        ],
{
    if v.has_free_room(first) {
        assert(v.is_free_for(v.free_room(first), first));
    }
    let w = v.register(first_addr, first, first_room);
    lemma_register_inv(v, first_addr, first, first_room);
    assert(w.rooms[first_room] == seq![first]);
    assert(!seq![first].contains(second));
    lemma_free_room(w, second, first_room);
    let x = w.register(second_addr, second, second_room);
    assert(seq![first].push(second) =~= seq![first, second]);
    assert(x.rooms =~= v.rooms.insert(first_room, seq![first, second]));
    assert(w.register_notices(second_addr, second, second_room) =~= seq![
        DeliveryView { to: first, addr: first_addr, message: connected_notice(second) },
        DeliveryView { to: second, addr: second_addr, message: connected_notice(second) },
    ]);
}

/// What a member of a room of two publishes reaches both members, the
/// publisher included, with the text and the publisher's id.
pub proof fn lemma_publish_reaches_both(
    v: RegistryView,
    session_id: Seq<char>,
    message: Seq<char>,
    room_id: Seq<char>,
)
    requires
        v.inv(),
        v.is_member(room_id, session_id),
        v.rooms[room_id].len() == 2,
    ensures
        v.rooms[room_id][0] == session_id || v.rooms[room_id][1] == session_id,
        v.publish_notices(session_id, message) == seq![
            DeliveryView {
                to: v.rooms[room_id][0],
                addr: v.sessions[v.rooms[room_id][0]],
                message: publish_notice(message, session_id),
            },
            DeliveryView {
                to: v.rooms[room_id][1],
                addr: v.sessions[v.rooms[room_id][1]],
                message: publish_notice(message, session_id),
            },
        ],
{
    lemma_room_of(v, session_id, room_id);
    assert(v.publish_notices(session_id, message) =~= seq![
        DeliveryView {
            to: v.rooms[room_id][0],
            addr: v.sessions[v.rooms[room_id][0]],
            message: publish_notice(message, session_id),
        },
        DeliveryView {
            to: v.rooms[room_id][1],
            addr: v.sessions[v.rooms[room_id][1]],
            message: publish_notice(message, session_id),
        },
    ]);
}

/// What a session without a room publishes reaches nobody.
pub proof fn lemma_publish_without_room(v: RegistryView, session_id: Seq<char>, message: Seq<char>)
    requires
        !v.in_a_room(session_id),
    ensures
        v.publish_notices(session_id, message) == Seq::<DeliveryView>::empty(),
{
}

/// When one member of a room of two leaves, the other is told so exactly
/// once and the room is gone; the one left behind stays registered without
/// a room, so that its own departure later tells nobody anything, and the
/// id of the one that left is free again.
pub proof fn lemma_partner_is_left_alone(
    v: RegistryView,
    session_id: Seq<char>,
    partner: Seq<char>,
    room_id: Seq<char>,
)
    requires
        v.inv(),
        v.is_member(room_id, session_id),
        v.is_member(room_id, partner),
        session_id != partner,
    ensures
        v.disconnect_notices(session_id) == seq![
            DeliveryView { to: partner, addr: v.sessions[partner], message: disconnected_notice() },
        ],
        !v.disconnect(session_id).rooms.contains_key(room_id),
        !v.disconnect(session_id).sessions.contains_key(session_id),
        v.disconnect(session_id).sessions.contains_key(partner),
        !v.disconnect(session_id).in_a_room(partner),
        v.disconnect(session_id).disconnect_notices(partner) == Seq::<DeliveryView>::empty(),
        v.disconnect(session_id).disconnect(partner).rooms == v.disconnect(session_id).rooms,
{
    lemma_room_of(v, session_id, room_id);
    lemma_room_of(v, partner, room_id);
    let members = v.rooms[room_id];
    let i = members.index_of(session_id);
    let j = members.index_of(partner);
    assert(members[i] == session_id && members[j] == partner);
    assert(members.len() == 2);
    assert(members.remove(i) =~= seq![partner]);
    assert(v.disconnect_notices(session_id) =~= seq![
        DeliveryView { to: partner, addr: v.sessions[partner], message: disconnected_notice() },
    ]);
    let w = v.disconnect(session_id);
    if w.in_a_room(partner) {
        let r = w.room_of(partner);
        assert(w.is_member(r, partner));
        assert(v.is_member(r, partner));
    }
}

/// Telling the coordinator twice that a session is gone is the same as
/// telling it once: the second time nothing changes and nobody is told.
pub proof fn lemma_disconnect_twice(v: RegistryView, session_id: Seq<char>)
    ensures
        v.disconnect(session_id).disconnect(session_id) == v.disconnect(session_id),
        v.disconnect(session_id).disconnect_notices(session_id) == Seq::<DeliveryView>::empty(),
{
}

} // verus!
