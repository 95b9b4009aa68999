//! The coordinator: the one authority over sessions and rooms.
//!
//! It pairs each newcomer with a session that waits alone, relays what a
//! member publishes to its room, and tears a room down the moment a member
//! leaves. It never sends anything itself: each operation returns the
//! deliveries that the transport is to carry out.

use crate::assoc::{distinct_keys, has_key, index_of_key, to_map};
use crate::assoc::{lemma_entry, lemma_key, lemma_len, lemma_push, lemma_remove, lemma_update};
use crate::ident::{is_id_text, new_id};
use crate::messages::{connected_notice, disconnected_notice, publish_notice};
use crate::messages::{deliveries_view, Connect, Delivery, DeliveryView};
use crate::messages::{Disconnect, Publish, SessionMessage};
use crate::registry::{lemma_disconnect_inv, lemma_free_room, lemma_register_inv, lemma_room_of};
use crate::registry::{RegisterError, RegistryView};
use vstd::prelude::*;

verus! {

/// The characters of each id of a list, in order.
pub open spec fn ids_view(ids: Seq<String>) -> Seq<Seq<char>> {
    Seq::new(ids.len(), |i: int| ids[i]@)
}

/// A registered session and the handle of its connection.
#[derive(Debug)]
struct SessionEntry {
    session_id: String,
    addr: u64,
}

/// A room and its members, in the order in which they joined.
#[derive(Debug)]
struct Room {
    room_id: String,
    members: Vec<String>,
}

/// The coordinator's state.
#[derive(Debug)]
pub struct ChatServer {
    sessions: Vec<SessionEntry>,
    rooms: Vec<Room>,
}

impl View for ChatServer {
    type V = RegistryView;

    closed spec fn view(&self) -> RegistryView {
        RegistryView {
            sessions: to_map(self.session_entries()),
            rooms: to_map(self.room_entries()),
        }
    }
}

impl ChatServer {
    /// The stored sessions as keyed entries.
    closed spec fn session_entries(&self) -> Seq<(Seq<char>, u64)> {
        Seq::new(
            self.sessions@.len(),
            |i: int| (self.sessions@[i].session_id@, self.sessions@[i].addr),
        )
    }

    /// The stored rooms as keyed entries.
    closed spec fn room_entries(&self) -> Seq<(Seq<char>, Seq<Seq<char>>)> {
        Seq::new(
            self.rooms@.len(),
            |i: int| (self.rooms@[i].room_id@, ids_view(self.rooms@[i].members@)),
        )
    }

    /// No session id and no room id is stored twice.
    pub closed spec fn well_stored(&self) -> bool {
        distinct_keys(self.session_entries()) && distinct_keys(self.room_entries())
    }

    /// The coordinator is in order: its store is, and so is the state that
    /// the store stands for.
    pub open spec fn wf(&self) -> bool {
        self.well_stored() && self@.inv()
    }

    /// A coordinator without sessions and rooms.
    pub fn new() -> (server: ChatServer)
        ensures
            server.wf(),
            server@ == RegistryView::empty(),
    {
        let server = ChatServer { sessions: Vec::new(), rooms: Vec::new() };
        proof {
            assert(server@.sessions =~= Map::<Seq<char>, u64>::empty());
            assert(server@.rooms =~= Map::<Seq<char>, Seq<Seq<char>>>::empty());
        }
        server
    }

    /// Where the session `session_id` is stored.
    fn find_session(&self, session_id: &String) -> (found: Option<usize>)
        ensures
            match found {
                Some(i) => i < self.sessions@.len() && self.session_entries()[i as int].0
                    == session_id@,
                None => !has_key(self.session_entries(), session_id@),
            },
    {
        let mut i: usize = 0;
        while i < self.sessions.len()
            invariant
                i <= self.sessions@.len(),
                forall|j: int| 0 <= j < i ==> (#[trigger] self.session_entries()[j]).0 != session_id@,
            decreases self.sessions@.len() - i,
        {
            if self.sessions[i].session_id == *session_id {
                return Some(i);
            }
            i += 1;
        }
        None
    }

    /// Where the room `room_id` is stored.
    fn find_room_by_id(&self, room_id: &String) -> (found: Option<usize>)
        ensures
            match found {
                Some(i) => i < self.rooms@.len() && self.room_entries()[i as int].0 == room_id@,
                None => !has_key(self.room_entries(), room_id@),
            },
    {
        let mut i: usize = 0;
        while i < self.rooms.len()
            invariant
                i <= self.rooms@.len(),
                forall|j: int| 0 <= j < i ==> (#[trigger] self.room_entries()[j]).0 != room_id@,
            decreases self.rooms@.len() - i,
        {
            if self.rooms[i].room_id == *room_id {
                return Some(i);
            }
            i += 1;
        }
        None
    }

    /// Where `session_id` stands among `members`.
    fn member_position(members: &Vec<String>, session_id: &String) -> (found: Option<usize>)
        ensures
            match found {
                Some(i) => i < members@.len() && ids_view(members@)[i as int] == session_id@,
                None => !ids_view(members@).contains(session_id@),
            },
    {
        let mut i: usize = 0;
        while i < members.len()
            invariant
                i <= members@.len(),
                forall|j: int| 0 <= j < i ==> (#[trigger] ids_view(members@)[j]) != session_id@,
            decreases members@.len() - i,
        {
            if members[i] == *session_id {
                return Some(i);
            }
            i += 1;
        }
        None
    }

    /// The first room with exactly one member that is not `current_user`.
    fn find_free_user(&self, current_user: &String) -> (found: Option<usize>)
        ensures
            match found {
                Some(i) => i < self.rooms@.len() && self.room_entries()[i as int].1.len() == 1
                    && !self.room_entries()[i as int].1.contains(current_user@),
                None => forall|j: int|
                    0 <= j < self.rooms@.len() ==> !((#[trigger] self.room_entries()[j]).1.len()
                        == 1 && !self.room_entries()[j].1.contains(current_user@)),
            },
    {
        let mut i: usize = 0;
        while i < self.rooms.len()
            invariant
                i <= self.rooms@.len(),
                forall|j: int|
                    0 <= j < i ==> !((#[trigger] self.room_entries()[j]).1.len() == 1
                        && !self.room_entries()[j].1.contains(current_user@)),
            decreases self.rooms@.len() - i,
        {
            if self.rooms[i].members.len() == 1 {
                let position = Self::member_position(&self.rooms[i].members, current_user);
                if position.is_none() {
                    return Some(i);
                }
            }
            i += 1;
        }
        None
    }

    /// The room that holds `session_id`, and where it stands among the
    /// members.
    fn find_room_of(&self, session_id: &String) -> (found: Option<(usize, usize)>)
        ensures
            match found {
                Some((r, m)) => r < self.rooms@.len() && m < self.room_entries()[r as int].1.len()
                    && self.room_entries()[r as int].1[m as int] == session_id@,
                None => forall|j: int|
                    0 <= j < self.rooms@.len() ==> !(#[trigger] self.room_entries()[j]).1.contains(
                        session_id@,
                    ),
            },
    {
        let mut i: usize = 0;
        while i < self.rooms.len()
            invariant
                i <= self.rooms@.len(),
                forall|j: int|
                    0 <= j < i ==> !(#[trigger] self.room_entries()[j]).1.contains(session_id@),
            decreases self.rooms@.len() - i,
        {
            match Self::member_position(&self.rooms[i].members, session_id) {
                Some(m) => {
                    return Some((i, m));
                },
                None => {},
            }
            i += 1;
        }
        None
    }
}

impl ChatServer {
    /// One delivery of `message` to each of `members` that is registered, in
    /// their order.
    fn broadcast(&self, members: &Vec<String>, message: &SessionMessage) -> (deliveries: Vec<
        Delivery,
    >)
        requires
            distinct_keys(self.session_entries()),
            forall|i: int|
                0 <= i < members@.len() ==> self@.sessions.contains_key(
                    #[trigger] ids_view(members@)[i],
                ),
        ensures
            deliveries_view(deliveries@) == self@.notices(ids_view(members@), message@),
    {
        let mut deliveries: Vec<Delivery> = Vec::new();
        let mut i: usize = 0;
        while i < members.len()
            invariant
                i <= members@.len(),
                deliveries@.len() == i,
                distinct_keys(self.session_entries()),
                forall|j: int|
                    0 <= j < members@.len() ==> self@.sessions.contains_key(
                        #[trigger] ids_view(members@)[j],
                    ),
                forall|j: int|
                    0 <= j < i ==> (#[trigger] deliveries@[j])@ == self@.notices(
                        ids_view(members@),
                        message@,
                    )[j],
            decreases members@.len() - i,
        {
            if let Some(s) = self.find_session(&members[i]) {
                proof {
                    lemma_entry(self.session_entries(), s as int);
                }
                deliveries.push(
                    Delivery {
                        to: members[i].clone(),
                        addr: self.sessions[s].addr,
                        message: message.duplicate(),
                    },
                );
            } else {
                proof {
                    assert(self@.sessions.contains_key(ids_view(members@)[i as int]));
                    assert(false);
                }
            }
            i += 1;
        }
        proof {
            assert(deliveries_view(deliveries@) =~= self@.notices(ids_view(members@), message@));
        }
        deliveries
    }

    /// Tells each member of the stored room `room` that `session_id` has
    /// joined.
    fn send_connect_message(&self, room: usize, session_id: &String) -> (deliveries: Vec<
        Delivery,
    >)
        requires
            room < self.rooms@.len(),
            distinct_keys(self.session_entries()),
            forall|i: int|
                0 <= i < self.room_entries()[room as int].1.len() ==> self@.sessions.contains_key(
                    #[trigger] self.room_entries()[room as int].1[i],
                ),
        ensures
            deliveries_view(deliveries@) == self@.notices(
                self.room_entries()[room as int].1,
                connected_notice(session_id@),
            ),
    {
        let message = SessionMessage::connected(session_id);
        proof {
            let members = self.rooms@[room as int].members@;
            assert(self.room_entries()[room as int].1 == ids_view(members));
            assert forall|i: int| 0 <= i < members.len() implies self@.sessions.contains_key(
                #[trigger] ids_view(members)[i],
            ) by {
                assert(self@.sessions.contains_key(self.room_entries()[room as int].1[i]));
            }
        }
        self.broadcast(&self.rooms[room].members, &message)
    }

    /// Hands each member of the stored room `room` the text `message`
    /// published by `from`.
    fn send_publish_message(&self, room: usize, message: &String, from: &String) -> (deliveries:
        Vec<Delivery>)
        requires
            room < self.rooms@.len(),
            distinct_keys(self.session_entries()),
            forall|i: int|
                0 <= i < self.room_entries()[room as int].1.len() ==> self@.sessions.contains_key(
                    #[trigger] self.room_entries()[room as int].1[i],
                ),
        ensures
            deliveries_view(deliveries@) == self@.notices(
                self.room_entries()[room as int].1,
                publish_notice(message@, from@),
            ),
    {
        let notice = SessionMessage::publish(message, from);
        proof {
            let members = self.rooms@[room as int].members@;
            assert(self.room_entries()[room as int].1 == ids_view(members));
            assert forall|i: int| 0 <= i < members.len() implies self@.sessions.contains_key(
                #[trigger] ids_view(members)[i],
            ) by {
                assert(self@.sessions.contains_key(self.room_entries()[room as int].1[i]));
            }
        }
        self.broadcast(&self.rooms[room].members, &notice)
    }

    /// Tells each of `members` that its partner has left.
    fn send_disconnect_message(&self, members: &Vec<String>) -> (deliveries: Vec<Delivery>)
        requires
            distinct_keys(self.session_entries()),
            forall|i: int|
                0 <= i < members@.len() ==> self@.sessions.contains_key(
                    #[trigger] ids_view(members@)[i],
                ),
        ensures
            deliveries_view(deliveries@) == self@.notices(
                ids_view(members@),
                disconnected_notice(),
            ),
    {
        let message = SessionMessage::disconnected();
        self.broadcast(members, &message)
    }
}

impl ChatServer {
    /// A stored room is a room of the state, with the stored members.
    proof fn lemma_room_at(&self, i: int)
        requires
            distinct_keys(self.room_entries()),
            0 <= i < self.rooms@.len(),
        ensures
            self@.rooms.contains_key(self.room_entries()[i].0),
            self@.rooms[self.room_entries()[i].0] == self.room_entries()[i].1,
            self.room_entries()[i].1 == ids_view(self.rooms@[i].members@),
    {
        lemma_entry(self.room_entries(), i);
    }

    /// A room of the state is stored somewhere, with its members.
    proof fn lemma_room_stored(&self, room_id: Seq<char>) -> (i: int)
        requires
            self@.rooms.contains_key(room_id),
        ensures
            0 <= i < self.rooms@.len(),
            self.room_entries()[i].0 == room_id,
            self.room_entries()[i].1 == self@.rooms[room_id],
    {
        lemma_key(self.room_entries(), room_id);
        index_of_key(self.room_entries(), room_id)
    }

    /// Every member of a stored room is registered.
    proof fn lemma_members_registered(&self, i: int)
        requires
            self.wf(),
            0 <= i < self.rooms@.len(),
        ensures
            forall|j: int|
                0 <= j < self.room_entries()[i].1.len() ==> self@.sessions.contains_key(
                    #[trigger] self.room_entries()[i].1[j],
                ),
    {
        self.lemma_room_at(i);
        let room_id = self.room_entries()[i].0;
        let members = self.room_entries()[i].1;
        assert forall|j: int| 0 <= j < members.len() implies self@.sessions.contains_key(
            #[trigger] members[j],
        ) by {
            assert(members.contains(members[j]));
            assert(self@.is_member(room_id, members[j]));
        }
    }

    /// Registers the connection `addr` under `session_id`.
    ///
    /// The newcomer joins the room that waits for a partner, and both
    /// members are told the newcomer's id; where no room waits, it opens the
    /// room `room_id` and nobody is told anything. A `session_id` that is
    /// registered already, or a `room_id` that is needed and names an
    /// existing room, is turned down and changes nothing.
    pub fn register(&mut self, addr: u64, session_id: String, room_id: String) -> (res: Result<
        Vec<Delivery>,
        RegisterError,
    >)
        requires
            old(self).wf(),
        ensures
            final(self).wf(),
            match res {
                Ok(deliveries) => {
                    &&& old(self)@.register_error(session_id@, room_id@) is None
                    &&& final(self)@ == old(self)@.register(addr, session_id@, room_id@)
                    &&& deliveries_view(deliveries@) == old(self)@.register_notices(
                        addr,
                        session_id@,
                        room_id@,
                    )
                },
                Err(e) => {
                    &&& old(self)@.register_error(session_id@, room_id@) == Some(e)
                    &&& final(self)@ == old(self)@
                },
            },
    {
        if let Some(s) = self.find_session(&session_id) {
            proof {
                lemma_entry(self.session_entries(), s as int);
            }
            return Err(RegisterError::SessionIdTaken);
        }
        let ghost before = *self;
        match self.find_free_user(&session_id) {
            Some(i) => {
                let ghost waiting = self.room_entries()[i as int];
                proof {
                    self.lemma_room_at(i as int);
                    lemma_free_room(self@, session_id@, waiting.0);
                }
                self.sessions.push(SessionEntry { session_id: session_id.clone(), addr });
                self.rooms[i].members.push(session_id.clone());
                proof {
                    assert(self.session_entries() =~= before.session_entries().push(
                        (session_id@, addr),
                    ));
                    lemma_push(before.session_entries(), session_id@, addr);
                    assert(ids_view(self.rooms@[i as int].members@) =~= waiting.1.push(
                        session_id@,
                    ));
                    assert(self.room_entries() =~= before.room_entries().update(
                        i as int,
                        (waiting.0, waiting.1.push(session_id@)),
                    ));
                    lemma_update(before.room_entries(), i as int, waiting.1.push(session_id@));
                    lemma_register_inv(before@, addr, session_id@, room_id@);
                    assert(self@ == before@.register(addr, session_id@, room_id@));
                    self.lemma_room_at(i as int);
                    self.lemma_members_registered(i as int);
                }
                let deliveries = self.send_connect_message(i, &session_id);
                Ok(deliveries)
            },
            None => {
                proof {
                    if self@.has_free_room(session_id@) {
                        let r = self@.free_room(session_id@);
                        let j = self.lemma_room_stored(r);
                        assert(self.room_entries()[j].1.len() == 1);
                    }
                }
                if let Some(r) = self.find_room_by_id(&room_id) {
                    proof {
                        lemma_entry(self.room_entries(), r as int);
                    }
                    return Err(RegisterError::RoomIdTaken);
                }
                self.sessions.push(SessionEntry { session_id: session_id.clone(), addr });
                let mut members: Vec<String> = Vec::new();
                members.push(session_id);
                self.rooms.push(Room { room_id, members });
                proof {
                    assert(self.session_entries() =~= before.session_entries().push(
                        (session_id@, addr),
                    ));
                    lemma_push(before.session_entries(), session_id@, addr);
                    assert(ids_view(self.rooms@[self.rooms@.len() - 1].members@)
                        =~= seq![session_id@]);
                    assert(self.room_entries() =~= before.room_entries().push(
                        (room_id@, seq![session_id@]),
                    ));
                    lemma_push(before.room_entries(), room_id@, seq![session_id@]);
                    lemma_register_inv(before@, addr, session_id@, room_id@);
                    assert(self@ == before@.register(addr, session_id@, room_id@));
                }
                let deliveries: Vec<Delivery> = Vec::new();
                proof {
                    assert(deliveries_view(deliveries@) =~= Seq::<DeliveryView>::empty());
                }
                Ok(deliveries)
            },
        }
    }

    /// Relays the text of `msg` to every member of the sender's room, the
    /// sender included. A sender that is in no room reaches nobody.
    pub fn publish(&self, msg: Publish) -> (deliveries: Vec<Delivery>)
        requires
            self.wf(),
        ensures
            deliveries_view(deliveries@) == self@.publish_notices(msg.session_id@, msg.message@),
    {
        match self.find_room_of(&msg.session_id) {
            Some((r, m)) => {
                proof {
                    self.lemma_room_at(r as int);
                    let room = self.room_entries()[r as int];
                    assert(room.1.contains(room.1[m as int]));
                    lemma_room_of(self@, msg.session_id@, room.0);
                    self.lemma_members_registered(r as int);
                }
                self.send_publish_message(r, &msg.message, &msg.session_id)
            },
            None => {
                proof {
                    if self@.in_a_room(msg.session_id@) {
                        let r = self@.room_of(msg.session_id@);
                        let j = self.lemma_room_stored(r);
                        assert(self.room_entries()[j].1.contains(msg.session_id@));
                    }
                }
                let deliveries: Vec<Delivery> = Vec::new();
                proof {
                    assert(deliveries_view(deliveries@) =~= Seq::<DeliveryView>::empty());
                }
                deliveries
            },
        }
    }

    /// Forgets the session of `msg`. Its room, if it has one, is deleted,
    /// and the member that stays behind is told so; the session that leaves
    /// is told nothing. For an unknown session nothing happens.
    pub fn disconnect(&mut self, msg: Disconnect) -> (deliveries: Vec<Delivery>)
        requires
            old(self).wf(),
        ensures
            final(self).wf(),
            final(self)@ == old(self)@.disconnect(msg.session_id@),
            deliveries_view(deliveries@) == old(self)@.disconnect_notices(msg.session_id@),
    {
        let ghost before = *self;
        let ghost id = msg.session_id@;
        let s = match self.find_session(&msg.session_id) {
            Some(s) => s,
            None => {
                let deliveries: Vec<Delivery> = Vec::new();
                proof {
                    assert(deliveries_view(deliveries@) =~= Seq::<DeliveryView>::empty());
                }
                return deliveries;
            },
        };
        proof {
            lemma_entry(self.session_entries(), s as int);
        }
        let deliveries = match self.find_room_of(&msg.session_id) {
            Some((r, m)) => {
                let ghost left = self.room_entries()[r as int];
                proof {
                    self.lemma_room_at(r as int);
                    assert(left.1.contains(left.1[m as int]));
                    lemma_room_of(self@, id, left.0);
                    self.lemma_members_registered(r as int);
                    assert(left.1.no_duplicates());
                    assert(left.1.index_of(id) == m as int);
                }
                let mut room = self.rooms.remove(r);
                room.members.remove(m);
                proof {
                    assert(self.room_entries() =~= before.room_entries().remove(r as int));
                    lemma_remove(before.room_entries(), r as int);
                    assert(self.session_entries() =~= before.session_entries());
                    assert(ids_view(room.members@) =~= left.1.remove(m as int));
                    assert forall|i: int|
                        0 <= i < room.members@.len() implies self@.sessions.contains_key(
                        #[trigger] ids_view(room.members@)[i],
                    ) by {
                        let k = if i < m {
                            i
                        } else {
                            i + 1
                        };
                        assert(ids_view(room.members@)[i] == left.1[k]);
                    }
                }
                self.send_disconnect_message(&room.members)
            },
            None => {
                proof {
                    if self@.in_a_room(id) {
                        let r = self@.room_of(id);
                        let j = self.lemma_room_stored(r);
                        assert(self.room_entries()[j].1.contains(id));
                    }
                }
                let deliveries: Vec<Delivery> = Vec::new();
                proof {
                    assert(deliveries_view(deliveries@) =~= Seq::<DeliveryView>::empty());
                }
                deliveries
            },
        };
        self.sessions.remove(s);
        proof {
            assert(self.session_entries() =~= before.session_entries().remove(s as int));
            lemma_remove(before.session_entries(), s as int);
            lemma_disconnect_inv(before@, id);
            assert(self@ == before@.disconnect(id));
        }
        deliveries
    }
}

impl ChatServer {
    /// Registers the connection of `msg` under an id drawn at random, and
    /// returns that id with the notices to deliver.
    ///
    /// The ids of the session and of the room it may have to open are
    /// random, so the contract says what holds for whichever came out: the
    /// registration is the one that [`ChatServer::register`] makes of them,
    /// and it is turned down, leaving everything as it was, only if an id
    /// that was drawn is in use already.
    pub fn connect(&mut self, msg: Connect) -> (res: Result<(String, Vec<Delivery>), RegisterError>)
        requires
            old(self).wf(),
        ensures
            final(self).wf(),
            match res {
                Ok((session_id, deliveries)) => {
                    &&& is_id_text(session_id@)
                    &&& exists|room_id: Seq<char>|
                        {
                            &&& #[trigger] is_id_text(room_id)
                            &&& old(self)@.register_error(session_id@, room_id) is None
                            &&& final(self)@ == old(self)@.register(
                                msg.addr,
                                session_id@,
                                room_id,
                            )
                            &&& deliveries_view(deliveries@) == old(self)@.register_notices(
                                msg.addr,
                                session_id@,
                                room_id,
                            )
                        }
                },
                Err(e) => {
                    &&& final(self)@ == old(self)@
                    &&& exists|session_id: Seq<char>, room_id: Seq<char>|
                        {
                            &&& #[trigger] is_id_text(session_id)
                            &&& #[trigger] is_id_text(room_id)
                            &&& old(self)@.register_error(session_id, room_id) == Some(e)
                        }
                },
            },
    {
        let session_id = new_id();
        let room_id = new_id();
        let ghost drawn_room = room_id@;
        match self.register(msg.addr, session_id.clone(), room_id) {
            Ok(deliveries) => {
                proof {
                    assert(is_id_text(drawn_room));
                }
                Ok((session_id, deliveries))
            },
            Err(e) => {
                proof {
                    assert(is_id_text(session_id@) && is_id_text(drawn_room));
                }
                Err(e)
            },
        }
    }

    /// How many sessions are registered.
    pub fn session_count(&self) -> (n: usize)
        requires
            self.wf(),
        ensures
            n == self@.sessions.len(),
    {
        proof {
            lemma_len(self.session_entries());
        }
        self.sessions.len()
    }

    /// How many rooms exist.
    pub fn room_count(&self) -> (n: usize)
        requires
            self.wf(),
        ensures
            n == self@.rooms.len(),
    {
        proof {
            lemma_len(self.room_entries());
        }
        self.rooms.len()
    }

    /// The handle of the connection of `session_id`, if it is registered.
    pub fn addr_of(&self, session_id: &String) -> (addr: Option<u64>)
        requires
            self.wf(),
        ensures
            match addr {
                Some(a) => self@.sessions.contains_key(session_id@) && self@.sessions[session_id@]
                    == a,
                None => !self@.sessions.contains_key(session_id@),
            },
    {
        match self.find_session(session_id) {
            Some(s) => {
                proof {
                    lemma_entry(self.session_entries(), s as int);
                }
                Some(self.sessions[s].addr)
            },
            None => None,
        }
    }

    /// The id of the room that holds `session_id`, if one does.
    pub fn room_of(&self, session_id: &String) -> (room_id: Option<String>)
        requires
            self.wf(),
        ensures
            match room_id {
                Some(r) => self@.in_a_room(session_id@) && r@ == self@.room_of(session_id@),
                None => !self@.in_a_room(session_id@),
            },
    {
        match self.find_room_of(session_id) {
            Some((r, m)) => {
                proof {
                    self.lemma_room_at(r as int);
                    let room = self.room_entries()[r as int];
                    assert(room.1.contains(room.1[m as int]));
                    lemma_room_of(self@, session_id@, room.0);
                }
                Some(self.rooms[r].room_id.clone())
            },
            None => {
                proof {
                    if self@.in_a_room(session_id@) {
                        let r = self@.room_of(session_id@);
                        let j = self.lemma_room_stored(r);
                        assert(self.room_entries()[j].1.contains(session_id@));
                    }
                }
                None
            },
        }
    }

    /// The members of the room `room_id`, in the order in which they
    /// joined, if the room exists.
    pub fn members_of(&self, room_id: &String) -> (members: Option<Vec<String>>)
        requires
            self.wf(),
        ensures
            match members {
                Some(m) => self@.rooms.contains_key(room_id@) && ids_view(m@)
                    == self@.rooms[room_id@],
                None => !self@.rooms.contains_key(room_id@),
            },
    {
        match self.find_room_by_id(room_id) {
            Some(r) => {
                proof {
                    self.lemma_room_at(r as int);
                }
                let stored = &self.rooms[r].members;
                let mut members: Vec<String> = Vec::new();
                let mut i: usize = 0;
                while i < stored.len()
                    invariant
                        i <= stored@.len(),
                        members@.len() == i,
                        forall|j: int| 0 <= j < i ==> (#[trigger] members@[j])@ == stored@[j]@,
                    decreases stored@.len() - i,
                {
                    members.push(stored[i].clone());
                    i += 1;
                }
                proof {
                    assert(ids_view(members@) =~= ids_view(stored@));
                }
                Some(members)
            },
            None => None,
        }
    }
}

} // verus!
