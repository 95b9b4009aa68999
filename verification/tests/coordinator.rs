use one_time_session_chat::messages::{Connect, Delivery, Disconnect, Publish, SessionMessage};
use one_time_session_chat::registry::RegisterError;
use one_time_session_chat::server::ChatServer;

fn id(text: &str) -> String {
    text.to_string()
}

fn connected(to: &str, addr: u64, newcomer: &str) -> Delivery {
    Delivery {
        to: id(to),
        addr,
        message: SessionMessage {
            action: id("connected"),
            message: None,
            session_id: Some(id(newcomer)),
            from: None,
        },
    }
}

fn published(to: &str, addr: u64, text: &str, from: &str) -> Delivery {
    Delivery {
        to: id(to),
        addr,
        message: SessionMessage {
            action: id("publish"),
            message: Some(id(text)),
            session_id: None,
            from: Some(id(from)),
        },
    }
}

fn disconnected(to: &str, addr: u64) -> Delivery {
    Delivery {
        to: id(to),
        addr,
        message: SessionMessage {
            action: id("disconnected"),
            message: None,
            session_id: None,
            from: None,
        },
    }
}

fn publish(server: &ChatServer, from: &str, text: &str) -> Vec<Delivery> {
    server.publish(Publish { message: id(text), session_id: id(from) })
}

fn disconnect(server: &mut ChatServer, session: &str) -> Vec<Delivery> {
    server.disconnect(Disconnect { session_id: id(session) })
}

/// A server in which `a` and `b` share the room `r1`.
fn paired() -> ChatServer {
    let mut server = ChatServer::new();
    server.register(1, id("a"), id("r1")).expect("a is new");
    server.register(2, id("b"), id("r2")).expect("b is new");
    server
}

#[test]
fn new_server_is_empty() {
    let server = ChatServer::new();
    assert_eq!(server.session_count(), 0);
    assert_eq!(server.room_count(), 0);
    assert_eq!(server.addr_of(&id("a")), None);
    assert_eq!(server.room_of(&id("a")), None);
    assert_eq!(server.members_of(&id("r1")), None);
}

#[test]
fn first_session_waits_alone() {
    let mut server = ChatServer::new();
    let deliveries = server.register(7, id("a"), id("r1")).expect("a is new");
    assert_eq!(deliveries, vec![]);
    assert_eq!(server.session_count(), 1);
    assert_eq!(server.room_count(), 1);
    assert_eq!(server.addr_of(&id("a")), Some(7));
    assert_eq!(server.room_of(&id("a")), Some(id("r1")));
    assert_eq!(server.members_of(&id("r1")), Some(vec![id("a")]));
}

#[test]
fn second_session_joins_the_first() {
    let mut server = ChatServer::new();
    server.register(1, id("a"), id("r1")).expect("a is new");
    let deliveries = server.register(2, id("b"), id("r2")).expect("b is new");
    assert_eq!(deliveries, vec![connected("a", 1, "b"), connected("b", 2, "b")]);
    assert_eq!(server.room_count(), 1);
    assert_eq!(server.room_of(&id("b")), Some(id("r1")));
    assert_eq!(server.members_of(&id("r1")), Some(vec![id("a"), id("b")]));
    assert_eq!(server.members_of(&id("r2")), None);
}

#[test]
fn third_session_opens_a_room_of_its_own() {
    let mut server = paired();
    let deliveries = server.register(3, id("c"), id("r3")).expect("c is new");
    assert_eq!(deliveries, vec![]);
    assert_eq!(server.room_count(), 2);
    assert_eq!(server.members_of(&id("r1")), Some(vec![id("a"), id("b")]));
    assert_eq!(server.members_of(&id("r3")), Some(vec![id("c")]));
    assert_eq!(server.room_of(&id("c")), Some(id("r3")));
}

#[test]
fn rooms_never_hold_more_than_two() {
    let mut server = ChatServer::new();
    let mut n: u64 = 0;
    while n < 9 {
        let session = format!("s{}", n);
        let room = format!("r{}", n);
        server.register(n, session, room).expect("new ids");
        n += 1;
    }
    assert_eq!(server.session_count(), 9);
    assert_eq!(server.room_count(), 5);
    let mut n: u64 = 0;
    while n < 9 {
        let room = server.room_of(&format!("s{}", n)).expect("every session has a room");
        let members = server.members_of(&room).expect("the room exists");
        assert!(members.len() <= 2);
        assert!(members.contains(&format!("s{}", n)));
        n += 1;
    }
    assert_eq!(server.members_of(&id("r8")), Some(vec![id("s8")]));
}

#[test]
fn taken_session_id_is_turned_down() {
    let mut server = paired();
    let res = server.register(9, id("a"), id("r9"));
    assert_eq!(res, Err(RegisterError::SessionIdTaken));
    assert_eq!(server.session_count(), 2);
    assert_eq!(server.room_count(), 1);
    assert_eq!(server.addr_of(&id("a")), Some(1));
}

#[test]
fn taken_room_id_is_turned_down() {
    let mut server = paired();
    let res = server.register(3, id("c"), id("r1"));
    assert_eq!(res, Err(RegisterError::RoomIdTaken));
    assert_eq!(server.session_count(), 2);
    assert_eq!(server.addr_of(&id("c")), None);
    assert_eq!(server.members_of(&id("r1")), Some(vec![id("a"), id("b")]));
}

#[test]
fn taken_room_id_does_not_matter_when_a_room_waits() {
    let mut server = ChatServer::new();
    server.register(1, id("a"), id("r1")).expect("a is new");
    let deliveries = server.register(2, id("b"), id("r1")).expect("b joins r1");
    assert_eq!(deliveries.len(), 2);
    assert_eq!(server.members_of(&id("r1")), Some(vec![id("a"), id("b")]));
}

#[test]
fn publish_reaches_both_members() {
    let server = paired();
    assert_eq!(
        publish(&server, "a", "hello"),
        vec![published("a", 1, "hello", "a"), published("b", 2, "hello", "a")]
    );
    assert_eq!(
        publish(&server, "b", "hi"),
        vec![published("a", 1, "hi", "b"), published("b", 2, "hi", "b")]
    );
}

#[test]
fn publish_in_a_room_of_one_echoes_to_the_sender() {
    let mut server = ChatServer::new();
    server.register(1, id("a"), id("r1")).expect("a is new");
    assert_eq!(publish(&server, "a", "anyone?"), vec![published("a", 1, "anyone?", "a")]);
}

#[test]
fn publish_without_a_room_is_dropped() {
    let mut server = paired();
    assert_eq!(publish(&server, "nobody", "hello"), vec![]);
    disconnect(&mut server, "a");
    assert_eq!(publish(&server, "b", "still there?"), vec![]);
    assert_eq!(publish(&server, "a", "gone"), vec![]);
    assert_eq!(server.session_count(), 1);
}

#[test]
fn disconnect_tells_the_partner_and_deletes_the_room() {
    let mut server = paired();
    assert_eq!(disconnect(&mut server, "a"), vec![disconnected("b", 2)]);
    assert_eq!(server.room_count(), 0);
    assert_eq!(server.members_of(&id("r1")), None);
    assert_eq!(server.addr_of(&id("a")), None);
    assert_eq!(server.addr_of(&id("b")), Some(2));
    assert_eq!(server.room_of(&id("b")), None);
    assert_eq!(disconnect(&mut server, "b"), vec![]);
    assert_eq!(server.session_count(), 0);
}

#[test]
fn disconnect_of_the_second_member_tells_the_first() {
    let mut server = paired();
    assert_eq!(disconnect(&mut server, "b"), vec![disconnected("a", 1)]);
    assert_eq!(server.room_count(), 0);
    assert_eq!(server.addr_of(&id("a")), Some(1));
}

#[test]
fn disconnect_of_a_waiting_session_tells_nobody() {
    let mut server = ChatServer::new();
    server.register(1, id("a"), id("r1")).expect("a is new");
    assert_eq!(disconnect(&mut server, "a"), vec![]);
    assert_eq!(server.session_count(), 0);
    assert_eq!(server.room_count(), 0);
}

#[test]
fn disconnect_twice_is_the_same_as_once() {
    let mut server = paired();
    assert_eq!(disconnect(&mut server, "a").len(), 1);
    assert_eq!(disconnect(&mut server, "a"), vec![]);
    assert_eq!(server.session_count(), 1);
    assert_eq!(server.room_count(), 0);
    assert_eq!(disconnect(&mut server, "never-seen"), vec![]);
    assert_eq!(server.session_count(), 1);
}

#[test]
fn orphan_is_not_paired_again() {
    let mut server = paired();
    disconnect(&mut server, "a");
    let deliveries = server.register(3, id("c"), id("r3")).expect("c is new");
    assert_eq!(deliveries, vec![]);
    assert_eq!(server.room_of(&id("b")), None);
    assert_eq!(server.members_of(&id("r3")), Some(vec![id("c")]));
}

#[test]
fn a_session_that_left_can_register_again() {
    let mut server = paired();
    disconnect(&mut server, "a");
    let first = server.register(4, id("a2"), id("r4")).expect("a2 is new");
    assert_eq!(first, vec![]);
    let second = server.register(5, id("d"), id("r5")).expect("d is new");
    assert_eq!(second, vec![connected("a2", 4, "d"), connected("d", 5, "d")]);
    assert_eq!(server.members_of(&id("r4")), Some(vec![id("a2"), id("d")]));
}

fn is_id_text(text: &str) -> bool {
    let chars: Vec<char> = text.chars().collect();
    chars.len() == 36
        && chars.iter().enumerate().all(|(i, c)| {
            if i == 8 || i == 13 || i == 18 || i == 23 {
                *c == '-'
            } else {
                c.is_ascii_digit() || ('a'..='f').contains(c)
            }
        })
        && chars[14] == '4'
        && ['8', '9', 'a', 'b'].contains(&chars[19])
}

#[test]
fn connect_draws_ids_of_the_expected_shape() {
    let mut server = ChatServer::new();
    let (first, told) = server.connect(Connect { addr: 1 }).expect("random ids are new");
    assert!(is_id_text(&first));
    assert_eq!(told, vec![]);
    let room = server.room_of(&first).expect("the newcomer has a room");
    assert!(is_id_text(&room));
    assert_ne!(room, first);
    assert_eq!(server.addr_of(&first), Some(1));
}

#[test]
fn connect_pairs_two_connections() {
    let mut server = ChatServer::new();
    let (first, _) = server.connect(Connect { addr: 1 }).expect("random ids are new");
    let (second, told) = server.connect(Connect { addr: 2 }).expect("random ids are new");
    assert_ne!(first, second);
    assert_eq!(told, vec![connected(&first, 1, &second), connected(&second, 2, &second)]);
    assert_eq!(server.room_of(&first), server.room_of(&second));
    assert_eq!(server.room_count(), 1);
    let (third, told) = server.connect(Connect { addr: 3 }).expect("random ids are new");
    assert_eq!(told, vec![]);
    assert_ne!(server.room_of(&third), server.room_of(&first));
    assert_eq!(server.room_count(), 2);
}

#[test]
fn notices_have_the_documented_shape() {
    let joined = SessionMessage::connected(&id("b"));
    assert_eq!(joined.action, "connected");
    assert_eq!(joined.session_id, Some(id("b")));
    assert_eq!(joined.message, None);
    assert_eq!(joined.from, None);
    let left = SessionMessage::disconnected();
    assert_eq!(left.action, "disconnected");
    assert_eq!((left.message, left.session_id, left.from), (None, None, None));
    let relayed = SessionMessage::publish(&id("hello"), &id("a"));
    assert_eq!(relayed.action, "publish");
    assert_eq!(relayed.message, Some(id("hello")));
    assert_eq!(relayed.from, Some(id("a")));
    assert_eq!(relayed.session_id, None);
    assert_eq!(relayed.duplicate(), relayed);
}
