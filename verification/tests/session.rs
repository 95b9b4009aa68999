use one_time_session_chat::messages::{ChatMessage, Disconnect, Publish, SessionMessage};
use one_time_session_chat::session::{
    CloseCode, CloseReason, Command, Event, Frame, Session, SessionState, CLIENT_TIMEOUT,
    HEARTBEAT_INTERVAL,
};

fn active(id: &str, hb: u64) -> Session {
    Session { hb, session_id: id.to_string(), state: SessionState::Active, pending: vec![] }
}

fn payload(action: &str, message: &str) -> Option<ChatMessage> {
    Some(ChatMessage { action: action.to_string(), message: message.to_string() })
}

fn text(action: &str, message: &str) -> Frame {
    Frame::Text(payload(action, message))
}

fn forwarded(message: &str, from: &str) -> Command {
    Command::Publish(Publish { message: message.to_string(), session_id: from.to_string() })
}

fn departure(id: &str) -> Command {
    Command::Disconnect(Disconnect { session_id: id.to_string() })
}

fn invalid() -> Option<CloseReason> {
    Some(CloseReason {
        code: CloseCode::Invalid,
        description: Some("invalid request json".to_string()),
    })
}

fn unsupported() -> Option<CloseReason> {
    Some(CloseReason {
        code: CloseCode::Unsupported,
        description: Some("unsupported action".to_string()),
    })
}

#[test]
fn timing_constants() {
    assert_eq!(HEARTBEAT_INTERVAL, 5_000);
    assert_eq!(CLIENT_TIMEOUT, 10_000);
    assert_eq!(CLIENT_TIMEOUT, 2 * HEARTBEAT_INTERVAL);
}

#[test]
fn new_session_is_connecting() {
    let session = Session::new(42);
    assert_eq!(
        session,
        Session {
            hb: 42,
            session_id: String::new(),
            state: SessionState::Connecting,
            pending: vec![]
        }
    );
    assert!(session.is_open());
}

#[test]
fn start_asks_for_timer_and_registration() {
    let session = Session::new(0);
    assert_eq!(session.started(), vec![Command::StartHeartbeat(5_000), Command::Register]);
    assert_eq!(active("a", 0).started(), vec![]);
}

#[test]
fn registration_makes_the_session_active() {
    let mut session = Session::new(0);
    assert_eq!(session.registered(Some("abc".to_string())), vec![]);
    assert_eq!(session, active("abc", 0));
}

#[test]
fn failed_registration_tears_down() {
    let mut session = Session::new(0);
    assert_eq!(session.registered(None), vec![departure(""), Command::Stop]);
    assert_eq!(session.state, SessionState::Closing);
}

#[test]
fn second_registration_is_ignored_by_an_active_session() {
    let mut session = active("a", 0);
    assert_eq!(session.registered(Some("b".to_string())), vec![]);
    assert_eq!(session, active("a", 0));
}

#[test]
fn late_id_is_given_back() {
    let mut session = Session::new(0);
    session.handle_frame(Frame::Close(None), 1);
    assert_eq!(session.state, SessionState::Closing);
    assert_eq!(session.registered(Some("late".to_string())), vec![departure("late")]);
    assert_eq!(session.state, SessionState::Closing);
    assert_eq!(session.session_id, "");
    assert_eq!(session.registered(None), vec![]);
}

#[test]
fn tick_probes_a_live_client() {
    let mut session = active("a", 1_000);
    assert_eq!(session.hb(11_000), vec![Command::Ping(b"ping".to_vec())]);
    assert_eq!(session, active("a", 1_000));
    assert_eq!(session.hb(500), vec![Command::Ping(b"ping".to_vec())]);
}

#[test]
fn tick_after_the_timeout_tears_down() {
    let mut session = active("a", 1_000);
    assert_eq!(session.hb(11_001), vec![departure("a"), Command::Stop]);
    assert_eq!(session.state, SessionState::Closing);
    assert_eq!(session.hb(20_000), vec![]);
}

#[test]
fn timeout_is_like_an_explicit_disconnect() {
    let mut timed_out = active("a", 0);
    let mut asked = active("a", 0);
    let by_timeout = timed_out.hb(CLIENT_TIMEOUT + 1);
    let by_request = asked.handle_frame(text("disconnect", ""), CLIENT_TIMEOUT + 1);
    assert_eq!(by_timeout, by_request);
    assert_eq!(timed_out, asked);
}

#[test]
fn connecting_session_times_out_too() {
    let mut session = Session::new(0);
    assert_eq!(session.hb(10_001), vec![departure(""), Command::Stop]);
    assert_eq!(session.state, SessionState::Closing);
}

#[test]
fn ping_is_answered_and_counts_as_life() {
    let mut session = active("a", 0);
    assert_eq!(session.handle_frame(Frame::Ping(vec![1, 2, 3]), 9_000), vec![
        Command::Pong(vec![1, 2, 3])
    ]);
    assert_eq!(session.hb, 9_000);
    assert_eq!(session.hb(19_000), vec![Command::Ping(b"ping".to_vec())]);
}

#[test]
fn pong_counts_as_life() {
    let mut session = active("a", 0);
    assert_eq!(session.handle_frame(Frame::Pong, 7_000), vec![]);
    assert_eq!(session, active("a", 7_000));
}

#[test]
fn control_frames_are_served_while_connecting() {
    let mut session = Session::new(0);
    assert_eq!(session.handle_frame(Frame::Ping(vec![9]), 5), vec![Command::Pong(vec![9])]);
    assert_eq!(session.hb, 5);
    assert_eq!(session.state, SessionState::Connecting);
}

#[test]
fn text_is_held_back_while_connecting() {
    let mut session = Session::new(0);
    assert_eq!(session.handle_frame(text("publish-room", "hi"), 5), vec![]);
    assert_eq!(session.handle_frame(Frame::Text(None), 5), vec![]);
    assert_eq!(session.state, SessionState::Connecting);
    assert_eq!(session.hb, 0);
    assert_eq!(session.pending, vec![payload("publish-room", "hi"), None]);
}

#[test]
fn held_back_text_is_processed_after_registration() {
    let mut session = Session::new(0);
    session.handle_frame(text("publish-room", "one"), 1);
    session.handle_frame(text("publish-room", "two"), 2);
    assert_eq!(session.registered(Some("a".to_string())), vec![
        forwarded("one", "a"),
        forwarded("two", "a")
    ]);
    assert_eq!(session, active("a", 0));
    assert_eq!(session.handle_frame(text("publish-room", "three"), 3), vec![forwarded(
        "three", "a"
    )]);
}

#[test]
fn held_back_text_after_a_fatal_one_is_passed_over() {
    let mut session = Session::new(0);
    session.handle_frame(text("publish-room", "one"), 1);
    session.handle_frame(text("dance", ""), 2);
    session.handle_frame(text("publish-room", "never"), 3);
    assert_eq!(session.registered(Some("a".to_string())), vec![
        forwarded("one", "a"),
        Command::Close(unsupported()),
        departure("a"),
        Command::Stop
    ]);
    assert_eq!(session.state, SessionState::Closing);
    assert_eq!(session.pending, vec![]);
    assert_eq!(session.stopping(), vec![]);
}

#[test]
fn held_back_text_is_dropped_with_a_session_that_never_registers() {
    let mut session = Session::new(0);
    session.handle_frame(text("publish-room", "one"), 1);
    assert_eq!(session.registered(None), vec![departure(""), Command::Stop]);
    assert_eq!(session.registered(Some("late".to_string())), vec![departure("late")]);
    assert_eq!(session.state, SessionState::Closing);
}

#[test]
fn publish_room_is_forwarded() {
    let mut session = active("a", 0);
    assert_eq!(session.handle_frame(text("publish-room", "hello"), 5), vec![forwarded(
        "hello", "a"
    )]);
    assert_eq!(session, active("a", 0));
}

#[test]
fn disconnect_action_tears_down_without_a_close_frame() {
    let mut session = active("a", 0);
    assert_eq!(session.handle_frame(text("disconnect", "bye"), 5), vec![
        departure("a"),
        Command::Stop
    ]);
    assert_eq!(session.state, SessionState::Closing);
}

#[test]
fn known_actions_never_close_as_unsupported() {
    for action in ["publish-room", "disconnect"] {
        let mut session = active("a", 0);
        let commands = session.handle_frame(text(action, "x"), 1);
        assert!(commands.iter().all(|c| !matches!(c, Command::Close(_))));
    }
}

#[test]
fn unknown_action_closes_as_unsupported() {
    for action in ["join", "", "publish", "Disconnect", "publish-room "] {
        let mut session = active("a", 0);
        assert_eq!(session.handle_frame(text(action, "x"), 1), vec![
            Command::Close(unsupported()),
            departure("a"),
            Command::Stop
        ]);
        assert_eq!(session.state, SessionState::Closing);
    }
}

#[test]
fn malformed_payload_closes_as_invalid() {
    let mut session = active("a", 0);
    assert_eq!(session.handle_frame(Frame::Text(None), 1), vec![
        Command::Close(invalid()),
        departure("a"),
        Command::Stop
    ]);
    assert_eq!(session.state, SessionState::Closing);
}

#[test]
fn close_frame_is_echoed() {
    let reason = Some(CloseReason { code: CloseCode::Other(1000), description: None });
    let mut session = active("a", 0);
    assert_eq!(
        session.handle_frame(
            Frame::Close(Some(CloseReason { code: CloseCode::Other(1000), description: None })),
            1
        ),
        vec![Command::Close(reason), departure("a"), Command::Stop]
    );
    let mut session = active("b", 0);
    assert_eq!(session.handle_frame(Frame::Close(None), 1), vec![
        Command::Close(None),
        departure("b"),
        Command::Stop
    ]);
}

#[test]
fn continuation_frame_tears_down() {
    let mut session = active("a", 0);
    assert_eq!(session.handle_frame(Frame::Continuation, 1), vec![departure("a"), Command::Stop]);
    assert_eq!(session.state, SessionState::Closing);
}

#[test]
fn other_frames_are_ignored() {
    let mut session = active("a", 3);
    assert_eq!(session.handle_frame(Frame::Other, 100), vec![]);
    assert_eq!(session, active("a", 3));
}

#[test]
fn closing_session_ignores_frames() {
    let mut session = active("a", 0);
    session.handle_frame(Frame::Continuation, 1);
    assert_eq!(session.handle_frame(Frame::Ping(vec![1]), 2), vec![]);
    assert_eq!(session.handle_frame(text("publish-room", "x"), 2), vec![]);
    assert_eq!(session.handle_frame(Frame::Close(None), 2), vec![]);
    assert_eq!(session.hb, 0);
    assert_eq!(session.state, SessionState::Closing);
}

#[test]
fn notice_is_relayed_as_it_is() {
    let session = active("a", 0);
    let notice = SessionMessage::publish(&"hi".to_string(), &"b".to_string());
    assert_eq!(session.handle_notice(notice.duplicate()), vec![Command::Send(notice)]);
    let mut gone = active("a", 0);
    gone.stopping();
    assert_eq!(gone.handle_notice(SessionMessage::disconnected()), vec![]);
}

#[test]
fn stopping_tells_the_coordinator_once() {
    let mut session = active("a", 0);
    assert_eq!(session.stopping(), vec![departure("a")]);
    assert_eq!(session.state, SessionState::Closed);
    assert_eq!(session.stopping(), vec![]);
    assert_eq!(session.state, SessionState::Closed);
}

#[test]
fn stopping_after_teardown_tells_nothing_more() {
    let mut session = active("a", 0);
    assert_eq!(session.hb(10_001), vec![departure("a"), Command::Stop]);
    assert_eq!(session.stopping(), vec![]);
    assert_eq!(session.state, SessionState::Closed);
    assert!(!session.is_open());
}

#[test]
fn stopping_before_registration_announces_the_empty_id() {
    let mut session = Session::new(0);
    assert_eq!(session.stopping(), vec![departure("")]);
    assert_eq!(session.state, SessionState::Closed);
}

#[test]
fn whole_life_tells_the_coordinator_once() {
    let mut session = Session::new(0);
    let events = vec![
        (Event::Started, 0),
        (Event::Registered(Some("a".to_string())), 1),
        (Event::Frame(Frame::Ping(vec![])), 4_000),
        (Event::Tick, 5_000),
        (Event::Notice(SessionMessage::connected(&"b".to_string())), 5_100),
        (Event::Frame(text("publish-room", "hi")), 6_000),
        (Event::Tick, 10_000),
        (Event::Tick, 15_000),
        (Event::Frame(text("publish-room", "too late")), 15_001),
        (Event::Tick, 20_000),
        (Event::Stopping, 20_001),
        (Event::Stopping, 20_002),
    ];
    let mut all = Vec::new();
    for (event, now) in events {
        all.extend(session.handle(event, now));
    }
    let departures = all.iter().filter(|c| matches!(c, Command::Disconnect(_))).count();
    assert_eq!(departures, 1);
    assert!(all.contains(&departure("a")));
    assert_eq!(session.state, SessionState::Closed);
    assert_eq!(all[0], Command::StartHeartbeat(5_000));
    assert_eq!(all[1], Command::Register);
}
