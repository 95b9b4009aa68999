//! The messages exchanged between connections and the coordinator.
//!
//! Every type that carries text has a view in which each `String` is the
//! sequence of its characters; contracts speak of those views.

use vstd::prelude::*;

verus! {

/// The characters of an optional text.
pub open spec fn text_view(s: Option<String>) -> Option<Seq<char>> {
    match s {
        Some(t) => Some(t@),
        None => None,
    }
}

/// A copy of an optional text.
pub fn copy_text(s: &Option<String>) -> (res: Option<String>)
    ensures
        text_view(res) == text_view(*s),
{
    match s {
        Some(t) => Some(t.clone()),
        None => None,
    }
}

/// What the coordinator sends to a connection, to be relayed to its client.
///
/// `action` is one of `"connected"`, `"disconnected"` and `"publish"`.
#[derive(Debug, PartialEq, Eq)]
pub struct SessionMessage {
    pub action: String,
    pub message: Option<String>,
    pub session_id: Option<String>,
    pub from: Option<String>,
}

/// The content of a [`SessionMessage`].
pub struct SessionMessageView {
    pub action: Seq<char>,
    pub message: Option<Seq<char>>,
    pub session_id: Option<Seq<char>>,
    pub from: Option<Seq<char>>,
}

impl View for SessionMessage {
    type V = SessionMessageView;

    open spec fn view(&self) -> SessionMessageView {
        SessionMessageView {
            action: self.action@,
            message: text_view(self.message),
            session_id: text_view(self.session_id),
            from: text_view(self.from),
        }
    }
}

/// The notice that the session `session_id` has joined a room.
pub open spec fn connected_notice(session_id: Seq<char>) -> SessionMessageView {
    SessionMessageView {
        action: "connected"@,
        message: None,
        session_id: Some(session_id),
        from: None,
    }
}

/// The notice that the partner has left and the room is gone.
pub open spec fn disconnected_notice() -> SessionMessageView {
    SessionMessageView { action: "disconnected"@, message: None, session_id: None, from: None }
}

/// The notice that carries `message`, published by the session `from`.
pub open spec fn publish_notice(message: Seq<char>, from: Seq<char>) -> SessionMessageView {
    SessionMessageView {
        action: "publish"@,
        message: Some(message),
        session_id: None,
        from: Some(from),
    }
}

impl SessionMessage {
    /// Builds the notice that `session_id` has joined.
    pub fn connected(session_id: &String) -> (res: SessionMessage)
        ensures
            res@ == connected_notice(session_id@),
    {
        SessionMessage {
            action: String::from_str("connected"),
            message: None,
            session_id: Some(session_id.clone()),
            from: None,
        }
    }

    /// Builds the notice that the partner has left.
    pub fn disconnected() -> (res: SessionMessage)
        ensures
            res@ == disconnected_notice(),
    {
        SessionMessage {
            action: String::from_str("disconnected"),
            message: None,
            session_id: None,
            from: None,
        }
    }

    /// A copy of this notice.
    pub fn duplicate(&self) -> (res: SessionMessage)
        ensures
            res@ == self@,
    {
        SessionMessage {
            action: self.action.clone(),
            message: copy_text(&self.message),
            session_id: copy_text(&self.session_id),
            from: copy_text(&self.from),
        }
    }

    /// Builds the notice that relays `message` from the session `from`.
    pub fn publish(message: &String, from: &String) -> (res: SessionMessage)
        ensures
            res@ == publish_notice(message@, from@),
    {
        SessionMessage {
            action: String::from_str("publish"),
            message: Some(message.clone()),
            session_id: None,
            from: Some(from.clone()),
        }
    }
}

/// A request to relay `message` to the room of the session `session_id`.
#[derive(Debug, PartialEq, Eq)]
pub struct Publish {
    pub message: String,
    pub session_id: String,
}

/// The content of a [`Publish`] request.
pub struct PublishView {
    pub message: Seq<char>,
    pub session_id: Seq<char>,
}

impl View for Publish {
    type V = PublishView;

    open spec fn view(&self) -> PublishView {
        PublishView { message: self.message@, session_id: self.session_id@ }
    }
}

/// A request to register a connection. `addr` is the handle by which the
/// transport finds the connection again when a notice is to be delivered.
#[derive(Debug, Clone, Copy, PartialEq, Eq)]
pub struct Connect {
    pub addr: u64,
}

/// The announcement that the session `session_id` is gone.
#[derive(Debug, PartialEq, Eq)]
pub struct Disconnect {
    pub session_id: String,
}

/// The content of a [`Disconnect`] announcement.
pub struct DisconnectView {
    pub session_id: Seq<char>,
}

impl View for Disconnect {
    type V = DisconnectView;

    open spec fn view(&self) -> DisconnectView {
        DisconnectView { session_id: self.session_id@ }
    }
}

/// A decoded application payload of a client.
#[derive(Debug, PartialEq, Eq)]
pub struct ChatMessage {
    pub action: String,
    pub message: String,
}

/// The content of a [`ChatMessage`].
pub struct ChatMessageView {
    pub action: Seq<char>,
    pub message: Seq<char>,
}

impl View for ChatMessage {
    type V = ChatMessageView;

    open spec fn view(&self) -> ChatMessageView {
        ChatMessageView { action: self.action@, message: self.message@ }
    }
}

/// One notice on its way to one session: the coordinator decides it, the
/// transport carries it out through the handle `addr`.
#[derive(Debug, PartialEq, Eq)]
pub struct Delivery {
    pub to: String,
    pub addr: u64,
    pub message: SessionMessage,
}

/// The content of a [`Delivery`].
pub struct DeliveryView {
    pub to: Seq<char>,
    pub addr: u64,
    pub message: SessionMessageView,
}

impl View for Delivery {
    type V = DeliveryView;

    open spec fn view(&self) -> DeliveryView {
        DeliveryView { to: self.to@, addr: self.addr, message: self.message@ }
    }
}

/// The contents of a list of deliveries, in order.
pub open spec fn deliveries_view(list: Seq<Delivery>) -> Seq<DeliveryView> {
    Seq::new(list.len(), |i: int| list[i]@)
}

} // verus!
