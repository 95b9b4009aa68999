//! The state machine of one connection.
//!
//! A session decides; it does not act. Each event (the registration
//! completing, a heartbeat tick, a frame from the client, a notice from the
//! coordinator, the transport going away) yields the next state and the
//! commands that the transport is to carry out, in order.
//!
//! A client may speak before the coordinator has answered. What it says
//! then is held back and looked at, in order, once the session has its id.
//!
//! Time is a count of milliseconds on a clock that never runs backwards.

use crate::messages::{ChatMessage, ChatMessageView, Disconnect, DisconnectView};
use crate::messages::{Publish, PublishView, SessionMessage, SessionMessageView};
use vstd::prelude::*;

verus! {

/// How often a liveness probe is sent, in milliseconds.
pub const HEARTBEAT_INTERVAL: u64 = 5_000;

/// How long a client may stay silent before it counts as gone, in
/// milliseconds.
pub const CLIENT_TIMEOUT: u64 = 10_000;

/// Where a connection stands in its life.
#[derive(Debug, Clone, Copy, PartialEq, Eq, Structural)]
pub enum SessionState {
    /// Open, but the coordinator has not assigned an id yet.
    Connecting,
    /// Registered and in normal operation.
    Active,
    /// Being torn down; the coordinator has been told.
    Closing,
    /// Gone.
    Closed,
}

/// The reason codes of close frames.
#[derive(Debug, Clone, Copy, PartialEq, Eq, Structural)]
pub enum CloseCode {
    /// The payload could not be decoded.
    Invalid,
    /// The payload asked for an action that is not known.
    Unsupported,
    /// Any other code, by its number.
    Other(u16),
}

/// Why a connection is closed.
#[derive(Debug, PartialEq, Eq)]
pub struct CloseReason {
    pub code: CloseCode,
    pub description: Option<String>,
}

/// The content of a [`CloseReason`].
pub struct CloseReasonView {
    pub code: CloseCode,
    pub description: Option<Seq<char>>,
}

impl View for CloseReason {
    type V = CloseReasonView;

    open spec fn view(&self) -> CloseReasonView {
        CloseReasonView {
            code: self.code,
            description: crate::messages::text_view(self.description),
        }
    }
}

/// The content of an optional close reason.
pub open spec fn reason_view(reason: Option<CloseReason>) -> Option<CloseReasonView> {
    match reason {
        Some(r) => Some(r@),
        None => None,
    }
}

/// The reason given to a client whose payload could not be decoded.
pub open spec fn invalid_reason() -> CloseReasonView {
    CloseReasonView { code: CloseCode::Invalid, description: Some("invalid request json"@) }
}

/// The reason given to a client that asked for an unknown action.
pub open spec fn unsupported_reason() -> CloseReasonView {
    CloseReasonView { code: CloseCode::Unsupported, description: Some("unsupported action"@) }
}

/// The payload of the liveness probe: the bytes of `ping`.
pub open spec fn probe_payload() -> Seq<u8> {
    seq![112u8, 105u8, 110u8, 103u8]
}

/// The content of the payload of a text frame.
pub open spec fn payload_view(parsed: Option<ChatMessage>) -> Option<ChatMessageView> {
    match parsed {
        Some(m) => Some(m@),
        None => None,
    }
}

/// The contents of a list of payloads, in order.
pub open spec fn payloads_view(list: Seq<Option<ChatMessage>>) -> Seq<Option<ChatMessageView>> {
    Seq::new(list.len(), |i: int| payload_view(list[i]))
}

/// What arrived from the client.
#[derive(Debug, PartialEq, Eq)]
pub enum Frame {
    /// A ping with its payload.
    Ping(Vec<u8>),
    /// A pong.
    Pong,
    /// A text frame: the decoded payload, or `None` where it did not decode.
    Text(Option<ChatMessage>),
    /// A close frame with the client's reason.
    Close(Option<CloseReason>),
    /// A continuation frame.
    Continuation,
    /// Anything else: a binary frame, a no-op, a protocol error.
    Other,
}

/// The content of a [`Frame`].
pub enum FrameView {
    Ping(Seq<u8>),
    Pong,
    Text(Option<ChatMessageView>),
    Close(Option<CloseReasonView>),
    Continuation,
    Other,
}

impl View for Frame {
    type V = FrameView;

    open spec fn view(&self) -> FrameView {
        match self {
            Frame::Ping(payload) => FrameView::Ping(payload@),
            Frame::Pong => FrameView::Pong,
            Frame::Text(parsed) => FrameView::Text(payload_view(*parsed)),
            Frame::Close(reason) => FrameView::Close(reason_view(*reason)),
            Frame::Continuation => FrameView::Continuation,
            Frame::Other => FrameView::Other,
        }
    }
}

/// What the transport is to do for a session.
#[derive(Debug, PartialEq, Eq)]
pub enum Command {
    /// Start the timer that ticks every so many milliseconds.
    StartHeartbeat(u64),
    /// Ask the coordinator to register this connection.
    Register,
    /// Send the client a ping with this payload.
    Ping(Vec<u8>),
    /// Send the client a pong with this payload.
    Pong(Vec<u8>),
    /// Hand the coordinator a publish request.
    Publish(Publish),
    /// Tell the coordinator that the session is gone.
    Disconnect(Disconnect),
    /// Relay a notice of the coordinator to the client.
    Send(SessionMessage),
    /// Send the client a close frame.
    Close(Option<CloseReason>),
    /// Stop serving the connection.
    Stop,
}

/// The content of a [`Command`].
pub enum CommandView {
    StartHeartbeat(u64),
    Register,
    Ping(Seq<u8>),
    Pong(Seq<u8>),
    Publish(PublishView),
    Disconnect(DisconnectView),
    Send(SessionMessageView),
    Close(Option<CloseReasonView>),
    Stop,
}

impl View for Command {
    type V = CommandView;

    open spec fn view(&self) -> CommandView {
        match self {
            Command::StartHeartbeat(interval) => CommandView::StartHeartbeat(*interval),
            Command::Register => CommandView::Register,
            Command::Ping(payload) => CommandView::Ping(payload@),
            Command::Pong(payload) => CommandView::Pong(payload@),
            Command::Publish(p) => CommandView::Publish(p@),
            Command::Disconnect(d) => CommandView::Disconnect(d@),
            Command::Send(m) => CommandView::Send(m@),
            Command::Close(reason) => CommandView::Close(reason_view(*reason)),
            Command::Stop => CommandView::Stop,
        }
    }
}

/// The contents of a list of commands, in order.
pub open spec fn commands_view(list: Seq<Command>) -> Seq<CommandView> {
    Seq::new(list.len(), |i: int| list[i]@)
}

/// What can happen to a session.
#[derive(Debug, PartialEq, Eq)]
pub enum Event {
    /// The connection has opened.
    Started,
    /// The registration has completed: with the assigned id, or with `None`
    /// where the coordinator could not be reached.
    Registered(Option<String>),
    /// The heartbeat timer has ticked.
    Tick,
    /// A frame has arrived from the client.
    Frame(Frame),
    /// The coordinator has a notice for the client.
    Notice(SessionMessage),
    /// The transport is going away, whatever the cause.
    Stopping,
}

/// The content of an [`Event`].
pub enum EventView {
    Started,
    Registered(Option<Seq<char>>),
    Tick,
    Frame(FrameView),
    Notice(SessionMessageView),
    Stopping,
}

impl View for Event {
    type V = EventView;

    open spec fn view(&self) -> EventView {
        match self {
            Event::Started => EventView::Started,
            Event::Registered(id) => EventView::Registered(crate::messages::text_view(*id)),
            Event::Tick => EventView::Tick,
            Event::Frame(frame) => EventView::Frame(frame@),
            Event::Notice(m) => EventView::Notice(m@),
            Event::Stopping => EventView::Stopping,
        }
    }
}

/// One live connection.
#[derive(Debug, PartialEq, Eq)]
pub struct Session {
    /// When the client last gave a sign of life.
    pub hb: u64,
    /// The id that the coordinator assigned; empty until it has.
    pub session_id: String,
    pub state: SessionState,
    /// The payloads of the text frames that arrived before the id did.
    pub pending: Vec<Option<ChatMessage>>,
}

/// The content of a [`Session`].
pub struct SessionView {
    pub hb: u64,
    pub session_id: Seq<char>,
    pub state: SessionState,
    pub pending: Seq<Option<ChatMessageView>>,
}

impl View for Session {
    type V = SessionView;

    open spec fn view(&self) -> SessionView {
        SessionView {
            hb: self.hb,
            session_id: self.session_id@,
            state: self.state,
            pending: payloads_view(self.pending@),
        }
    }
}

/// A session after an event, and what the transport is to do.
pub struct Outcome {
    pub session: SessionView,
    pub commands: Seq<CommandView>,
}

impl SessionView {
    /// The session is served: it is neither closing nor closed.
    pub open spec fn is_open(self) -> bool {
        self.state == SessionState::Connecting || self.state == SessionState::Active
    }

    /// The same session in another state.
    pub open spec fn in_state(self, state: SessionState) -> SessionView {
        SessionView { state, ..self }
    }

    /// The same session with a sign of life at `now`.
    pub open spec fn alive_at(self, now: u64) -> SessionView {
        SessionView { hb: now, ..self }
    }

    /// The command that tells the coordinator that this session is gone.
    pub open spec fn departure(self) -> CommandView {
        CommandView::Disconnect(DisconnectView { session_id: self.session_id })
    }

    /// Nothing happens.
    pub open spec fn idle(self) -> Outcome {
        Outcome { session: self, commands: Seq::empty() }
    }

    /// The teardown of an open session: the coordinator is told, then the
    /// connection is stopped.
    pub open spec fn close(self) -> Outcome {
        Outcome {
            session: self.in_state(SessionState::Closing),
            commands: seq![self.departure(), CommandView::Stop],
        }
    }

    /// The teardown of an open session after a close frame with `reason` has
    /// been sent to the client.
    pub open spec fn close_with(self, reason: Option<CloseReasonView>) -> Outcome {
        Outcome {
            session: self.in_state(SessionState::Closing),
            commands: seq![CommandView::Close(reason), self.departure(), CommandView::Stop],
        }
    }

    /// The milliseconds since the last sign of life; none where the clock
    /// reads earlier than that.
    pub open spec fn silence(self, now: u64) -> int {
        if now >= self.hb {
            now - self.hb
        } else {
            0
        }
    }

    /// The client has been silent for longer than [`CLIENT_TIMEOUT`].
    pub open spec fn timed_out(self, now: u64) -> bool {
        self.silence(now) > CLIENT_TIMEOUT
    }

    /// The connection has opened: the heartbeat timer is started and the
    /// coordinator is asked to register the connection.
    pub open spec fn on_started(self) -> Outcome {
        if self.state == SessionState::Connecting {
            Outcome {
                session: self,
                commands: seq![
                    CommandView::StartHeartbeat(HEARTBEAT_INTERVAL),
                    CommandView::Register,
                ],
            }
        } else {
            self.idle()
        }
    }

    /// The payloads that were held back are looked at, in order. Once one
    /// of them has ended the session, the rest is passed over.
    pub open spec fn catch_up(self, payloads: Seq<Option<ChatMessageView>>) -> Outcome
        decreases payloads.len(),
    {
        if payloads.len() == 0 {
            self.idle()
        } else {
            let first = self.on_text(payloads[0]);
            let rest = first.session.catch_up(payloads.drop_first());
            Outcome { session: rest.session, commands: first.commands + rest.commands }
        }
    }

    /// The registration has completed. A connecting session takes the id,
    /// becomes active and catches up on what was held back, or is torn down
    /// where there is no id. A session that is closing or closed has no use
    /// for an id that arrives late and gives it back to the coordinator.
    pub open spec fn on_registered(self, id: Option<Seq<char>>) -> Outcome {
        match (self.state, id) {
            (SessionState::Connecting, Some(id)) => (SessionView {
                session_id: id,
                state: SessionState::Active,
                pending: Seq::empty(),
                ..self
            }).catch_up(self.pending),
            (SessionState::Connecting, None) => self.close(),
            (SessionState::Active, _) => self.idle(),
            (_, Some(id)) => Outcome {
                session: self,
                commands: seq![CommandView::Disconnect(DisconnectView { session_id: id })],
            },
            (_, None) => self.idle(),
        }
    }

    /// The heartbeat timer has ticked: an open session that has been silent
    /// for too long is torn down, any other open session is probed.
    pub open spec fn on_tick(self, now: u64) -> Outcome {
        if !self.is_open() {
            self.idle()
        } else if self.timed_out(now) {
            self.close()
        } else {
            Outcome { session: self, commands: seq![CommandView::Ping(probe_payload())] }
        }
    }

    /// A decoded payload has arrived at an active session.
    pub open spec fn on_chat_message(self, m: ChatMessageView) -> Outcome {
        if m.action == "publish-room"@ {
            Outcome {
                session: self,
                commands: seq![
                    CommandView::Publish(
                        PublishView { message: m.message, session_id: self.session_id },
                    ),
                ],
            }
        } else if m.action == "disconnect"@ {
            self.close()
        } else {
            self.close_with(Some(unsupported_reason()))
        }
    }

    /// The payload of a text frame is to be looked at. A session that has
    /// no id yet holds it back; an active session acts on it, and closes
    /// the connection as invalid where it did not decode; a session that is
    /// closing or closed passes it over.
    pub open spec fn on_text(self, parsed: Option<ChatMessageView>) -> Outcome {
        match self.state {
            SessionState::Connecting => Outcome {
                session: SessionView { pending: self.pending.push(parsed), ..self },
                commands: Seq::empty(),
            },
            SessionState::Active => match parsed {
                None => self.close_with(Some(invalid_reason())),
                Some(m) => self.on_chat_message(m),
            },
            _ => self.idle(),
        }
    }

    /// A frame has arrived from the client.
    pub open spec fn on_frame(self, frame: FrameView, now: u64) -> Outcome {
        if !self.is_open() {
            self.idle()
        } else {
            match frame {
                FrameView::Ping(payload) => Outcome {
                    session: self.alive_at(now),
                    commands: seq![CommandView::Pong(payload)],
                },
                FrameView::Pong => Outcome {
                    session: self.alive_at(now),
                    commands: Seq::empty(),
                },
                FrameView::Text(parsed) => self.on_text(parsed),
                FrameView::Close(reason) => self.close_with(reason),
                FrameView::Continuation => self.close(),
                FrameView::Other => self.idle(),
            }
        }
    }

    /// The coordinator has a notice for the client: an open session relays
    /// it as it is.
    pub open spec fn on_notice(self, message: SessionMessageView) -> Outcome {
        if self.is_open() {
            Outcome { session: self, commands: seq![CommandView::Send(message)] }
        } else {
            self.idle()
        }
    }

    /// The transport is going away. The coordinator is told, unless it has
    /// been told already.
    pub open spec fn on_stopping(self) -> Outcome {
        if self.is_open() {
            Outcome {
                session: self.in_state(SessionState::Closed),
                commands: seq![self.departure()],
            }
        } else {
            Outcome { session: self.in_state(SessionState::Closed), commands: Seq::empty() }
        }
    }

    /// What `event` at the time `now` does to the session.
    pub open spec fn step(self, event: EventView, now: u64) -> Outcome {
        match event {
            EventView::Started => self.on_started(),
            EventView::Registered(id) => self.on_registered(id),
            EventView::Tick => self.on_tick(now),
            EventView::Frame(frame) => self.on_frame(frame, now),
            EventView::Notice(message) => self.on_notice(message),
            EventView::Stopping => self.on_stopping(),
        }
    }
}

/// `after` and `commands` are what `outcome` says.
pub open spec fn yields(after: SessionView, commands: Seq<Command>, outcome: Outcome) -> bool {
    after == outcome.session && commands_view(commands) == outcome.commands
}

/// No command.
fn no_command() -> (commands: Vec<Command>)
    ensures
        commands_view(commands@) == Seq::<CommandView>::empty(),
{
    let commands: Vec<Command> = Vec::new();
    proof {
        assert(commands_view(commands@) =~= Seq::<CommandView>::empty());
    }
    commands
}

/// The one command `a`.
fn one_command(a: Command) -> (commands: Vec<Command>)
    ensures
        commands_view(commands@) == seq![a@],
{
    let mut commands: Vec<Command> = Vec::new();
    commands.push(a);
    proof {
        assert(commands_view(commands@) =~= seq![a@]);
    }
    commands
}

/// The commands `a` and `b`, in this order.
fn two_commands(a: Command, b: Command) -> (commands: Vec<Command>)
    ensures
        commands_view(commands@) == seq![a@, b@],
{
    let mut commands: Vec<Command> = Vec::new();
    commands.push(a);
    commands.push(b);
    proof {
        assert(commands_view(commands@) =~= seq![a@, b@]);
    }
    commands
}

/// The commands `a`, `b` and `c`, in this order.
fn three_commands(a: Command, b: Command, c: Command) -> (commands: Vec<Command>)
    ensures
        commands_view(commands@) == seq![a@, b@, c@],
{
    let mut commands: Vec<Command> = Vec::new();
    commands.push(a);
    commands.push(b);
    commands.push(c);
    proof {
        assert(commands_view(commands@) =~= seq![a@, b@, c@]);
    }
    commands
}

impl CloseReason {
    /// The reason given to a client whose payload could not be decoded.
    pub fn invalid() -> (reason: CloseReason)
        ensures
            reason@ == invalid_reason(),
    {
        CloseReason {
            code: CloseCode::Invalid,
            description: Some(String::from_str("invalid request json")),
        }
    }

    /// The reason given to a client that asked for an unknown action.
    pub fn unsupported() -> (reason: CloseReason)
        ensures
            reason@ == unsupported_reason(),
    {
        CloseReason {
            code: CloseCode::Unsupported,
            description: Some(String::from_str("unsupported action")),
        }
    }
}

impl Session {
    /// A session for a connection that has opened at `now`: connecting,
    /// without an id.
    pub fn new(now: u64) -> (session: Session)
        ensures
            session@ == (SessionView {
                hb: now,
                session_id: Seq::empty(),
                state: SessionState::Connecting,
                pending: Seq::empty(),
            }),
    {
        let session = Session {
            hb: now,
            session_id: String::new(),
            state: SessionState::Connecting,
            pending: Vec::new(),
        };
        proof {
            assert(session@.pending =~= Seq::<Option<ChatMessageView>>::empty());
        }
        session
    }

    /// Whether the session is served: neither closing nor closed.
    pub fn is_open(&self) -> (open: bool)
        ensures
            open == self@.is_open(),
    {
        match self.state {
            SessionState::Connecting => true,
            SessionState::Active => true,
            SessionState::Closing => false,
            SessionState::Closed => false,
        }
    }

    /// The command that tells the coordinator that this session is gone.
    fn departure(&self) -> (command: Command)
        ensures
            command@ == self@.departure(),
    {
        Command::Disconnect(Disconnect { session_id: self.session_id.clone() })
    }

    /// Tears the session down.
    fn close(&mut self) -> (commands: Vec<Command>)
        ensures
            yields(final(self)@, commands@, old(self)@.close()),
    {
        let departure = self.departure();
        self.state = SessionState::Closing;
        two_commands(departure, Command::Stop)
    }

    /// Sends the client a close frame with `reason` and tears the session
    /// down.
    fn close_with(&mut self, reason: Option<CloseReason>) -> (commands: Vec<Command>)
        ensures
            yields(final(self)@, commands@, old(self)@.close_with(reason_view(reason))),
    {
        let departure = self.departure();
        self.state = SessionState::Closing;
        three_commands(Command::Close(reason), departure, Command::Stop)
    }

    /// The payload of a text frame is to be looked at.
    fn handle_text(&mut self, parsed: Option<ChatMessage>) -> (commands: Vec<Command>)
        ensures
            yields(final(self)@, commands@, old(self)@.on_text(payload_view(parsed))),
    {
        match self.state {
            SessionState::Connecting => {
                self.pending.push(parsed);
                proof {
                    assert(self@.pending =~= old(self)@.pending.push(payload_view(parsed)));
                }
                no_command()
            },
            SessionState::Active => {
                let msg = match parsed {
                    Some(msg) => msg,
                    None => {
                        return self.close_with(Some(CloseReason::invalid()));
                    },
                };
                if msg.action == String::from_str("publish-room") {
                    one_command(
                        Command::Publish(
                            Publish { message: msg.message, session_id: self.session_id.clone() },
                        ),
                    )
                } else if msg.action == String::from_str("disconnect") {
                    self.close()
                } else {
                    self.close_with(Some(CloseReason::unsupported()))
                }
            },
            _ => no_command(),
        }
    }

    /// Looks at the payloads that were held back, in order.
    fn catch_up(&mut self, pending: Vec<Option<ChatMessage>>) -> (commands: Vec<Command>)
        ensures
            yields(final(self)@, commands@, old(self)@.catch_up(payloads_view(pending@))),
    {
        let mut rest = pending;
        let mut commands: Vec<Command> = Vec::new();
        let ghost total = self@.catch_up(payloads_view(rest@));
        proof {
            assert(commands_view(commands@) + total.commands =~= total.commands);
        }
        while rest.len() > 0
            invariant
                self@.catch_up(payloads_view(rest@)).session == total.session,
                commands_view(commands@) + self@.catch_up(payloads_view(rest@)).commands
                    == total.commands,
            decreases rest@.len(),
        {
            let ghost before = self@;
            let ghost waiting = payloads_view(rest@);
            let ghost done = commands_view(commands@);
            let parsed = rest.remove(0);
            proof {
                assert(waiting[0] == payload_view(parsed));
                assert(payloads_view(rest@) =~= waiting.drop_first());
            }
            let mut more = self.handle_text(parsed);
            let ghost step = commands_view(more@);
            commands.append(&mut more);
            proof {
                assert(commands_view(commands@) =~= done + step);
                let rest_commands = self@.catch_up(payloads_view(rest@)).commands;
                assert((done + step) + rest_commands =~= done + (step + rest_commands));
            }
        }
        proof {
            assert(commands_view(commands@) + Seq::<CommandView>::empty() =~= commands_view(
                commands@,
            ));
        }
        commands
    }

    /// The connection has opened.
    pub fn started(&self) -> (commands: Vec<Command>)
        ensures
            yields(self@, commands@, self@.on_started()),
    {
        match self.state {
            SessionState::Connecting => two_commands(
                Command::StartHeartbeat(HEARTBEAT_INTERVAL),
                Command::Register,
            ),
            _ => no_command(),
        }
    }

    /// The registration has completed, with the assigned id or without one.
    pub fn registered(&mut self, id: Option<String>) -> (commands: Vec<Command>)
        ensures
            yields(
                final(self)@,
                commands@,
                old(self)@.on_registered(crate::messages::text_view(id)),
            ),
    {
        match self.state {
            SessionState::Connecting => match id {
                Some(id) => {
                    let mut pending: Vec<Option<ChatMessage>> = Vec::new();
                    core::mem::swap(&mut self.pending, &mut pending);
                    self.session_id = id;
                    self.state = SessionState::Active;
                    proof {
                        assert(self@.pending =~= Seq::<Option<ChatMessageView>>::empty());
                    }
                    self.catch_up(pending)
                },
                None => self.close(),
            },
            SessionState::Active => no_command(),
            _ => match id {
                Some(id) => one_command(Command::Disconnect(Disconnect { session_id: id })),
                None => no_command(),
            },
        }
    }

    /// The heartbeat timer has ticked at `now`.
    pub fn hb(&mut self, now: u64) -> (commands: Vec<Command>)
        ensures
            yields(final(self)@, commands@, old(self)@.on_tick(now)),
    {
        if !self.is_open() {
            return no_command();
        }
        if now >= self.hb && now - self.hb > CLIENT_TIMEOUT {
            return self.close();
        }
        let mut payload: Vec<u8> = Vec::new();
        payload.push(112u8);
        payload.push(105u8);
        payload.push(110u8);
        payload.push(103u8);
        proof {
            assert(payload@ =~= probe_payload());
        }
        one_command(Command::Ping(payload))
    }

    /// A frame has arrived from the client at `now`.
    pub fn handle_frame(&mut self, frame: Frame, now: u64) -> (commands: Vec<Command>)
        ensures
            yields(final(self)@, commands@, old(self)@.on_frame(frame@, now)),
    {
        if !self.is_open() {
            return no_command();
        }
        match frame {
            Frame::Ping(payload) => {
                self.hb = now;
                one_command(Command::Pong(payload))
            },
            Frame::Pong => {
                self.hb = now;
                no_command()
            },
            Frame::Text(parsed) => self.handle_text(parsed),
            Frame::Close(reason) => self.close_with(reason),
            Frame::Continuation => self.close(),
            Frame::Other => no_command(),
        }
    }

    /// The coordinator has a notice for the client.
    pub fn handle_notice(&self, message: SessionMessage) -> (commands: Vec<Command>)
        ensures
            yields(self@, commands@, self@.on_notice(message@)),
    {
        if self.is_open() {
            one_command(Command::Send(message))
        } else {
            no_command()
        }
    }

    /// The transport is going away.
    pub fn stopping(&mut self) -> (commands: Vec<Command>)
        ensures
            yields(final(self)@, commands@, old(self)@.on_stopping()),
    {
        if self.is_open() {
            let departure = self.departure();
            self.state = SessionState::Closed;
            one_command(departure)
        } else {
            self.state = SessionState::Closed;
            no_command()
        }
    }

    /// Feeds one event at the time `now` to the session.
    pub fn handle(&mut self, event: Event, now: u64) -> (commands: Vec<Command>)
        ensures
            yields(final(self)@, commands@, old(self)@.step(event@, now)),
    {
        match event {
            Event::Started => self.started(),
            Event::Registered(id) => self.registered(id),
            Event::Tick => self.hb(now),
            Event::Frame(frame) => self.handle_frame(frame, now),
            Event::Notice(message) => self.handle_notice(message),
            Event::Stopping => self.stopping(),
        }
    }
}

/// How many of `commands` tell the coordinator that a session is gone.
pub open spec fn departures(commands: Seq<CommandView>) -> nat
    decreases commands.len(),
{
    if commands.len() == 0 {
        0
    } else {
        departures(commands.drop_last()) + if commands.last() is Disconnect {
            1nat
        } else {
            0nat
        }
    }
}

/// `event` brings an id that the coordinator has assigned.
pub open spec fn brings_id(event: EventView) -> bool {
    event matches EventView::Registered(Some(_))
}

impl SessionView {
    /// What a sequence of events, each with its time, does to the session:
    /// the state after the last one and all commands, in order.
    pub open spec fn run(self, events: Seq<(EventView, u64)>) -> Outcome
        decreases events.len(),
    {
        if events.len() == 0 {
            self.idle()
        } else {
            let first = self.step(events[0].0, events[0].1);
            let rest = first.session.run(events.drop_first());
            Outcome { session: rest.session, commands: first.commands + rest.commands }
        }
    }

    /// How many of `events` bring an id to a session that is no longer
    /// open when they arrive.
    pub open spec fn late_ids(self, events: Seq<(EventView, u64)>) -> nat
        decreases events.len(),
    {
        if events.len() == 0 {
            0
        } else {
            let first = self.step(events[0].0, events[0].1);
            first.session.late_ids(events.drop_first()) + if !self.is_open() && brings_id(
                events[0].0,
            ) {
                1nat
            } else {
                0nat
            }
        }
    }
}

/// The departures of two lists of commands add up.
pub proof fn lemma_departures_add(a: Seq<CommandView>, b: Seq<CommandView>)
    ensures
        departures(a + b) == departures(a) + departures(b),
    decreases b.len(),
{
    if b.len() == 0 {
        assert(a + b =~= a);
    } else {
        lemma_departures_add(a, b.drop_last());
        assert((a + b).drop_last() =~= a + b.drop_last());
        assert((a + b).last() == b.last());
    }
}

/// The departures of up to three commands, one by one.
proof fn lemma_departures_short(commands: Seq<CommandView>)
    requires
        commands.len() <= 3,
    ensures
        commands.len() == 0 ==> departures(commands) == 0,
        commands.len() == 1 ==> departures(commands) == departures(seq![commands[0]]),
        commands.len() == 1 ==> departures(commands) == if commands[0] is Disconnect {
            1nat
        } else {
            0nat
        },
        commands.len() == 2 ==> departures(commands) == departures(seq![commands[0]])
            + departures(seq![commands[1]]),
        commands.len() == 3 ==> departures(commands) == departures(seq![commands[0]])
            + departures(seq![commands[1]]) + departures(seq![commands[2]]),
{
    if commands.len() == 1 {
        assert(commands =~= seq![commands[0]]);
        assert(commands.drop_last() =~= Seq::<CommandView>::empty());
        assert(departures(commands.drop_last()) == 0);
    } else if commands.len() == 2 {
        assert(commands =~= seq![commands[0]] + seq![commands[1]]);
        lemma_departures_add(seq![commands[0]], seq![commands[1]]);
    } else if commands.len() == 3 {
        assert(commands =~= seq![commands[0]] + seq![commands[1]] + seq![commands[2]]);
        lemma_departures_add(seq![commands[0]], seq![commands[1]]);
        lemma_departures_add(seq![commands[0]] + seq![commands[1]], seq![commands[2]]);
    }
}

/// One event that brings no id to a connecting session yields at most
/// three commands, and tells the coordinator of a departure exactly when
/// it ends an open session.
proof fn lemma_plain_step_departures(s: SessionView, event: EventView, now: u64)
    requires
        !(s.state == SessionState::Connecting && brings_id(event)),
    ensures
        !s.is_open() ==> !s.step(event, now).session.is_open(),
        s.state == SessionState::Active ==> s.step(event, now).session.state
            != SessionState::Connecting,
        s.is_open() ==> s.step(event, now).session.session_id == s.session_id,
        departures(s.step(event, now).commands) == if s.is_open() {
            if s.step(event, now).session.is_open() {
                0nat
            } else {
                1nat
            }
        } else {
            if brings_id(event) {
                1nat
            } else {
                0nat
            }
        },
        s.is_open() && !s.step(event, now).session.is_open() ==> s.step(
            event,
            now,
        ).commands.contains(s.departure()),
{
    let o = s.step(event, now);
    lemma_departures_short(o.commands);
    if o.commands.len() >= 1 {
        lemma_departures_short(seq![o.commands[0]]);
    }
    if o.commands.len() >= 2 {
        lemma_departures_short(seq![o.commands[1]]);
    }
    if o.commands.len() >= 3 {
        lemma_departures_short(seq![o.commands[2]]);
    }
    if s.is_open() && !o.session.is_open() {
        if o.commands.len() == 1 {
            assert(o.commands[0] == s.departure());
        } else if o.commands.len() == 2 {
            assert(o.commands[0] == s.departure());
        } else {
            assert(o.commands[1] == s.departure());
        }
    }
}

/// Catching up tells the coordinator of a departure exactly when it ends
/// the session, and then under the session's id.
proof fn lemma_catch_up_departures(s: SessionView, payloads: Seq<Option<ChatMessageView>>)
    requires
        s.state != SessionState::Connecting,
    ensures
        s.catch_up(payloads).session.state != SessionState::Connecting,
        s.catch_up(payloads).session.session_id == s.session_id,
        !s.is_open() ==> !s.catch_up(payloads).session.is_open(),
        departures(s.catch_up(payloads).commands) == if s.is_open() && !s.catch_up(
            payloads,
        ).session.is_open() {
            1nat
        } else {
            0nat
        },
        s.is_open() && !s.catch_up(payloads).session.is_open() ==> s.catch_up(
            payloads,
        ).commands.contains(s.departure()),
    decreases payloads.len(),
{
    if payloads.len() > 0 {
        let first = s.on_text(payloads[0]);
        let rest = first.session.catch_up(payloads.drop_first());
        assert(first == s.step(EventView::Frame(FrameView::Text(payloads[0])), 0));
        lemma_plain_step_departures(s, EventView::Frame(FrameView::Text(payloads[0])), 0);
        lemma_catch_up_departures(first.session, payloads.drop_first());
        lemma_departures_add(first.commands, rest.commands);
        let all = first.commands + rest.commands;
        if s.is_open() && !rest.session.is_open() {
            if first.session.is_open() {
                let i = choose|i: int|
                    0 <= i < rest.commands.len() && rest.commands[i] == s.departure();
                assert(all[first.commands.len() + i] == s.departure());
            } else {
                let i = choose|i: int|
                    0 <= i < first.commands.len() && first.commands[i] == s.departure();
                assert(all[i] == s.departure());
            }
        }
    }
}

/// A closing or closed session never opens again, and one event tells the
/// coordinator of a departure in two cases only: once when it ends an open
/// session, under the id that the session then has, and once for an id
/// that arrives too late to be used.
pub proof fn lemma_step_departures(s: SessionView, event: EventView, now: u64)
    ensures
        !s.is_open() ==> !s.step(event, now).session.is_open(),
        departures(s.step(event, now).commands) == if s.is_open() {
            if s.step(event, now).session.is_open() {
                0nat
            } else {
                1nat
            }
        } else {
            if brings_id(event) {
                1nat
            } else {
                0nat
            }
        },
        s.is_open() && !s.step(event, now).session.is_open() ==> s.step(
            event,
            now,
        ).commands.contains(s.step(event, now).session.departure()),
{
    if s.state == SessionState::Connecting && brings_id(event) {
        let id = event->Registered_0->0;
        let named = SessionView {
            session_id: id,
            state: SessionState::Active,
            pending: Seq::empty(),
            ..s
        };
        assert(s.step(event, now) == named.catch_up(s.pending));
        lemma_catch_up_departures(named, s.pending);
    } else {
        lemma_plain_step_departures(s, event, now);
    }
}

/// Over any sequence of events the coordinator is told of the session's
/// departure exactly once if the session was open and no longer is, and not
/// at all otherwise; every further such command returns an id that arrived
/// too late.
pub proof fn lemma_departure_once(s: SessionView, events: Seq<(EventView, u64)>)
    ensures
        !s.is_open() ==> !s.run(events).session.is_open(),
        departures(s.run(events).commands) == s.late_ids(events) + if s.is_open() && !s.run(
            events,
        ).session.is_open() {
            1nat
        } else {
            0nat
        },
    decreases events.len(),
{
    if events.len() == 0 {
    } else {
        let first = s.step(events[0].0, events[0].1);
        let rest = first.session.run(events.drop_first());
        lemma_step_departures(s, events[0].0, events[0].1);
        lemma_departure_once(first.session, events.drop_first());
        lemma_departures_add(first.commands, rest.commands);
    }
}

/// A session that has been silent for too long ends exactly as one whose
/// client asks to be disconnected: same state, same commands.
pub proof fn lemma_timeout_is_disconnect(s: SessionView, now: u64, request: ChatMessageView)
    requires
        s.state == SessionState::Active,
        s.timed_out(now),
        request.action == "disconnect"@,
    ensures
        s.on_tick(now) == s.on_frame(FrameView::Text(Some(request)), now),
        s.on_tick(now) == s.close(),
{
    reveal_strlit("disconnect");
    reveal_strlit("publish-room");
    assert("disconnect"@.len() != "publish-room"@.len());
}

/// What a text frame does to an active session, by its payload: one that
/// does not decode closes the connection as invalid; the two known actions
/// never send a close frame; any other action closes the connection as
/// unsupported.
pub proof fn lemma_text_frames(s: SessionView, m: ChatMessageView, now: u64)
    requires
        s.state == SessionState::Active,
    ensures
        s.on_frame(FrameView::Text(None), now) == s.close_with(Some(invalid_reason())),
        m.action == "publish-room"@ ==> s.on_frame(FrameView::Text(Some(m)), now) == (Outcome {
            session: s,
            commands: seq![
                CommandView::Publish(
                    PublishView { message: m.message, session_id: s.session_id },
                ),
            ],
        }),
        m.action == "disconnect"@ ==> s.on_frame(FrameView::Text(Some(m)), now) == s.close(),
        m.action == "publish-room"@ || m.action == "disconnect"@ ==> forall|i: int|
            0 <= i < s.on_frame(FrameView::Text(Some(m)), now).commands.len() ==> !(
            #[trigger] s.on_frame(FrameView::Text(Some(m)), now).commands[i] is Close),
        m.action != "publish-room"@ && m.action != "disconnect"@ ==> s.on_frame(
            FrameView::Text(Some(m)),
            now,
        ) == s.close_with(Some(unsupported_reason())),
{
    reveal_strlit("disconnect");
    reveal_strlit("publish-room");
    assert("disconnect"@.len() != "publish-room"@.len());
}

} // verus!
