use twitch_api::eventsub::{Event, EventsubWebsocketData as D, ReconnectPayload, WelcomePayload};
use vstd::prelude::*;

verus! {

/// The kind of event a subscription registers for.
#[derive(PartialEq, Eq, Structural, Clone, Copy, Debug)]
pub enum SubscriptionKind {
    /// Chat messages sent in a channel.
    ChatMessage,
    /// Chat notifications (subs, raids, announcements) in a channel.
    ChatNotification,
    /// Changes to the account of the signed-in user.
    UserUpdate,
}

/// One registration that the server acknowledged: the channel it serves,
/// the id the server issued for it, and the event type it delivers.
#[derive(Debug)]
pub struct EventSubSubscription {
    pub channel_name: String,
    pub id: String,
    pub sub_type: String,
}

impl Clone for EventSubSubscription {
    fn clone(&self) -> (r: Self)
        ensures
            r == *self,
    {
        EventSubSubscription {
            channel_name: self.channel_name.clone(),
            id: self.id.clone(),
            sub_type: self.sub_type.clone(),
        }
    }
}

/// Whether `a` and `b` record the same channel, id and event type.
pub open spec fn same_record(a: EventSubSubscription, b: EventSubSubscription) -> bool {
    a.channel_name@ == b.channel_name@ && a.id@ == b.id@ && a.sub_type@ == b.sub_type@
}

/// Whether `subs` holds a record equal to `s`.
pub open spec fn has_record(subs: Seq<EventSubSubscription>, s: EventSubSubscription) -> bool {
    exists|i: int| 0 <= i < subs.len() && same_record(#[trigger] subs[i], s)
}

/// No record is held twice.
pub open spec fn records_unique(subs: Seq<EventSubSubscription>) -> bool {
    forall|i: int, j: int|
        0 <= i < subs.len() && 0 <= j < subs.len() && i != j ==> !same_record(
            #[trigger] subs[i],
            #[trigger] subs[j],
        )
}

/// Whether some record in `subs` belongs to the channel named `c`.
pub open spec fn has_channel(subs: Seq<EventSubSubscription>, c: Seq<char>) -> bool {
    exists|i: int| 0 <= i < subs.len() && (#[trigger] subs[i]).channel_name@ == c
}

/// Whether a record belongs to the channel named `c`.
pub open spec fn on_channel(c: Seq<char>) -> spec_fn(EventSubSubscription) -> bool {
    |s: EventSubSubscription| s.channel_name@ == c
}

/// Whether a record belongs to another channel than `c`.
pub open spec fn off_channel(c: Seq<char>) -> spec_fn(EventSubSubscription) -> bool {
    |s: EventSubSubscription| s.channel_name@ != c
}

/// The records in `subs` that belong to the channel named `c`, in order.
pub open spec fn records_of(subs: Seq<EventSubSubscription>, c: Seq<char>) -> Seq<EventSubSubscription> {
    subs.filter(on_channel(c))
}

/// The records in `subs` that belong to other channels than `c`, in order.
pub open spec fn records_without(subs: Seq<EventSubSubscription>, c: Seq<char>) -> Seq<EventSubSubscription> {
    subs.filter(off_channel(c))
}

/// `subs` after recording `s`: a record that is already present is not
/// recorded twice.
pub open spec fn with_record(subs: Seq<EventSubSubscription>, s: EventSubSubscription) -> Seq<EventSubSubscription> {
    if has_record(subs, s) {
        subs
    } else {
        subs.push(s)
    }
}

} // verus!

verus! {

/// A call to the platform that a join or a leave needs made.
#[derive(Debug)]
pub enum ChatRequest {
    /// Register `kind` events of the broadcaster for the session, on behalf of
    /// `user_id`.
    Subscribe { kind: SubscriptionKind, broadcaster_id: String, user_id: String, session_id: String },
    /// Cancel the subscription with this id.
    Cancel { id: String },
}

impl Clone for ChatRequest {
    fn clone(&self) -> (r: Self)
        ensures
            r == *self,
    {
        match self {
            ChatRequest::Subscribe { kind, broadcaster_id, user_id, session_id } => {
                ChatRequest::Subscribe {
                    kind: *kind,
                    broadcaster_id: broadcaster_id.clone(),
                    user_id: user_id.clone(),
                    session_id: session_id.clone(),
                }
            },
            ChatRequest::Cancel { id } => ChatRequest::Cancel { id: id.clone() },
        }
    }
}

/// What came of a [`ChatRequest`].
#[derive(Debug)]
pub enum CallOutcome {
    /// The server created a subscription with this id and event type.
    Created { id: String, sub_type: String },
    /// The server deleted the subscription.
    Deleted,
    /// The call failed.
    Failed { reason: String },
}

/// The failures that the session engine reports.
#[derive(Debug)]
pub enum SessionError {
    /// No session id has been issued yet: nothing may be subscribed.
    NoSession,
    /// A call failed; the request is given so that the caller can retry.
    RequestFailed { request: ChatRequest, reason: String },
    /// The outcome handed back does not answer the request that was made.
    UnexpectedOutcome { request: ChatRequest },
    /// The server revoked a subscription of this event type.
    Revoked { sub_type: String },
    /// The server closed the connection.
    ConnectionClosed,
    /// A frame could not be decoded.
    MalformedFrame { reason: String },
}

/// The state of a join or a leave that is under way.
pub struct OperationView {
    pub channel_name: String,
    pub requests: Seq<ChatRequest>,
    pub next: nat,
    pub leaving: bool,
}

/// A join or a leave under way: the calls it needs, in order, and how many of
/// them have succeeded.
pub struct ChatOperation {
    channel_name: String,
    requests: Vec<ChatRequest>,
    next: usize,
    leaving: bool,
}

impl View for ChatOperation {
    type V = OperationView;

    closed spec fn view(&self) -> OperationView {
        OperationView {
            channel_name: self.channel_name,
            requests: self.requests@,
            next: self.next as nat,
            leaving: self.leaving,
        }
    }
}

impl ChatOperation {
    /// The call to make next, or `None` once the operation is over.
    pub fn next_call(&self) -> (r: Option<ChatRequest>)
        ensures
            r == (if self@.next < self@.requests.len() {
                Some(self@.requests[self@.next as int])
            } else {
                None
            }),
    {
        if self.next < self.requests.len() {
            Some(self.requests[self.next].clone())
        } else {
            None
        }
    }

    /// Whether every call has been made or the operation has failed.
    pub fn is_finished(&self) -> (r: bool)
        ensures
            r == (self@.next >= self@.requests.len()),
    {
        self.next >= self.requests.len()
    }
}

/// The state of the session engine; `baseline_sent` tells whether the
/// baseline subscription of the first welcome was created.
pub struct ManagerView {
    pub session_id: String,
    pub connect_url: Seq<char>,
    pub subscriptions: Seq<EventSubSubscription>,
    pub baseline_sent: bool,
}

/// The session engine: the current session id, the endpoint to dial, and the
/// subscriptions that the server has acknowledged.
pub struct EventSubManager {
    session_id: String,
    connect_url: String,
    subscriptions: Vec<EventSubSubscription>,
    baseline_sent: bool,
}

impl View for EventSubManager {
    type V = ManagerView;

    closed spec fn view(&self) -> ManagerView {
        ManagerView {
            session_id: self.session_id,
            connect_url: self.connect_url@,
            subscriptions: self.subscriptions@,
            baseline_sent: self.baseline_sent,
        }
    }
}

/// The endpoint dialled until the server names another.
pub open spec fn default_connect_url() -> Seq<char> {
    "wss://eventsub.wss.twitch.tv/ws"@
}

/// Relies on twitch_api::TWITCH_EVENTSUB_WEBSOCKET_URL: the platform's
/// well-known event socket endpoint, a fixed URL unless the crate's
/// `mock_api` feature is on, which this crate does not enable.
#[verifier::external_body]
fn eventsub_websocket_url() -> (r: String)
    ensures
        r@ == default_connect_url(),
{
    twitch_api::TWITCH_EVENTSUB_WEBSOCKET_URL.as_str().to_owned()
}

/// The request subscribing `kind` events of `broadcaster_id` for `session_id`.
pub open spec fn subscribe_request(
    kind: SubscriptionKind,
    broadcaster_id: String,
    user_id: String,
    session_id: String,
) -> ChatRequest {
    ChatRequest::Subscribe { kind, broadcaster_id, user_id, session_id }
}

/// The cancel request for a record.
pub open spec fn cancel_request(s: EventSubSubscription) -> ChatRequest {
    ChatRequest::Cancel { id: s.id }
}

/// The calls that a join needs: none where the channel has subscriptions,
/// else the message stream, then the notification stream.
pub open spec fn join_requests(
    m: ManagerView,
    broadcaster_id: String,
    channel_name: String,
    user_id: String,
    session_id: String,
) -> Seq<ChatRequest> {
    if has_channel(m.subscriptions, channel_name@) {
        seq![]
    } else {
        seq![
            subscribe_request(SubscriptionKind::ChatMessage, broadcaster_id, user_id, session_id),
            subscribe_request(SubscriptionKind::ChatNotification, broadcaster_id, user_id, session_id),
        ]
    }
}

/// The calls that a leave needs: one cancel per record of the channel.
pub open spec fn leave_requests(m: ManagerView, channel_name: Seq<char>) -> Seq<ChatRequest> {
    records_of(m.subscriptions, channel_name).map_values(|s: EventSubSubscription| cancel_request(s))
}

/// The record that a created subscription adds.
pub open spec fn record_for(channel_name: String, id: String, sub_type: String) -> EventSubSubscription {
    EventSubSubscription { channel_name, id, sub_type }
}

/// The state after an operation's pending call came out as `outcome`, the
/// operation after it, and what the step reports.
pub open spec fn step_spec(m: ManagerView, op: OperationView, outcome: CallOutcome) -> (
    ManagerView,
    OperationView,
    Result<(), SessionError>,
) {
    if op.next >= op.requests.len() {
        (m, op, Ok(()))
    } else {
        let request = op.requests[op.next as int];
        let finished = OperationView { next: op.requests.len(), ..op };
        match (request, outcome) {
            (ChatRequest::Subscribe { .. }, CallOutcome::Created { id, sub_type }) => {
                let subs = with_record(m.subscriptions, record_for(op.channel_name, id, sub_type));
                (ManagerView { subscriptions: subs, ..m }, OperationView { next: op.next + 1, ..op }, Ok(()))
            },
            (ChatRequest::Cancel { .. }, CallOutcome::Deleted) => {
                let done = op.next + 1 == op.requests.len();
                let subs = if done && op.leaving {
                    records_without(m.subscriptions, op.channel_name@)
                } else {
                    m.subscriptions
                };
                (ManagerView { subscriptions: subs, ..m }, OperationView { next: op.next + 1, ..op }, Ok(()))
            },
            (_, CallOutcome::Failed { reason }) => {
                (m, finished, Err(SessionError::RequestFailed { request, reason }))
            },
            _ => (m, finished, Err(SessionError::UnexpectedOutcome { request })),
        }
    }
}

impl EventSubManager {
    /// A manager with no session, the default endpoint and no subscriptions.
    pub fn new() -> (r: EventSubManager)
        ensures
            r@.session_id@.len() == 0,
            r@.connect_url == default_connect_url(),
            r@.subscriptions.len() == 0,
            !r@.baseline_sent,
    {
        EventSubManager {
            session_id: String::new(),
            connect_url: eventsub_websocket_url(),
            subscriptions: Vec::new(),
            baseline_sent: false,
        }
    }

    /// The current session id; empty before the first welcome.
    pub fn session_id(&self) -> (r: &String)
        ensures
            *r == self@.session_id,
    {
        &self.session_id
    }

    /// The endpoint to dial.
    pub fn connect_url(&self) -> (r: &String)
        ensures
            r@ == self@.connect_url,
    {
        &self.connect_url
    }

    /// The acknowledged subscriptions, in the order they were recorded.
    pub fn subscriptions(&self) -> (r: &Vec<EventSubSubscription>)
        ensures
            r@ == self@.subscriptions,
    {
        &self.subscriptions
    }

    /// Whether the channel has at least one acknowledged subscription.
    pub fn has_subscription(&self, channel_name: &String) -> (r: bool)
        ensures
            r == has_channel(self@.subscriptions, channel_name@),
    {
        let mut i: usize = 0;
        while i < self.subscriptions.len()
            invariant
                i <= self.subscriptions@.len(),
                forall|j: int| 0 <= j < i ==> (#[trigger] self.subscriptions@[j]).channel_name@ != channel_name@,
            decreases self.subscriptions.len() - i,
        {
            if self.subscriptions[i].channel_name == *channel_name {
                return true;
            }
            i = i + 1;
        }
        false
    }

    /// Records `sub`, unless an equal record is already held.
    fn add_subscription(&mut self, sub: EventSubSubscription)
        ensures
            final(self)@ == (ManagerView { subscriptions: with_record(old(self)@.subscriptions, sub), ..old(self)@ }),
    {
        let mut i: usize = 0;
        while i < self.subscriptions.len()
            invariant
                i <= self.subscriptions@.len(),
                forall|j: int| 0 <= j < i ==> !same_record(#[trigger] self.subscriptions@[j], sub),
            decreases self.subscriptions.len() - i,
        {
            let s = &self.subscriptions[i];
            if s.channel_name == sub.channel_name && s.id == sub.id && s.sub_type == sub.sub_type {
                return;
            }
            i = i + 1;
        }
        self.subscriptions.push(sub);
    }

    /// Forgets every record of the channel.
    fn remove_subscriptions(&mut self, channel_name: &String)
        ensures
            final(self)@ == (ManagerView {
                subscriptions: records_without(old(self)@.subscriptions, channel_name@),
                ..old(self)@
            }),
    {
        let ghost old_subs = self.subscriptions@;
        let mut kept: Vec<EventSubSubscription> = Vec::new();
        let mut i: usize = 0;
        while i < self.subscriptions.len()
            invariant
                self.subscriptions@ == old_subs,
                i <= old_subs.len(),
                kept@ == records_without(old_subs.take(i as int), channel_name@),
            decreases self.subscriptions.len() - i,
        {
            proof {
                assert(old_subs.take(i + 1).drop_last() =~= old_subs.take(i as int));
                reveal(Seq::filter);
            }
            if self.subscriptions[i].channel_name != *channel_name {
                kept.push(self.subscriptions[i].clone());
            }
            i = i + 1;
        }
        proof {
            assert(old_subs.take(old_subs.len() as int) =~= old_subs);
        }
        self.subscriptions = kept;
    }

    /// The cancel requests for every record of the channel, in order.
    fn cancel_requests(&self, channel_name: &String) -> (r: Vec<ChatRequest>)
        ensures
            r@ == leave_requests(self@, channel_name@),
    {
        let mut out: Vec<ChatRequest> = Vec::new();
        let mut i: usize = 0;
        while i < self.subscriptions.len()
            invariant
                i <= self.subscriptions@.len(),
                out@ == records_of(self.subscriptions@.take(i as int), channel_name@).map_values(
                    |s: EventSubSubscription| cancel_request(s),
                ),
            decreases self.subscriptions.len() - i,
        {
            proof {
                assert(self.subscriptions@.take(i + 1).drop_last() =~= self.subscriptions@.take(i as int));
                reveal(Seq::filter);
            }
            if self.subscriptions[i].channel_name == *channel_name {
                out.push(ChatRequest::Cancel { id: self.subscriptions[i].id.clone() });
                proof {
                    let f = |s: EventSubSubscription| cancel_request(s);
                    let prev = records_of(self.subscriptions@.take(i as int), channel_name@);
                    assert(records_of(self.subscriptions@.take(i + 1), channel_name@) == prev.push(
                        self.subscriptions@[i as int],
                    ));
                    assert(prev.push(self.subscriptions@[i as int]).map_values(f) =~= prev.map_values(f).push(
                        f(self.subscriptions@[i as int]),
                    ));
                }
            }
            i = i + 1;
        }
        proof {
            assert(self.subscriptions@.take(self.subscriptions@.len() as int) =~= self.subscriptions@);
        }
        out
    }

    /// Starts joining a channel's chat: fails with [`SessionError::NoSession`]
    /// before the first welcome; where the channel already has subscriptions
    /// the operation needs no call; else it subscribes to the message stream,
    /// then to the notification stream.
    pub fn join_chat(&self, chat_id: String, chat_name: String, user_id: String) -> (r: Result<
        ChatOperation,
        SessionError,
    >)
        ensures
            self@.session_id@.len() == 0 ==> r == Err::<ChatOperation, SessionError>(SessionError::NoSession),
            self@.session_id@.len() != 0 ==> r is Ok && r->Ok_0@ == (OperationView {
                channel_name: chat_name,
                requests: join_requests(self@, chat_id, chat_name, user_id, self@.session_id),
                next: 0,
                leaving: false,
            }),
    {
        if self.session_id.as_str().is_empty() {
            proof {
                assert(self@.session_id@.len() == 0);
            }
            return Err(SessionError::NoSession);
        }
        let mut requests: Vec<ChatRequest> = Vec::new();
        if !self.has_subscription(&chat_name) {
            requests.push(ChatRequest::Subscribe {
                kind: SubscriptionKind::ChatMessage,
                broadcaster_id: chat_id.clone(),
                user_id: user_id.clone(),
                session_id: self.session_id.clone(),
            });
            requests.push(ChatRequest::Subscribe {
                kind: SubscriptionKind::ChatNotification,
                broadcaster_id: chat_id,
                user_id: user_id,
                session_id: self.session_id.clone(),
            });
        }
        proof {
            assert(requests@ =~= join_requests(self@, chat_id, chat_name, user_id, self@.session_id));
        }
        Ok(ChatOperation { channel_name: chat_name, requests, next: 0, leaving: false })
    }

    /// Starts leaving a channel's chat: the operation cancels each record of
    /// the channel, and makes no call where it has no record. A cancel names
    /// only the subscription, so no session is needed.
    pub fn leave_chat(&self, chat_name: String) -> (r: Result<ChatOperation, SessionError>)
        ensures
            r is Ok && r->Ok_0@ == (OperationView {
                channel_name: chat_name,
                requests: leave_requests(self@, chat_name@),
                next: 0,
                leaving: true,
            }),
    {
        let requests = self.cancel_requests(&chat_name);
        Ok(ChatOperation { channel_name: chat_name, requests, next: 0, leaving: true })
    }

    /// Takes in what came of the operation's pending call: a created
    /// subscription is recorded, and once every cancel of a leave has
    /// succeeded the channel's records are forgotten. A failed or mismatched
    /// outcome ends the operation with an error and changes no record.
    pub fn complete_call(&mut self, op: &mut ChatOperation, outcome: CallOutcome) -> (r: Result<
        (),
        SessionError,
    >)
        ensures
            (final(self)@, final(op)@, r) == step_spec(old(self)@, old(op)@, outcome),
    {
        if op.next >= op.requests.len() {
            return Ok(());
        }
        let request = op.requests[op.next].clone();
        let n = op.requests.len();
        match (&request, outcome) {
            (ChatRequest::Subscribe { .. }, CallOutcome::Created { id, sub_type }) => {
                self.add_subscription(
                    EventSubSubscription { channel_name: op.channel_name.clone(), id, sub_type },
                );
                op.next = op.next + 1;
                Ok(())
            },
            (ChatRequest::Cancel { .. }, CallOutcome::Deleted) => {
                op.next = op.next + 1;
                if op.next == n && op.leaving {
                    self.remove_subscriptions(&op.channel_name);
                }
                Ok(())
            },
            (_, CallOutcome::Failed { reason }) => {
                op.next = n;
                Err(SessionError::RequestFailed { request, reason })
            },
            _ => {
                op.next = n;
                Err(SessionError::UnexpectedOutcome { request })
            },
        }
    }
}

} // verus!

verus! {

#[verifier::external_type_specification]
#[verifier::external_body]
pub struct ExEvent(twitch_api::eventsub::Event);

/// An event pushed by the server, with the server's timestamp.
#[derive(Debug)]
pub struct EventNotification {
    pub ts: String,
    pub event: twitch_api::eventsub::Event,
}

/// The session identity that a welcome or a reconnect frame carries.
#[derive(Debug)]
pub struct SessionData {
    pub id: String,
    pub reconnect_url: Option<String>,
}

/// A decoded control frame of the event socket.
#[derive(Debug)]
pub enum Frame {
    /// A welcome, or a reconnect that announces a migration: both carry the
    /// session's new identity.
    Session(SessionData),
    Notification(EventNotification),
    Revocation { sub_type: String },
    Keepalive,
    /// A frame of a kind this engine does not act on.
    Other,
}

/// What a frame holds, apart from a notification's payload.
pub enum FrameView {
    Session { id: Seq<char>, reconnect_url: Option<Seq<char>> },
    Notification { ts: Seq<char> },
    Revocation { sub_type: Seq<char> },
    Keepalive,
    Other,
}

/// The text of an optional endpoint.
pub open spec fn url_view(u: Option<String>) -> Option<Seq<char>> {
    match u {
        Some(s) => Some(s@),
        None => None,
    }
}

impl View for Frame {
    type V = FrameView;

    open spec fn view(&self) -> FrameView {
        match self {
            Frame::Session(d) => FrameView::Session { id: d.id@, reconnect_url: url_view(d.reconnect_url) },
            Frame::Notification(n) => FrameView::Notification { ts: n.ts@ },
            Frame::Revocation { sub_type } => FrameView::Revocation { sub_type: sub_type@ },
            Frame::Keepalive => FrameView::Keepalive,
            Frame::Other => FrameView::Other,
        }
    }
}

/// The frame that the platform's decoder reads from a text message, or `None`
/// where it refuses the text.
pub uninterp spec fn websocket_frame(text: Seq<char>) -> Option<FrameView>;

/// Relies on twitch_api's `Event::parse_websocket`: decodes a text message of
/// the event socket; the result depends on the text alone.
#[verifier::external_body]
fn parse_frame(text: &str) -> (r: Result<Frame, String>)
    ensures
        match r {
            Ok(f) => websocket_frame(text@) == Some(f@),
            Err(_) => websocket_frame(text@) is None,
        },
{
    match Event::parse_websocket(text) {
        Ok(D::Welcome { payload: WelcomePayload { session: s }, .. })
        | Ok(D::Reconnect { payload: ReconnectPayload { session: s }, .. }) => Ok(Frame::Session(
            SessionData { id: s.id.into(), reconnect_url: s.reconnect_url.map(Into::into) },
        )),
        Ok(D::Notification { metadata, payload }) => Ok(Frame::Notification(
            EventNotification { ts: metadata.message_timestamp.to_string(), event: payload },
        )),
        Ok(D::Revocation { metadata, .. }) => Ok(Frame::Revocation { sub_type: metadata.subscription_type.to_str().into() }),
        Ok(D::Keepalive { .. }) => Ok(Frame::Keepalive),
        Ok(_) => Ok(Frame::Other),
        Err(e) => Err(e.to_string()),
    }
}

/// A message read from the socket, as far as the engine tells them apart.
#[derive(Debug)]
pub enum WireMessage {
    Text(String),
    Close,
    /// Binary, ping and pong messages.
    Other,
}

/// What the owner of the read loop does after a frame.
#[derive(Debug)]
pub enum FrameAction {
    /// Read the next message.
    Continue,
    /// Hand the notification to the consumer, then read on.
    Deliver(EventNotification),
    /// Make the baseline subscription, report it with
    /// [`EventSubManager::complete_baseline`], then read on.
    Subscribe(ChatRequest),
    /// Give up this connection attempt.
    Abort(SessionError),
}

/// The state after a frame, and the action it calls for. The first welcome
/// asks for the baseline subscription on the user's account.
pub open spec fn frame_step(m: ManagerView, f: Frame, user_id: String) -> (ManagerView, FrameAction) {
    match f {
        Frame::Session(d) => welcome_step(m, d, user_id),
        Frame::Notification(n) => (m, FrameAction::Deliver(n)),
        Frame::Revocation { sub_type } => (m, FrameAction::Abort(SessionError::Revoked { sub_type })),
        Frame::Keepalive => (m, FrameAction::Continue),
        Frame::Other => (m, FrameAction::Continue),
    }
}

/// A welcome or reconnect: the session id is replaced, and the endpoint where
/// the frame names one.
pub open spec fn welcome_step(m: ManagerView, d: SessionData, user_id: String) -> (ManagerView, FrameAction) {
    let url = match d.reconnect_url {
        Some(u) => u@,
        None => m.connect_url,
    };
    let m2 = ManagerView { session_id: d.id, connect_url: url, ..m };
    if m.baseline_sent {
        (m2, FrameAction::Continue)
    } else {
        (m2, FrameAction::Subscribe(subscribe_request(SubscriptionKind::UserUpdate, user_id, user_id, d.id)))
    }
}

impl EventSubManager {
    /// Acts on a decoded frame on behalf of the user `user_id`.
    pub fn process_frame(&mut self, frame: Frame, user_id: String) -> (r: FrameAction)
        ensures
            (final(self)@, r) == frame_step(old(self)@, frame, user_id),
    {
        match frame {
            Frame::Session(d) => self.process_welcome_message(d, user_id),
            Frame::Notification(n) => FrameAction::Deliver(n),
            Frame::Revocation { sub_type } => FrameAction::Abort(SessionError::Revoked { sub_type }),
            Frame::Keepalive => FrameAction::Continue,
            Frame::Other => FrameAction::Continue,
        }
    }

    fn process_welcome_message(&mut self, data: SessionData, user_id: String) -> (r: FrameAction)
        ensures
            (final(self)@, r) == welcome_step(old(self)@, data, user_id),
    {
        let SessionData { id, reconnect_url } = data;
        self.session_id = id.clone();
        match reconnect_url {
            Some(u) => {
                self.connect_url = u;
            },
            None => {},
        }
        if self.baseline_sent {
            FrameAction::Continue
        } else {
            FrameAction::Subscribe(ChatRequest::Subscribe {
                kind: SubscriptionKind::UserUpdate,
                broadcaster_id: user_id.clone(),
                user_id,
                session_id: id,
            })
        }
    }

    /// Acts on a message read from the socket: text is decoded and handled as
    /// [`EventSubManager::process_frame`] does; a close, or text that does not
    /// decode, aborts the attempt and changes nothing; other messages are
    /// skipped.
    pub fn process_message(&mut self, msg: WireMessage, user_id: String) -> (r: FrameAction)
        ensures
            match msg {
                WireMessage::Text(s) => match websocket_frame(s@) {
                    Some(fv) => exists|f: Frame| #[trigger] f@ == fv && (final(self)@, r) == frame_step(old(self)@, f, user_id),
                    None => final(self)@ == old(self)@ && r matches FrameAction::Abort(SessionError::MalformedFrame { .. }),
                },
                WireMessage::Close => final(self)@ == old(self)@ && r == FrameAction::Abort(SessionError::ConnectionClosed),
                WireMessage::Other => final(self)@ == old(self)@ && r == FrameAction::Continue,
            },
    {
        match msg {
            WireMessage::Text(s) => match parse_frame(s.as_str()) {
                Ok(f) => {
                    let ghost g = f;
                    let r = self.process_frame(f, user_id);
                    proof {
                        assert(g@ == websocket_frame(s@)->Some_0);
                    }
                    r
                },
                Err(reason) => FrameAction::Abort(SessionError::MalformedFrame { reason }),
            },
            WireMessage::Close => FrameAction::Abort(SessionError::ConnectionClosed),
            WireMessage::Other => FrameAction::Continue,
        }
    }

    /// Takes in what came of the baseline subscription: once it is created no
    /// later welcome asks for it again; a failure is reported with the request.
    pub fn complete_baseline(&mut self, request: ChatRequest, outcome: CallOutcome) -> (r: Result<(), SessionError>)
        ensures
            match outcome {
                CallOutcome::Created { .. } => final(self)@ == (ManagerView { baseline_sent: true, ..old(self)@ }) && r is Ok,
                CallOutcome::Failed { reason } => final(self)@ == old(self)@ && r == Err::<(), SessionError>(SessionError::RequestFailed { request, reason }),
                CallOutcome::Deleted => final(self)@ == old(self)@ && r == Err::<(), SessionError>(SessionError::UnexpectedOutcome { request }),
            },
    {
        match outcome {
            CallOutcome::Created { .. } => {
                self.baseline_sent = true;
                Ok(())
            },
            CallOutcome::Failed { reason } => Err(SessionError::RequestFailed { request, reason }),
            CallOutcome::Deleted => Err(SessionError::UnexpectedOutcome { request }),
        }
    }
}

/// The fixed delay before redialling after a failed attempt.
pub const RECONNECT_BACKOFF_SECS: u64 = 10;

/// How a connection attempt ended.
#[derive(PartialEq, Eq, Structural, Clone, Copy, Debug)]
pub enum TransportEvent {
    /// The endpoint could not be dialled.
    DialFailed,
    /// The peer reset the socket without a closing handshake.
    ResetWithoutClose,
    /// Any other transport error.
    Failed,
    /// The stream ended, or the read loop was told to abort.
    Ended,
}

/// When to dial again.
#[derive(PartialEq, Eq, Structural, Clone, Copy, Debug)]
pub enum Recovery {
    RedialNow,
    RedialAfter { secs: u64 },
}

/// A reset without a closing handshake is redialled at once and is not an
/// error; every other end of an attempt waits for the fixed backoff.
pub open spec fn recovery_spec(event: TransportEvent) -> Recovery {
    if event == TransportEvent::ResetWithoutClose {
        Recovery::RedialNow
    } else {
        Recovery::RedialAfter { secs: RECONNECT_BACKOFF_SECS }
    }
}

/// When to dial again after a connection attempt ended with `event`.
pub fn recovery_for(event: TransportEvent) -> (r: Recovery)
    ensures
        r == recovery_spec(event),
{
    match event {
        TransportEvent::ResetWithoutClose => Recovery::RedialNow,
        _ => Recovery::RedialAfter { secs: RECONNECT_BACKOFF_SECS },
    }
}

} // verus!

verus! {

/// The server's answers to the calls of one operation: `answer(j, q)` is
/// what came of its call number `j`, the request `q`.
pub type Answers = spec_fn(nat, ChatRequest) -> CallOutcome;

/// Answers under which every call succeeds: a subscribe creates a
/// subscription, a cancel deletes one. What is created is left open.
pub open spec fn all_succeed(answer: Answers) -> bool {
    forall|j: nat, q: ChatRequest|
        (q is Subscribe ==> #[trigger] answer(j, q) is Created) && (q is Cancel ==> answer(j, q) is Deleted)
}

/// The state and the operation after at most `fuel` more of the operation's
/// calls were answered by `answer`.
pub open spec fn drive(m: ManagerView, op: OperationView, answer: Answers, fuel: nat) -> (
    ManagerView,
    OperationView,
)
    decreases fuel,
{
    if fuel == 0 || op.next >= op.requests.len() {
        (m, op)
    } else {
        let (m2, op2, _r) = step_spec(m, op, answer(op.next, op.requests[op.next as int]));
        drive(m2, op2, answer, (fuel - 1) as nat)
    }
}

/// The operation that [`EventSubManager::join_chat`] starts in state `m`.
pub open spec fn join_op(m: ManagerView, chat_id: String, c: String, user_id: String) -> OperationView {
    OperationView {
        channel_name: c,
        requests: join_requests(m, chat_id, c, user_id, m.session_id),
        next: 0,
        leaving: false,
    }
}

/// The operation that [`EventSubManager::leave_chat`] starts in state `m`.
pub open spec fn leave_op(m: ManagerView, c: String) -> OperationView {
    OperationView { channel_name: c, requests: leave_requests(m, c@), next: 0, leaving: true }
}

/// The state after a join of `c` whose every call was answered by `answer`;
/// without a session the join fails and changes nothing.
pub open spec fn joined(m: ManagerView, chat_id: String, c: String, user_id: String, answer: Answers) -> ManagerView {
    if m.session_id@.len() == 0 {
        m
    } else {
        let op = join_op(m, chat_id, c, user_id);
        drive(m, op, answer, op.requests.len()).0
    }
}

/// The state after a leave of `c` whose every call was answered by `answer`.
pub open spec fn left(m: ManagerView, c: String, answer: Answers) -> ManagerView {
    let op = leave_op(m, c);
    drive(m, op, answer, op.requests.len()).0
}

/// The answers to the calls of operation number `k` of a sequence.
pub open spec fn answers_of(answers: spec_fn(int, nat, ChatRequest) -> CallOutcome, k: int) -> Answers {
    |j: nat, q: ChatRequest| answers(k, j, q)
}

/// The state after the joins (`true`) and leaves (`false`) of `ops`, in order,
/// all of channel `c`; `answers(k, j, q)` is what came of call `j` of
/// operation `k`.
pub open spec fn run_ops(
    m: ManagerView,
    chat_id: String,
    c: String,
    user_id: String,
    answers: spec_fn(int, nat, ChatRequest) -> CallOutcome,
    ops: Seq<bool>,
) -> ManagerView
    decreases ops.len(),
{
    if ops.len() == 0 {
        m
    } else {
        let m1 = run_ops(m, chat_id, c, user_id, answers, ops.drop_last());
        let answer = answers_of(answers, ops.len() - 1);
        if ops.last() {
            joined(m1, chat_id, c, user_id, answer)
        } else {
            left(m1, c, answer)
        }
    }
}

/// Whether a channel is joined after `ops`, having been joined before them
/// exactly when `start` holds: the last operation decides.
pub open spec fn net_joined(start: bool, ops: Seq<bool>) -> bool {
    if ops.len() == 0 {
        start
    } else {
        ops.last()
    }
}

proof fn lemma_with_record_channels(s: Seq<EventSubSubscription>, x: EventSubSubscription)
    ensures
        has_channel(with_record(s, x), x.channel_name@),
        forall|c: Seq<char>| has_channel(s, c) ==> has_channel(with_record(s, x), c),
{
    if has_record(s, x) {
        let i = choose|i: int| 0 <= i < s.len() && same_record(#[trigger] s[i], x);
        assert(s[i].channel_name@ == x.channel_name@);
    } else {
        let t = s.push(x);
        assert(t[s.len() as int] == x);
        assert forall|c: Seq<char>| has_channel(s, c) implies has_channel(t, c) by {
            let i = choose|i: int| 0 <= i < s.len() && (#[trigger] s[i]).channel_name@ == c;
            assert(t[i] == s[i]);
        }
    }
}

proof fn lemma_without_channel(s: Seq<EventSubSubscription>, c: Seq<char>)
    ensures
        !has_channel(records_without(s, c), c),
{
    let f = records_without(s, c);
    if has_channel(f, c) {
        let i = choose|i: int| 0 <= i < f.len() && (#[trigger] f[i]).channel_name@ == c;
        s.lemma_filter_pred(off_channel(c), i);
    }
}

proof fn lemma_no_records_no_channel(s: Seq<EventSubSubscription>, c: Seq<char>)
    requires
        records_of(s, c).len() == 0,
    ensures
        !has_channel(s, c),
{
    if has_channel(s, c) {
        let i = choose|i: int| 0 <= i < s.len() && (#[trigger] s[i]).channel_name@ == c;
        s.lemma_filter_contains(on_channel(c), i);
        assert(records_of(s, c).contains(s[i]));
    }
}

/// A join whose calls all succeed leaves the channel with a subscription.
proof fn lemma_join_effect(
    m: ManagerView,
    chat_id: String,
    c: String,
    user_id: String,
    answer: Answers,
)
    requires
        all_succeed(answer),
        m.session_id@.len() != 0,
    ensures
        has_channel(joined(m, chat_id, c, user_id, answer).subscriptions, c@),
        joined(m, chat_id, c, user_id, answer).session_id == m.session_id,
{
    let op = join_op(m, chat_id, c, user_id);
    if !has_channel(m.subscriptions, c@) {
        let q0 = op.requests[0];
        let q1 = op.requests[1];
        let a0 = answer(0, q0);
        let a1 = answer(1, q1);
        assert(a0 is Created);
        assert(a1 is Created);
        let (m1, op1, _r1) = step_spec(m, op, a0);
        lemma_with_record_channels(m.subscriptions, record_for(c, a0->Created_id, a0->Created_sub_type));
        let (m2, op2, _r2) = step_spec(m1, op1, a1);
        lemma_with_record_channels(m1.subscriptions, record_for(c, a1->Created_id, a1->Created_sub_type));
        assert(drive(m2, op2, answer, 0) == (m2, op2));
        assert(drive(m1, op1, answer, 1) == drive(m2, op2, answer, 0));
    }
}

/// The calls of a leave that remain from call `op.next` on, all answered,
/// forget every record of the channel, and change nothing else.
proof fn lemma_drive_leave(m: ManagerView, op: OperationView, answer: Answers)
    requires
        all_succeed(answer),
        op.leaving,
        op.next < op.requests.len(),
        forall|i: int| 0 <= i < op.requests.len() ==> (#[trigger] op.requests[i]) is Cancel,
    ensures
        drive(m, op, answer, (op.requests.len() - op.next) as nat).0 == (ManagerView {
            subscriptions: records_without(m.subscriptions, op.channel_name@),
            ..m
        }),
    decreases op.requests.len() - op.next,
{
    let q = op.requests[op.next as int];
    assert(answer(op.next, q) is Deleted);
    let (m2, op2, _r) = step_spec(m, op, answer(op.next, q));
    if op.next + 1 < op.requests.len() {
        assert(m2 == m);
        lemma_drive_leave(m2, op2, answer);
    } else {
        assert(drive(m2, op2, answer, 0) == (m2, op2));
    }
}

/// A leave whose calls all succeed leaves the channel without subscription.
proof fn lemma_leave_effect(m: ManagerView, c: String, answer: Answers)
    requires
        all_succeed(answer),
    ensures
        !has_channel(left(m, c, answer).subscriptions, c@),
        left(m, c, answer).session_id == m.session_id,
{
    let op = leave_op(m, c);
    if op.requests.len() == 0 {
        lemma_no_records_no_channel(m.subscriptions, c@);
    } else {
        assert forall|i: int| 0 <= i < op.requests.len() implies (#[trigger] op.requests[i]) is Cancel by {
        }
        lemma_drive_leave(m, op, answer);
        lemma_without_channel(m.subscriptions, c@);
    }
}

/// Over any sequence of joins and leaves of one channel, made while a
/// session is open and with every call succeeding, whatever ids and types
/// the server gives, the channel has a subscription at the end exactly when
/// the net effect of the sequence is "joined": the last operation decides,
/// and with no operation the channel stays as it was. The session is left as
/// it was.
pub proof fn lemma_join_leave_net_effect(
    m: ManagerView,
    chat_id: String,
    c: String,
    user_id: String,
    answers: spec_fn(int, nat, ChatRequest) -> CallOutcome,
    ops: Seq<bool>,
)
    requires
        forall|k: int| #[trigger] all_succeed(answers_of(answers, k)),
        m.session_id@.len() != 0,
    ensures
        has_channel(run_ops(m, chat_id, c, user_id, answers, ops).subscriptions, c@) == net_joined(
            has_channel(m.subscriptions, c@),
            ops,
        ),
        run_ops(m, chat_id, c, user_id, answers, ops).session_id == m.session_id,
    decreases ops.len(),
{
    if ops.len() > 0 {
        lemma_join_leave_net_effect(m, chat_id, c, user_id, answers, ops.drop_last());
        let m1 = run_ops(m, chat_id, c, user_id, answers, ops.drop_last());
        let answer = answers_of(answers, ops.len() - 1);
        assert(all_succeed(answer));
        if ops.last() {
            lemma_join_effect(m1, chat_id, c, user_id, answer);
        } else {
            lemma_leave_effect(m1, c, answer);
        }
    }
}

/// Joining a channel twice in a row makes one pair of subscribe calls: the
/// first join subscribes to the message and the notification streams, and
/// once it has succeeded the second join needs no call.
pub proof fn lemma_join_twice_one_pair(
    m: ManagerView,
    chat_id: String,
    c: String,
    user_id: String,
    answer: Answers,
)
    requires
        all_succeed(answer),
        m.session_id@.len() != 0,
        !has_channel(m.subscriptions, c@),
    ensures
        join_op(m, chat_id, c, user_id).requests == seq![
            subscribe_request(SubscriptionKind::ChatMessage, chat_id, user_id, m.session_id),
            subscribe_request(SubscriptionKind::ChatNotification, chat_id, user_id, m.session_id),
        ],
        join_op(joined(m, chat_id, c, user_id, answer), chat_id, c, user_id).requests.len() == 0,
{
    lemma_join_effect(m, chat_id, c, user_id, answer);
}

/// Leaving a channel that has no subscription makes no cancel call.
pub proof fn lemma_leave_unsubscribed_no_calls(m: ManagerView, c: String)
    requires
        !has_channel(m.subscriptions, c@),
    ensures
        leave_op(m, c).requests.len() == 0,
{
    let s = m.subscriptions;
    let f = records_of(s, c@);
    if f.len() > 0 {
        s.lemma_filter_pred(on_channel(c@), 0);
        s.lemma_filter_contains_rev(on_channel(c@), f[0]);
        assert(f.contains(f[0]));
        let i = choose|i: int| 0 <= i < s.len() && s[i] == f[0];
        assert(s[i].channel_name@ == c@);
    }
}

/// The notifications handed to the consumer when `frames[i]` is processed in
/// state `states[i]`, in order.
pub open spec fn delivered(states: Seq<ManagerView>, frames: Seq<Frame>, user_id: String) -> Seq<
    EventNotification,
>
    decreases frames.len(),
{
    if frames.len() == 0 {
        seq![]
    } else {
        let prev = delivered(states, frames.drop_last(), user_id);
        match frame_step(states[frames.len() - 1], frames.last(), user_id).1 {
            FrameAction::Deliver(n) => prev.push(n),
            _ => prev,
        }
    }
}

/// The notifications among `frames`, in order.
pub open spec fn notifications_of(frames: Seq<Frame>) -> Seq<EventNotification>
    decreases frames.len(),
{
    if frames.len() == 0 {
        seq![]
    } else {
        let prev = notifications_of(frames.drop_last());
        match frames.last() {
            Frame::Notification(n) => prev.push(n),
            _ => prev,
        }
    }
}

/// Notifications reach the consumer exactly in the order they arrived, each
/// once, whatever state joins and leaves put the engine in between frames.
pub proof fn lemma_delivery_order(states: Seq<ManagerView>, frames: Seq<Frame>, user_id: String)
    requires
        states.len() >= frames.len(),
    ensures
        delivered(states, frames, user_id) == notifications_of(frames),
    decreases frames.len(),
{
    if frames.len() > 0 {
        lemma_delivery_order(states, frames.drop_last(), user_id);
    }
}

/// A reset without a closing handshake is redialled at once, with no error,
/// and the notifications that arrive after it are delivered in order.
pub proof fn lemma_reset_resumes_delivery(states: Seq<ManagerView>, frames: Seq<Frame>, user_id: String)
    requires
        states.len() >= frames.len(),
    ensures
        recovery_spec(TransportEvent::ResetWithoutClose) == Recovery::RedialNow,
        delivered(states, frames, user_id) == notifications_of(frames),
{
    lemma_delivery_order(states, frames, user_id);
}

} // verus!

verus! {

proof fn lemma_with_record_unique(s: Seq<EventSubSubscription>, x: EventSubSubscription)
    requires
        records_unique(s),
    ensures
        records_unique(with_record(s, x)),
{
    if !has_record(s, x) {
        let t = s.push(x);
        assert forall|i: int, j: int|
            0 <= i < t.len() && 0 <= j < t.len() && i != j implies !same_record(
            #[trigger] t[i],
            #[trigger] t[j],
        ) by {
            if i == s.len() as int {
                assert(!same_record(s[j], x));
            } else if j == s.len() as int {
                assert(!same_record(s[i], x));
            } else {
                assert(t[i] == s[i] && t[j] == s[j]);
            }
        }
    }
}

proof fn lemma_filter_unique(s: Seq<EventSubSubscription>, p: spec_fn(EventSubSubscription) -> bool)
    requires
        records_unique(s),
    ensures
        records_unique(s.filter(p)),
    decreases s.len(),
{
    reveal(Seq::filter);
    if s.len() > 0 {
        let init = s.drop_last();
        assert(records_unique(init)) by {
            assert forall|i: int, j: int|
                0 <= i < init.len() && 0 <= j < init.len() && i != j implies !same_record(
                #[trigger] init[i],
                #[trigger] init[j],
            ) by {
                assert(init[i] == s[i] && init[j] == s[j]);
            }
        }
        lemma_filter_unique(init, p);
        let f = init.filter(p);
        if p(s.last()) {
            assert forall|k: int| 0 <= k < f.len() implies !same_record(#[trigger] f[k], s.last()) by {
                assert(f.contains(f[k]));
                init.lemma_filter_contains_rev(p, f[k]);
                let m = choose|m: int| 0 <= m < init.len() && init[m] == f[k];
                assert(s[m] == init[m]);
                assert(!same_record(s[m], s[s.len() - 1]));
            }
            let t = f.push(s.last());
            assert forall|i: int, j: int|
                0 <= i < t.len() && 0 <= j < t.len() && i != j implies !same_record(
                #[trigger] t[i],
                #[trigger] t[j],
            ) by {
                if i == f.len() as int {
                    assert(!same_record(f[j], s.last()));
                } else if j == f.len() as int {
                    assert(!same_record(f[i], s.last()));
                } else {
                    assert(t[i] == f[i] && t[j] == f[j]);
                }
            }
        }
    }
}

/// No step of a join or a leave records a subscription twice: where the
/// records were unique before the step, they are after it.
pub proof fn lemma_step_keeps_records_unique(m: ManagerView, op: OperationView, outcome: CallOutcome)
    requires
        records_unique(m.subscriptions),
    ensures
        records_unique(step_spec(m, op, outcome).0.subscriptions),
{
    if op.next < op.requests.len() {
        match outcome {
            CallOutcome::Created { id, sub_type } => {
                lemma_with_record_unique(m.subscriptions, record_for(op.channel_name, id, sub_type));
            },
            _ => {
                lemma_filter_unique(m.subscriptions, off_channel(op.channel_name@));
            },
        }
    }
}

} // verus!
