//! The live session of a connected device.
//!
//! A session starts with a handshake: one first message that names the
//! device. After it the session is attached to the mailbox of the
//! device's user and runs two duties side by side, one that reads frames
//! from the connection and one that relays entries to it. The first duty
//! to finish ends the other, and the session is detached and closed. The
//! states follow one another in one direction only.

use crate::datalayer::clipboard::Clipboard;
use crate::datalayer::database::{DeviceView, Registry, RegistryView};
use crate::datalayer::{claimed, owner, Device, InputDevice, User};
use crate::state::{AppState, StoreView};
use crate::utils::{same_text, AiError, ArcBroadcastSender, ErrorKind, ErrorView};
use std::ops::ControlFlow;
use std::sync::Arc;
use tokio::sync::broadcast::{Receiver, Sender};
use vstd::prelude::*;

verus! {

/// The first message of a connection: the device that connects and the
/// kind of the message, which has to be `init`.
#[derive(Debug)]
pub struct WsInitMessage {
    pub device: InputDevice,
    pub message_type: String,
}

/// The reason a peer gave for closing.
#[derive(Debug)]
pub struct CloseFrame {
    pub code: u16,
    pub reason: String,
}

/// A frame read from a connection.
#[derive(Debug)]
pub enum WsMessage {
    Text(String),
    Binary(Vec<u8>),
    Ping(Vec<u8>),
    Pong(Vec<u8>),
    Close(Option<CloseFrame>),
}

/// The error of a failed handshake, whatever made it fail.
pub open spec fn init_error() -> ErrorView {
    ErrorView { kind: ErrorKind::SessionFault, err: "init message error"@ }
}

/// The error of a connection that comes when the count of live
/// connections is full.
pub open spec fn too_many_connections() -> ErrorView {
    ErrorView { kind: ErrorKind::SessionFault, err: "too many connections"@ }
}

/// What a first message that names a device comes to.
pub struct Handshake {
    /// The registry after the device was resolved.
    pub db: RegistryView,
    /// The user and the device of the session, if the handshake holds.
    pub peer: Option<(u64, DeviceView)>,
}

/// The outcome of the first message `device`, `message_type`. A kind
/// other than `init` and an invalid device type fail and leave the
/// registry as it is. Else the device is resolved, which registers it if
/// it is new, and the handshake holds if the device has an owner.
pub open spec fn handshake(
    db: RegistryView,
    name: Seq<char>,
    tag: Seq<char>,
    message_type: Seq<char>,
) -> Handshake {
    if message_type != "init"@ {
        Handshake { db, peer: None }
    } else {
        match claimed(db, name, tag) {
            Err(_) => Handshake { db, peer: None },
            Ok((device, after)) => match owner(after, device.id) {
                None => Handshake { db: after, peer: None },
                Some(user) => Handshake { db: after, peer: Some((user.id, device)) },
            },
        }
    }
}

fn init_failed() -> (e: AiError)
    ensures
        e@ == init_error(),
{
    AiError::with_kind(ErrorKind::SessionFault, "init message error")
}

/// Resolves the first message of a connection to the user and the device
/// of the session: see [`handshake`]. Every failure is the same error.
pub fn process_init_message(db: &mut Registry, data: WsInitMessage) -> (r: Result<
    (u64, Device),
    AiError,
>)
    ensures
        ({
            let outcome = handshake(
                old(db)@,
                data.device.name@,
                data.device.device_type@,
                data.message_type@,
            );
            &&& final(db)@ == outcome.db
            &&& match outcome.peer {
                Some((user_id, device)) => r matches Ok(peer) && peer.0 == user_id && peer.1@
                    == device,
                None => r matches Err(e) && e@ == init_error(),
            }
        }),
        old(db)@.wf() ==> final(db)@.wf(),
{
    if !same_text(data.message_type.as_str(), "init") {
        return Err(init_failed());
    }
    let device = match data.device.parse(db) {
        Ok(device) => device,
        Err(_) => { return Err(init_failed()); },
    };
    match User::find_user_from_device(db, &device) {
        Ok(user) => Ok((user.id, device)),
        Err(_) => Err(init_failed()),
    }
}

/// Whether the reading duty goes on after the frame `msg`: it stops on a
/// close frame and on nothing else.
pub fn process_message(msg: &WsMessage) -> (flow: ControlFlow<(), ()>)
    ensures
        flow is Break <==> msg is Close,
{
    match msg {
        WsMessage::Close(_) => ControlFlow::Break(()),
        _ => ControlFlow::Continue(()),
    }
}

/// `Arc::clone` of std: another handle on the same sender.
#[verifier::external_body]
fn share(tx: &Arc<Sender<Clipboard>>) -> (other: ArcBroadcastSender<Clipboard>)
    ensures
        other == *tx,
{
    Arc::clone(tx)
}

/// The sender of the fan-out channel of `user_id`, whose mailbox is
/// created if need be. No other mailbox changes.
pub fn get_ws_tx(user_id: u64, state: &mut AppState) -> (tx: ArcBroadcastSender<Clipboard>)
    ensures
        final(state)@ == old(state)@.with_mailbox(user_id, old(state)@.mailbox(user_id)),
        old(state)@.wf() ==> final(state)@.wf(),
        final(state).clipboard_datas@.contains_key(user_id),
        tx == final(state).clipboard_datas@[user_id].ws_tx,
{
    broadcast use vstd::std_specs::hash::group_hash_axioms;

    state.get_or_create(user_id);
    let found = state.clipboard_datas.get(&user_id);
    match found {
        Some(mailbox) => share(&mailbox.ws_tx),
        None => {
            proof {
                assert(state@.mailboxes.contains_key(user_id));
                assert(false);
            }
            vstd::pervasive::unreached()
        },
    }
}

/// The states of a session, in the order in which it passes them.
#[derive(Debug, Clone, Copy, PartialEq, Eq, Structural)]
pub enum SessionState {
    /// The first message is awaited.
    Handshaking,
    /// Both duties run.
    Active,
    /// One duty has finished; the other is being ended.
    Closing,
    /// The session is detached and the connection released.
    Closed,
}

/// What can happen to a session.
#[derive(Debug, Clone, Copy, PartialEq, Eq, Structural)]
pub enum SessionEvent {
    /// The first message named a device with an owner.
    Accepted,
    /// There was no first message, or it did not hold.
    Rejected,
    /// A frame other than a close frame was read.
    Frame,
    /// A close frame was read.
    CloseFrame,
    /// Reading failed or the peer is gone.
    InboundEnded,
    /// The fan-out channel handed over an entry.
    Entry,
    /// Writing an entry to the connection failed.
    WriteFailed,
    /// The session was too slow and missed entries.
    Lagged,
    /// The fan-out channel is closed.
    ChannelClosed,
    /// The duty that was still running has been ended.
    Cancelled,
}

/// What the runner of a session has to do next.
#[derive(Debug, Clone, Copy, PartialEq, Eq, Structural)]
pub enum SessionAction {
    /// Attach to the mailbox and start both duties.
    Subscribe,
    /// Drop the connection at once.
    Terminate,
    /// Go on.
    Continue,
    /// Write the entry to the connection.
    Relay,
    /// Log the failed write and go on.
    Report,
    /// End the relaying duty.
    CancelOutbound,
    /// End the reading duty.
    CancelInbound,
    /// Detach from the mailbox, count the connection off, release it.
    Release,
    /// The event does not concern a session in this state.
    Ignore,
}

impl SessionState {
    /// The place of the state in the order of the states.
    pub open spec fn rank(self) -> nat {
        match self {
            SessionState::Handshaking => 0,
            SessionState::Active => 1,
            SessionState::Closing => 2,
            SessionState::Closed => 3,
        }
    }
}

/// The state that follows `state` on `event`, and what is to be done.
pub open spec fn next(state: SessionState, event: SessionEvent) -> (SessionState, SessionAction) {
    match state {
        SessionState::Handshaking => match event {
            SessionEvent::Accepted => (SessionState::Active, SessionAction::Subscribe),
            SessionEvent::Rejected => (SessionState::Closed, SessionAction::Terminate),
            _ => (state, SessionAction::Ignore),
        },
        SessionState::Active => match event {
            SessionEvent::Frame => (state, SessionAction::Continue),
            SessionEvent::CloseFrame => (SessionState::Closing, SessionAction::CancelOutbound),
            SessionEvent::InboundEnded => (SessionState::Closing, SessionAction::CancelOutbound),
            SessionEvent::Entry => (state, SessionAction::Relay),
            SessionEvent::WriteFailed => (state, SessionAction::Report),
            SessionEvent::Lagged => (state, SessionAction::Continue),
            SessionEvent::ChannelClosed => (SessionState::Closing, SessionAction::CancelInbound),
            _ => (state, SessionAction::Ignore),
        },
        SessionState::Closing => match event {
            SessionEvent::Cancelled => (SessionState::Closed, SessionAction::Release),
            _ => (state, SessionAction::Ignore),
        },
        SessionState::Closed => (state, SessionAction::Ignore),
    }
}

/// The state that follows `state` on `event`, and what is to be done.
pub fn step(state: SessionState, event: SessionEvent) -> (r: (SessionState, SessionAction))
    ensures
        r == next(state, event),
{
    match state {
        SessionState::Handshaking => match event {
            SessionEvent::Accepted => (SessionState::Active, SessionAction::Subscribe),
            SessionEvent::Rejected => (SessionState::Closed, SessionAction::Terminate),
            _ => (state, SessionAction::Ignore),
        },
        SessionState::Active => match event {
            SessionEvent::Frame => (state, SessionAction::Continue),
            SessionEvent::CloseFrame => (SessionState::Closing, SessionAction::CancelOutbound),
            SessionEvent::InboundEnded => (SessionState::Closing, SessionAction::CancelOutbound),
            SessionEvent::Entry => (state, SessionAction::Relay),
            SessionEvent::WriteFailed => (state, SessionAction::Report),
            SessionEvent::Lagged => (state, SessionAction::Continue),
            SessionEvent::ChannelClosed => (SessionState::Closing, SessionAction::CancelInbound),
            _ => (state, SessionAction::Ignore),
        },
        SessionState::Closing => match event {
            SessionEvent::Cancelled => (SessionState::Closed, SessionAction::Release),
            _ => (state, SessionAction::Ignore),
        },
        SessionState::Closed => (state, SessionAction::Ignore),
    }
}

/// The event that the frame `msg` is to the reading duty.
pub fn inbound_event(msg: &WsMessage) -> (event: SessionEvent)
    ensures
        event == if msg is Close {
            SessionEvent::CloseFrame
        } else {
            SessionEvent::Frame
        },
{
    match process_message(msg) {
        ControlFlow::Break(_) => SessionEvent::CloseFrame,
        ControlFlow::Continue(_) => SessionEvent::Frame,
    }
}

/// The state a session is in after the events of `events`, first to
/// last.
pub open spec fn run(state: SessionState, events: Seq<SessionEvent>) -> SessionState
    decreases events.len(),
{
    if events.len() == 0 {
        state
    } else {
        next(run(state, events.drop_last()), events.last()).0
    }
}

/// No event takes a session back: the state that follows is the same or
/// a later one, and a closed session stays closed.
pub proof fn lemma_step_forward(state: SessionState, event: SessionEvent)
    ensures
        next(state, event).0.rank() >= state.rank(),
        state == SessionState::Closed ==> next(state, event).0 == SessionState::Closed,
{
}

/// Over any run of events a session only moves forward, and a state that
/// it has left it does not enter again.
pub proof fn lemma_run_forward(state: SessionState, events: Seq<SessionEvent>, k: int)
    requires
        0 <= k <= events.len(),
    ensures
        run(state, events).rank() >= run(state, events.take(k)).rank(),
        run(state, events.take(k)).rank() >= state.rank(),
        run(state, events.take(k)) != state ==> run(state, events) != state,
    decreases events.len(),
{
    if events.len() == 0 {
        assert(events.take(k) =~= events);
    } else if k == events.len() {
        assert(events.take(k) =~= events);
        lemma_run_forward(state, events.drop_last(), 0);
        assert(events.drop_last().take(0) =~= Seq::empty());
        lemma_step_forward(run(state, events.drop_last()), events.last());
    } else {
        lemma_run_forward(state, events.drop_last(), k);
        assert(events.drop_last().take(k) =~= events.take(k));
        lemma_step_forward(run(state, events.drop_last()), events.last());
    }
}

/// The binding of one connection to a user, a device and the mailbox of
/// the user, from the handshake to the end of the connection.
#[derive(Debug)]
pub struct Session {
    /// The id of the session on the roster of the mailbox.
    pub id: u64,
    /// The user whose mailbox the session is attached to.
    pub user_id: u64,
    /// The device that is connected.
    pub device: Device,
    /// The state of the session.
    pub state: SessionState,
}

/// The store after the session `id` of `user_id` was attached and
/// counted.
pub open spec fn attached(store: StoreView, user_id: u64, id: u64) -> StoreView {
    StoreView {
        mailboxes: store.mailboxes.insert(user_id, store.mailbox(user_id).subscribed(id)),
        client_n: (store.client_n + 1) as u8,
    }
}

/// The store after the session `id` of `user_id` was detached and
/// counted off.
pub open spec fn detached(store: StoreView, user_id: u64, id: u64) -> StoreView {
    StoreView {
        mailboxes: store.mailboxes.insert(user_id, store.mailbox(user_id).unsubscribed(id)),
        client_n: if store.client_n > 0 {
            (store.client_n - 1) as u8
        } else {
            0u8
        },
    }
}

/// Runs the handshake of a new connection with the first message
/// `first`, which is absent where no frame came, where the frame was no
/// text, or where its text was no message. A failed handshake is a
/// session fault: the error is returned and no mailbox changes. So is a
/// connection that comes when the count of live connections is full. Else
/// the session `id` is attached to the mailbox of the device's user and
/// counted, and it is returned, active, with its receiver.
pub fn open_session(
    state: &mut AppState,
    db: &mut Registry,
    id: u64,
    first: Option<WsInitMessage>,
) -> (r: Result<(Session, Receiver<Clipboard>), AiError>)
    ensures
        match first {
            None => {
                &&& r matches Err(e) && e@ == init_error()
                &&& final(db)@ == old(db)@
                &&& final(state)@ == old(state)@
            },
            Some(data) => {
                let outcome = handshake(
                    old(db)@,
                    data.device.name@,
                    data.device.device_type@,
                    data.message_type@,
                );
                &&& final(db)@ == outcome.db
                &&& match outcome.peer {
                    None => {
                        &&& r matches Err(e) && e@ == init_error()
                        &&& final(state)@ == old(state)@
                    },
                    Some((user_id, device)) => if old(state)@.client_n == u8::MAX {
                        &&& r matches Err(e) && e@ == too_many_connections()
                        &&& final(state)@ == old(state)@
                    } else {
                        &&& r matches Ok(opened)
                        &&& opened.0.id == id
                        &&& opened.0.user_id == user_id
                        &&& opened.0.device@ == device
                        &&& opened.0.state == SessionState::Active
                        &&& final(state)@ == attached(old(state)@, user_id, id)
                    },
                }
            },
        },
        old(state)@.wf() ==> final(state)@.wf(),
        old(db)@.wf() ==> final(db)@.wf(),
{
    let data = match first {
        Some(data) => data,
        None => { return Err(init_failed()); },
    };
    let (user_id, device) = match process_init_message(db, data) {
        Ok(peer) => peer,
        Err(e) => { return Err(e); },
    };
    if state.client_n == u8::MAX {
        return Err(AiError::with_kind(ErrorKind::SessionFault, "too many connections"));
    }
    let rx = state.subscribe(user_id, id);
    state.connected();
    let (started, _) = step(SessionState::Handshaking, SessionEvent::Accepted);
    Ok((Session { id, user_id, device, state: started }, rx))
}

impl Session {
    /// Takes in `event`: the session moves to the state that follows, and
    /// the result says what is to be done.
    pub fn on_event(&mut self, event: SessionEvent) -> (action: SessionAction)
        ensures
            (final(self).state, action) == next(old(self).state, event),
            final(self).id == old(self).id,
            final(self).user_id == old(self).user_id,
            final(self).device == old(self).device,
    {
        let (state, action) = step(self.state, event);
        self.state = state;
        action
    }

    /// Records that an entry was relayed to the connection: the device of
    /// an active session is pending no longer. In any other state nothing
    /// changes.
    pub fn relayed(&self, state: &mut AppState)
        ensures
            final(state)@ == if self.state == SessionState::Active {
                old(state)@.with_mailbox(
                    self.user_id,
                    old(state)@.mailbox(self.user_id).seen_by(self.device@),
                )
            } else {
                old(state)@
            },
            old(state)@.wf() ==> final(state)@.wf(),
    {
        if self.state == SessionState::Active {
            state.mark_delivered(self.user_id, &self.device);
        }
    }

    /// Ends the session: it is taken off the roster of its mailbox and
    /// counted off, and it is closed. A session that is closed already
    /// stays so, and nothing changes.
    pub fn close(&mut self, state: &mut AppState)
        ensures
            final(self).state == SessionState::Closed,
            final(self).id == old(self).id,
            final(self).user_id == old(self).user_id,
            final(self).device == old(self).device,
            final(state)@ == if old(self).state == SessionState::Closed {
                old(state)@
            } else {
                detached(old(state)@, old(self).user_id, old(self).id)
            },
            old(state)@.wf() ==> final(state)@.wf(),
    {
        if self.state != SessionState::Closed {
            state.unsubscribe(self.user_id, self.id);
            state.disconnected();
            self.state = SessionState::Closed;
        }
    }
}

} // verus!
