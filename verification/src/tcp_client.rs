//! What a client does with its connection while it sends one request: when
//! it connects, when it writes, when it reads, and when it gives up.
//!
//! The connection itself is not here. Whoever holds it does what the plan
//! says and reports back what happened.

use vstd::prelude::*;

verus! {

/// The most bytes that a client reads for one response.
pub const RESPONSE_BUFFER_SIZE: usize = 4096;

/// What happened to the last thing the plan asked for.
#[derive(Debug)]
pub enum SendEvent {
    /// The connection stands.
    Connected,
    /// The connection could not be made.
    ConnectFailed,
    /// The request was written.
    Written,
    /// The request could not be written.
    WriteFailed,
    /// These bytes were read.
    Received(Vec<u8>),
    /// Nothing could be read.
    ReadFailed,
}

/// What the plan asks for next.
#[derive(Debug)]
pub enum SendAction {
    /// Connect to the device.
    Connect,
    /// Write the request.
    Write,
    /// Read the response.
    Read,
    /// Stop: this is the response, empty if there is none; close the
    /// connection if `disconnect` says so.
    Finish { response: Vec<u8>, disconnect: bool },
}

/// Where a send stands.
#[derive(Clone, Copy, PartialEq, Eq, Debug, Structural)]
pub enum SendPhase {
    /// There was no connection at the start, and one is being made;
    /// `second_try` says that the first attempt has failed.
    Opening { second_try: bool },
    /// The request is being written; `retried` says that it is the second
    /// time.
    Writing { retried: bool },
    /// The connection broke and is being made again, as often as it takes;
    /// `then_write` says that the request is written again after that.
    Reconnecting { then_write: bool },
    /// The response is being read.
    Reading,
    /// The send is over.
    Done,
}

/// What happened, without the bytes.
pub enum EventView {
    Connected,
    ConnectFailed,
    Written,
    WriteFailed,
    Received(Seq<u8>),
    ReadFailed,
}

/// What is asked for, with bytes as a sequence.
pub enum ActionView {
    Connect,
    Write,
    Read,
    Finish { response: Seq<u8>, disconnect: bool },
}

impl View for SendEvent {
    type V = EventView;

    open spec fn view(&self) -> EventView {
        match self {
            SendEvent::Connected => EventView::Connected,
            SendEvent::ConnectFailed => EventView::ConnectFailed,
            SendEvent::Written => EventView::Written,
            SendEvent::WriteFailed => EventView::WriteFailed,
            SendEvent::Received(bytes) => EventView::Received(bytes@),
            SendEvent::ReadFailed => EventView::ReadFailed,
        }
    }
}

impl View for SendAction {
    type V = ActionView;

    open spec fn view(&self) -> ActionView {
        match self {
            SendAction::Connect => ActionView::Connect,
            SendAction::Write => ActionView::Write,
            SendAction::Read => ActionView::Read,
            SendAction::Finish { response, disconnect } => ActionView::Finish {
                response: response@,
                disconnect: *disconnect,
            },
        }
    }
}

/// The action that ends a send without a response.
pub open spec fn give_up(stay_connected: bool) -> ActionView {
    ActionView::Finish { response: Seq::empty(), disconnect: !stay_connected }
}

/// The phase and the action with which a send begins: it writes at once if
/// the connection stands, and connects first if not.
pub open spec fn send_start(connected: bool) -> (SendPhase, ActionView) {
    if connected {
        (SendPhase::Writing { retried: false }, ActionView::Write)
    } else {
        (SendPhase::Opening { second_try: false }, ActionView::Connect)
    }
}

/// The phase and the action that follow an event.
///
/// * A connection that is missing at the start is tried twice; then the
///   send gives up.
/// * A write that fails is followed by reconnecting until the connection
///   stands, and then by one more write; if that fails too, the send gives
///   up.
/// * What is read is the response. A read that fails is followed by
///   reconnecting until the connection stands, and the send gives up.
/// * An event that answers nothing the plan asked for ends the send.
pub open spec fn send_step(phase: SendPhase, event: EventView, stay_connected: bool) -> (
    SendPhase,
    ActionView,
) {
    match (phase, event) {
        (SendPhase::Opening { second_try }, EventView::Connected) => (
            SendPhase::Writing { retried: false },
            ActionView::Write,
        ),
        (SendPhase::Opening { second_try: false }, EventView::ConnectFailed) => (
            SendPhase::Opening { second_try: true },
            ActionView::Connect,
        ),
        (SendPhase::Writing { retried }, EventView::Written) => (
            SendPhase::Reading,
            ActionView::Read,
        ),
        (SendPhase::Writing { retried: false }, EventView::WriteFailed) => (
            SendPhase::Reconnecting { then_write: true },
            ActionView::Connect,
        ),
        (SendPhase::Reconnecting { then_write }, EventView::ConnectFailed) => (
            SendPhase::Reconnecting { then_write },
            ActionView::Connect,
        ),
        (SendPhase::Reconnecting { then_write: true }, EventView::Connected) => (
            SendPhase::Writing { retried: true },
            ActionView::Write,
        ),
        (SendPhase::Reading, EventView::Received(bytes)) => (
            SendPhase::Done,
            ActionView::Finish { response: bytes, disconnect: false },
        ),
        (SendPhase::Reading, EventView::ReadFailed) => (
            SendPhase::Reconnecting { then_write: false },
            ActionView::Connect,
        ),
        _ => (SendPhase::Done, give_up(stay_connected)),
    }
}

/// How many more times the request may be written from a phase on.
pub open spec fn writes_left(phase: SendPhase) -> nat {
    match phase {
        SendPhase::Opening { second_try } => 2,
        SendPhase::Writing { retried: false } => 1,
        SendPhase::Reconnecting { then_write: true } => 1,
        _ => 0,
    }
}

/// The plan of one send.
pub struct SendPlan {
    phase: SendPhase,
    stay_connected: bool,
}

/// What a plan is: its phase, and whether the connection is kept when the
/// send gives up.
pub struct PlanView {
    pub phase: SendPhase,
    pub stay_connected: bool,
}

impl View for SendPlan {
    type V = PlanView;

    closed spec fn view(&self) -> PlanView {
        PlanView { phase: self.phase, stay_connected: self.stay_connected }
    }
}

impl SendPlan {
    /// Begins a send. `connected` says whether the connection stands;
    /// `stay_connected` whether it is kept when the send gives up.
    pub fn start(connected: bool, stay_connected: bool) -> (begin: (Self, SendAction))
        ensures
            begin.0@ == (PlanView { phase: send_start(connected).0, stay_connected }),
            begin.1@ == send_start(connected).1,
    {
        if connected {
            (SendPlan { phase: SendPhase::Writing { retried: false }, stay_connected }, SendAction::Write)
        } else {
            (
                SendPlan { phase: SendPhase::Opening { second_try: false }, stay_connected },
                SendAction::Connect,
            )
        }
    }

    /// Whether the send is over.
    pub fn is_done(&self) -> (done: bool)
        ensures
            done == (self@.phase == SendPhase::Done),
    {
        match self.phase {
            SendPhase::Done => true,
            _ => false,
        }
    }

    /// Takes what happened and says what to do next.
    pub fn next(&mut self, event: SendEvent) -> (action: SendAction)
        ensures
            final(self)@.stay_connected == old(self)@.stay_connected,
            final(self)@.phase == send_step(old(self)@.phase, event@, old(self)@.stay_connected).0,
            action@ == send_step(old(self)@.phase, event@, old(self)@.stay_connected).1,
    {
        let disconnect: bool = !self.stay_connected;
        match (self.phase, event) {
            (SendPhase::Opening { second_try: _ }, SendEvent::Connected) => {
                self.phase = SendPhase::Writing { retried: false };
                SendAction::Write
            },
            (SendPhase::Opening { second_try: false }, SendEvent::ConnectFailed) => {
                self.phase = SendPhase::Opening { second_try: true };
                SendAction::Connect
            },
            (SendPhase::Writing { retried: _ }, SendEvent::Written) => {
                self.phase = SendPhase::Reading;
                SendAction::Read
            },
            (SendPhase::Writing { retried: false }, SendEvent::WriteFailed) => {
                self.phase = SendPhase::Reconnecting { then_write: true };
                SendAction::Connect
            },
            (SendPhase::Reconnecting { then_write: _ }, SendEvent::ConnectFailed) => {
                SendAction::Connect
            },
            (SendPhase::Reconnecting { then_write: true }, SendEvent::Connected) => {
                self.phase = SendPhase::Writing { retried: true };
                SendAction::Write
            },
            (SendPhase::Reading, SendEvent::Received(bytes)) => {
                self.phase = SendPhase::Done;
                SendAction::Finish { response: bytes, disconnect: false }
            },
            (SendPhase::Reading, SendEvent::ReadFailed) => {
                self.phase = SendPhase::Reconnecting { then_write: false };
                SendAction::Connect
            },
            _ => {
                self.phase = SendPhase::Done;
                SendAction::Finish { response: Vec::new(), disconnect }
            },
        }
    }
}

/// The request is written at most twice: every write uses up one of the
/// two that a send has, and nothing gives one back.
pub proof fn lemma_at_most_two_writes(phase: SendPhase, event: EventView, stay_connected: bool)
    ensures
        writes_left(send_start(true).0) + 1 == 2,
        writes_left(send_start(false).0) == 2,
        writes_left(send_step(phase, event, stay_connected).0) <= writes_left(phase),
        send_step(phase, event, stay_connected).1 == ActionView::Write ==> writes_left(
            send_step(phase, event, stay_connected).0,
        ) < writes_left(phase),
{
}

/// A send ends with a response only by reading it: every other way to end
/// gives nothing.
pub proof fn lemma_response_is_what_was_read(
    phase: SendPhase,
    event: EventView,
    stay_connected: bool,
)
    ensures
        match send_step(phase, event, stay_connected).1 {
            ActionView::Finish { response, disconnect } => send_step(
                phase,
                event,
                stay_connected,
            ).0 == SendPhase::Done && (response.len() > 0 ==> phase == SendPhase::Reading && event
                == EventView::Received(response)),
            _ => send_step(phase, event, stay_connected).0 != SendPhase::Done,
        },
{
}

} // verus!
