//! The GUI's request bridge, one command at a time: it connects lazily,
//! greets the daemon with the protocol version on each new connection,
//! sends the command's request, and hands a call its reply or an error
//! text. Any failure drops the connection, so the next command connects
//! anew. The host performs each action and hands back what happened.

use vstd::prelude::*;

use crate::wire::PROTOCOL_VERSION;

verus! {

/// How far the current command has got.
#[derive(Clone, Copy, Debug, PartialEq, Eq, Structural)]
pub enum BridgeStage {
    /// No command in progress.
    Waiting,
    /// Opening the connection.
    Connecting,
    /// Waiting for the daemon's answer to the greeting.
    Handshaking,
    /// Waiting for the daemon's reply to the request.
    Sending,
}

/// The bridge between commands and within one: whether a connection is
/// open, the stage, and whether the current command wants its reply (a
/// call) or not (a send).
#[derive(Clone, Copy, Debug, PartialEq, Eq, Structural)]
pub struct BridgeState {
    pub connected: bool,
    pub stage: BridgeStage,
    pub call: bool,
}

/// What happened.
#[derive(Clone, Debug)]
pub enum BridgeEvent {
    /// The UI issued a command: a call waits for the reply, a send does not.
    Command { call: bool },
    ConnectOk,
    ConnectFailed(String),
    /// The daemon answered the greeting with anything but an error.
    HandshakeOk,
    /// The daemon answered the greeting with an error.
    HandshakeRejected(String),
    /// The greeting could not be exchanged.
    HandshakeFailed(String),
    /// The daemon replied to the request.
    ReplyOk,
    /// The request could not be exchanged.
    ReplyFailed(String),
}

/// What the host does next.
#[derive(Clone, Debug)]
pub enum BridgeAction {
    /// Open a connection to the daemon's socket.
    Connect,
    /// Send the greeting with this protocol version.
    Hello { protocol_version: u32 },
    /// Send the command's request.
    Request,
    /// Hand the reply to the call's callback.
    Deliver,
    /// Hand the call's callback an error reply with this text.
    Fail(String),
    /// Nothing to do.
    Idle,
}

/// What an action asks for.
pub ghost enum BridgeActionView {
    Connect,
    Hello { protocol_version: u32 },
    Request,
    Deliver,
    Fail(Seq<char>),
    Idle,
}

impl BridgeAction {
    pub open spec fn view(&self) -> BridgeActionView {
        match self {
            BridgeAction::Connect => BridgeActionView::Connect,
            BridgeAction::Hello { protocol_version } => BridgeActionView::Hello { protocol_version: *protocol_version },
            BridgeAction::Request => BridgeActionView::Request,
            BridgeAction::Deliver => BridgeActionView::Deliver,
            BridgeAction::Fail(m) => BridgeActionView::Fail(m@),
            BridgeAction::Idle => BridgeActionView::Idle,
        }
    }
}

/// The state after a failure: no connection, no command in progress; a
/// call is answered with `prefix` and the failure's text, a send with
/// nothing.
pub open spec fn failed(s: BridgeState, prefix: Seq<char>, e: Seq<char>) -> (BridgeState, BridgeActionView) {
    (
        BridgeState { connected: false, stage: BridgeStage::Waiting, call: s.call },
        if s.call {
            BridgeActionView::Fail(prefix + e)
        } else {
            BridgeActionView::Idle
        },
    )
}

/// One step of the bridge. An event that the stage does not expect
/// changes nothing.
pub open spec fn bridge_spec(s: BridgeState, e: BridgeEvent) -> (BridgeState, BridgeActionView) {
    match (s.stage, e) {
        (BridgeStage::Waiting, BridgeEvent::Command { call }) => if s.connected {
            (BridgeState { connected: true, stage: BridgeStage::Sending, call }, BridgeActionView::Request)
        } else {
            (BridgeState { connected: false, stage: BridgeStage::Connecting, call }, BridgeActionView::Connect)
        },
        (BridgeStage::Connecting, BridgeEvent::ConnectOk) => (
            BridgeState { stage: BridgeStage::Handshaking, ..s },
            BridgeActionView::Hello { protocol_version: PROTOCOL_VERSION },
        ),
        (BridgeStage::Connecting, BridgeEvent::ConnectFailed(m)) => failed(s, "not connected: "@, m@),
        (BridgeStage::Handshaking, BridgeEvent::HandshakeOk) => (
            BridgeState { connected: true, stage: BridgeStage::Sending, call: s.call },
            BridgeActionView::Request,
        ),
        (BridgeStage::Handshaking, BridgeEvent::HandshakeRejected(m)) => failed(s, "handshake failed: "@, m@),
        (BridgeStage::Handshaking, BridgeEvent::HandshakeFailed(m)) => failed(s, "handshake error: "@, m@),
        (BridgeStage::Sending, BridgeEvent::ReplyOk) => (
            BridgeState { stage: BridgeStage::Waiting, ..s },
            if s.call {
                BridgeActionView::Deliver
            } else {
                BridgeActionView::Idle
            },
        ),
        (BridgeStage::Sending, BridgeEvent::ReplyFailed(m)) => failed(s, "ipc error: "@, m@),
        _ => (s, BridgeActionView::Idle),
    }
}

/// The bridge before its first command: not connected, nothing in progress.
pub fn bridge_start() -> (s: BridgeState)
    ensures
        s == (BridgeState { connected: false, stage: BridgeStage::Waiting, call: false }),
        bridge_wf(s),
{
    BridgeState { connected: false, stage: BridgeStage::Waiting, call: false }
}

fn fail_with(s: BridgeState, prefix: &str, e: &String) -> (r: (BridgeState, BridgeAction))
    ensures
        (r.0, r.1@) == failed(s, prefix@, e@),
{
    let next = BridgeState { connected: false, stage: BridgeStage::Waiting, call: s.call };
    if s.call {
        let mut m = prefix.to_owned();
        m.append(e.as_str());
        (next, BridgeAction::Fail(m))
    } else {
        (next, BridgeAction::Idle)
    }
}

/// Advances the bridge by one event.
pub fn bridge_step(s: BridgeState, e: &BridgeEvent) -> (r: (BridgeState, BridgeAction))
    ensures
        (r.0, r.1@) == bridge_spec(s, *e),
{
    match (s.stage, e) {
        (BridgeStage::Waiting, BridgeEvent::Command { call }) => if s.connected {
            (BridgeState { connected: true, stage: BridgeStage::Sending, call: *call }, BridgeAction::Request)
        } else {
            (BridgeState { connected: false, stage: BridgeStage::Connecting, call: *call }, BridgeAction::Connect)
        },
        (BridgeStage::Connecting, BridgeEvent::ConnectOk) => (
            BridgeState { connected: s.connected, stage: BridgeStage::Handshaking, call: s.call },
            BridgeAction::Hello { protocol_version: PROTOCOL_VERSION },
        ),
        (BridgeStage::Connecting, BridgeEvent::ConnectFailed(m)) => fail_with(s, "not connected: ", m),
        (BridgeStage::Handshaking, BridgeEvent::HandshakeOk) => (
            BridgeState { connected: true, stage: BridgeStage::Sending, call: s.call },
            BridgeAction::Request,
        ),
        (BridgeStage::Handshaking, BridgeEvent::HandshakeRejected(m)) => fail_with(s, "handshake failed: ", m),
        (BridgeStage::Handshaking, BridgeEvent::HandshakeFailed(m)) => fail_with(s, "handshake error: ", m),
        (BridgeStage::Sending, BridgeEvent::ReplyOk) => (
            BridgeState { connected: s.connected, stage: BridgeStage::Waiting, call: s.call },
            if s.call {
                BridgeAction::Deliver
            } else {
                BridgeAction::Idle
            },
        ),
        (BridgeStage::Sending, BridgeEvent::ReplyFailed(m)) => fail_with(s, "ipc error: ", m),
        _ => (s, BridgeAction::Idle),
    }
}

/// The states the bridge can reach: a request goes out only on an open
/// connection, and a connection being opened or greeted is not yet open.
pub open spec fn bridge_wf(s: BridgeState) -> bool {
    match s.stage {
        BridgeStage::Sending => s.connected,
        BridgeStage::Connecting | BridgeStage::Handshaking => !s.connected,
        BridgeStage::Waiting => true,
    }
}

/// A failure always drops the connection and ends the command, and a call
/// is always told why: whenever a step answers with an error text, or a
/// step in progress ends without a connection, the next command connects
/// anew. Every step keeps the bridge in a reachable state.
pub proof fn law_failure_drops_connection(s: BridgeState, e: BridgeEvent)
    requires
        bridge_wf(s),
    ensures
        bridge_wf(bridge_spec(s, e).0),
        bridge_spec(s, e).1 is Fail ==> !bridge_spec(s, e).0.connected && bridge_spec(s, e).0.stage == BridgeStage::Waiting
            && s.call,
        (s.stage != BridgeStage::Waiting && bridge_spec(s, e).0.stage == BridgeStage::Waiting && !bridge_spec(s, e).0.connected)
            ==> (bridge_spec(s, e).1 is Fail <==> s.call),
        !bridge_spec(s, e).0.connected && bridge_spec(s, e).0.stage == BridgeStage::Waiting ==> bridge_spec(
            bridge_spec(s, e).0,
            BridgeEvent::Command { call: true },
        ).1 is Connect,
{
}

/// A connection, once greeted, is reused: a command on an open connection
/// sends its request at once, without a new greeting.
pub proof fn law_connection_reused(s: BridgeState, call: bool)
    requires
        s.connected,
        s.stage == BridgeStage::Waiting,
    ensures
        bridge_spec(s, BridgeEvent::Command { call }).1 is Request,
        bridge_spec(s, BridgeEvent::Command { call }).0.connected,
{
}


// ---------------------------------------------------------------------------
// Runs of steps
// ---------------------------------------------------------------------------

/// The state and actions after taking the events in order.
pub open spec fn run(s: BridgeState, es: Seq<BridgeEvent>) -> (BridgeState, Seq<BridgeActionView>)
    decreases es.len(),
{
    if es.len() == 0 {
        (s, Seq::empty())
    } else {
        let (t, acts) = run(s, es.drop_last());
        let (u, a) = bridge_spec(t, es.last());
        (u, acts.push(a))
    }
}

/// Whether an action answers a call: its reply, or an error text.
pub open spec fn answers_call(a: BridgeActionView) -> bool {
    a is Deliver || a is Fail
}

/// How many of the actions answer a call.
pub open spec fn answer_count(acts: Seq<BridgeActionView>) -> nat
    decreases acts.len(),
{
    if acts.len() == 0 {
        0
    } else {
        answer_count(acts.drop_last()) + if answers_call(acts.last()) {
            1nat
        } else {
            0nat
        }
    }
}

proof fn lemma_run_answers(s1: BridgeState, call: bool, es: Seq<BridgeEvent>)
    requires
        bridge_wf(s1),
        s1.stage != BridgeStage::Waiting,
        s1.call == call,
        forall|i: int| 0 <= i < es.len() ==> !(#[trigger] es[i] is Command),
    ensures
        bridge_wf(run(s1, es).0),
        run(s1, es).0.call == call,
        run(s1, es).0.stage != BridgeStage::Waiting ==> answer_count(run(s1, es).1) == 0,
        run(s1, es).0.stage == BridgeStage::Waiting ==> answer_count(run(s1, es).1) == if call {
            1nat
        } else {
            0nat
        },
    decreases es.len(),
{
    if es.len() > 0 {
        assert forall|i: int| 0 <= i < es.drop_last().len() implies !(#[trigger] es.drop_last()[i] is Command) by {
            assert(es.drop_last()[i] == es[i]);
        }
        lemma_run_answers(s1, call, es.drop_last());
        let (t, acts) = run(s1, es.drop_last());
        let e = es.last();
        assert(!(es[es.len() - 1] is Command));
        law_failure_drops_connection(t, e);
        assert(run(s1, es).1.drop_last() =~= acts);
    }
}

/// Each command is answered as its kind asks: once a call's greeting and
/// request have run their course (with no new command in between), it got
/// exactly one answer, its reply or an error text, and a send got none;
/// while the command is still under way, nothing has answered it.
pub proof fn law_each_call_answered_once(s: BridgeState, call: bool, es: Seq<BridgeEvent>)
    requires
        bridge_wf(s),
        s.stage == BridgeStage::Waiting,
        forall|i: int| 0 <= i < es.len() ==> !(#[trigger] es[i] is Command),
    ensures
        ({
            let (s1, first) = bridge_spec(s, BridgeEvent::Command { call });
            let (t, acts) = run(s1, es);
            &&& !answers_call(first)
            &&& t.stage == BridgeStage::Waiting ==> answer_count(acts) == if call {
                1nat
            } else {
                0nat
            }
            &&& t.stage != BridgeStage::Waiting ==> answer_count(acts) == 0
        }),
{
    let s1 = bridge_spec(s, BridgeEvent::Command { call }).0;
    lemma_run_answers(s1, call, es);
}

// ---------------------------------------------------------------------------
// The command queue
// ---------------------------------------------------------------------------

/// Commands waiting for the bridge at most; a full queue refuses more until
/// the bridge takes one.
pub const QUEUE_CAPACITY: usize = 64;

/// A command from the UI: a request whose reply is dropped, or one whose
/// reply (or error text) goes to the callback registered under the ticket.
#[derive(Debug)]
pub enum BridgeCommand<R> {
    Send(R),
    Call { request: R, ticket: u64 },
}

/// The UI's end of the bridge: the commands not yet taken, oldest first,
/// and the ticket the next call gets.
#[derive(Debug)]
pub struct BridgeHandle<R> {
    pub queue: Vec<BridgeCommand<R>>,
    pub next_ticket: u64,
}

/// The event that starts a command.
pub fn command_event<R>(c: &BridgeCommand<R>) -> (e: BridgeEvent)
    ensures
        e == (BridgeEvent::Command { call: c is Call }),
{
    match c {
        BridgeCommand::Send(_) => BridgeEvent::Command { call: false },
        BridgeCommand::Call { .. } => BridgeEvent::Command { call: true },
    }
}

impl<R> BridgeHandle<R> {
    pub fn new() -> (h: BridgeHandle<R>)
        ensures
            h.queue@.len() == 0,
            h.next_ticket == 0,
    {
        BridgeHandle { queue: Vec::new(), next_ticket: 0 }
    }

    /// Queues a request whose reply is dropped; a full queue hands it back.
    pub fn send(&mut self, request: R) -> (r: Result<(), R>)
        ensures
            final(self).next_ticket == old(self).next_ticket,
            old(self).queue@.len() < QUEUE_CAPACITY ==> r is Ok && final(self).queue@ == old(self).queue@.push(
                BridgeCommand::Send(request),
            ),
            old(self).queue@.len() >= QUEUE_CAPACITY ==> r == Err::<(), R>(request) && final(self).queue@ == old(
                self,
            ).queue@,
    {
        if self.queue.len() < QUEUE_CAPACITY {
            self.queue.push(BridgeCommand::Send(request));
            Ok(())
        } else {
            Err(request)
        }
    }

    /// Queues a request whose reply goes to the callback of the returned
    /// ticket; a full queue hands it back.
    pub fn call(&mut self, request: R) -> (r: Result<u64, R>)
        requires
            old(self).next_ticket < u64::MAX,
        ensures
            old(self).queue@.len() < QUEUE_CAPACITY ==> r == Ok::<u64, R>(old(self).next_ticket)
                && final(self).queue@ == old(self).queue@.push(
                BridgeCommand::Call { request, ticket: old(self).next_ticket },
            ) && final(self).next_ticket == old(self).next_ticket + 1,
            old(self).queue@.len() >= QUEUE_CAPACITY ==> r == Err::<u64, R>(request) && final(self).queue@ == old(
                self,
            ).queue@ && final(self).next_ticket == old(self).next_ticket,
    {
        if self.queue.len() < QUEUE_CAPACITY {
            let ticket = self.next_ticket;
            self.queue.push(BridgeCommand::Call { request, ticket });
            self.next_ticket = ticket + 1;
            Ok(ticket)
        } else {
            Err(request)
        }
    }

    /// Takes the oldest command, if any: the bridge handles them in the
    /// order they were queued.
    pub fn next_command(&mut self) -> (c: Option<BridgeCommand<R>>)
        ensures
            final(self).next_ticket == old(self).next_ticket,
            old(self).queue@.len() == 0 ==> c is None && final(self).queue@ == old(self).queue@,
            old(self).queue@.len() > 0 ==> c == Some(old(self).queue@[0]) && final(self).queue@ == old(
                self,
            ).queue@.drop_first(),
    {
        if self.queue.len() == 0 {
            None
        } else {
            let ghost q = self.queue@;
            let c = self.queue.remove(0);
            assert(self.queue@ =~= q.drop_first());
            Some(c)
        }
    }
}
} // verus!
