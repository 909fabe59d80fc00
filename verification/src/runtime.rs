//! The rules of the runtime: the handshake, what one turn of the dispatch
//! loop does, and when the loop ends. Reading, writing and waiting are the
//! caller's part; it hands in what it read and carries out what comes back.

use vstd::prelude::*;
use vstd::pervasive::unreached;
use crate::envelope::{Init, InitView, Message};
use crate::node::{idle, Node, NodeError};

verus! {

/// Milliseconds between two turns of the dispatch loop.
pub const TURN_MILLIS: u64 = 100;

/// The timer ticks on every turn whose number is a multiple of this.
pub const TURNS_PER_TICK: usize = 10;

/// What the messages of the handshake carry.
#[derive(Debug, PartialEq, Eq)]
pub enum InitPayload {
    Init(Init),
    InitOk,
}

/// A handshake payload as a value.
pub enum InitPayloadView {
    Init(InitView),
    InitOk,
}

impl View for InitPayload {
    type V = InitPayloadView;

    open spec fn view(&self) -> InitPayloadView {
        match *self {
            InitPayload::Init(init) => InitPayloadView::Init(init@),
            InitPayload::InitOk => InitPayloadView::InitOk,
        }
    }
}

/// Where a session stands once the handshake is done. Before it there is
/// no runtime yet: `Runtime::start` is the step from awaiting the handshake
/// to running.
#[derive(Debug, Clone, Copy, PartialEq, Eq)]
pub enum Phase {
    Running,
    Terminated,
}

/// A running session as values: the node, the position of the next turn in
/// the timer's cycle, and the phase.
pub struct RuntimeView<N> {
    pub node: N,
    pub turn: nat,
    pub phase: Phase,
}

/// A session: the node and the bookkeeping of the dispatch loop.
pub struct Runtime<N> {
    node: N,
    turn: usize,
    phase: Phase,
}

impl<N> View for Runtime<N> {
    type V = RuntimeView<N>;

    closed spec fn view(&self) -> RuntimeView<N> {
        RuntimeView { node: self.node, turn: self.turn as nat, phase: self.phase }
    }
}

/// The position in the timer's cycle that follows `turn`.
pub open spec fn next_turn(turn: nat) -> nat {
    if turn + 1 >= TURNS_PER_TICK {
        0
    } else {
        turn + 1
    }
}

/// The first half of a turn: the message that was waiting, if any, is
/// handled.
pub open spec fn delivered<P, S, N: Node<P, S>>(
    pre: N,
    polled: Option<Message<P>>,
    post: N,
    sent: Seq<Message<P>>,
    res: Result<(), NodeError>,
) -> bool {
    match polled {
        Some(message) => N::handled(pre, message, post, sent, res),
        None => idle(pre, post, sent, res),
    }
}

/// The second half of a turn: where handling did not fail and the turn is
/// the first of its cycle, the node's tick hook runs.
pub open spec fn timed<P, S, N: Node<P, S>>(
    handling: Result<(), NodeError>,
    turn: nat,
    pre: N,
    post: N,
    sent: Seq<Message<P>>,
    res: Result<(), NodeError>,
) -> bool {
    if handling is Ok && turn == 0 {
        N::ticked(pre, post, sent, res)
    } else {
        idle(pre, post, sent, res)
    }
}

/// One turn of the dispatch loop. The waiting message is handled first;
/// then, on the first turn of every cycle and only if handling did not fail,
/// the tick hook runs. The first failure is the turn's result and leaves the
/// cycle where it was; a turn without failure moves it on by one.
pub open spec fn dispatched<P, S, N: Node<P, S>>(
    pre: RuntimeView<N>,
    polled: Option<Message<P>>,
    post: RuntimeView<N>,
    sent: Seq<Message<P>>,
    res: Result<(), NodeError>,
) -> bool {
    exists|
        mid: N,
        first: Seq<Message<P>>,
        handling: Result<(), NodeError>,
        second: Seq<Message<P>>,
        ticking: Result<(), NodeError>,
    |
        {
            &&& #[trigger] delivered::<P, S, N>(pre.node, polled, mid, first, handling)
            &&& #[trigger] timed::<P, S, N>(
                handling,
                pre.turn,
                mid,
                post.node,
                second,
                ticking,
            )
            &&& sent == first + second
            &&& res == if handling is Err {
                handling
            } else {
                ticking
            }
            &&& post.turn == if res is Ok {
                next_turn(pre.turn)
            } else {
                pre.turn
            }
            &&& post.phase == pre.phase
        }
}

impl<N> Runtime<N> {
    /// The handshake. `first` is the first message of the session and must
    /// carry `Init`. The node is built from it, and the acknowledgement that
    /// comes back takes its id from a counter of its own that stands at 1,
    /// apart from the node's.
    pub fn start<P, S>(state: S, first: Message<InitPayload>) -> (started: (
        Runtime<N>,
        Message<InitPayload>,
    )) where N: Node<P, S>
        requires
            first.body.payload is Init,
        ensures
            N::made(state, first.body.payload->Init_0, started.0@.node),
            started.0@.turn == 0,
            started.0@.phase == Phase::Running,
            started.1@ == first@.answer(InitPayloadView::InitOk, 2),
    {
        let mut id: usize = 1;
        let ack = first.reply(InitPayload::InitOk, &mut id);
        let node = match first.body.payload {
            InitPayload::Init(init) => N::new(state, init),
            InitPayload::InitOk => unreached(),
        };
        (Runtime { node, turn: 0, phase: Phase::Running }, ack)
    }

    /// One turn of the dispatch loop. `polled` is the message that was
    /// waiting in the delivery queue, if there was one; what the node sends
    /// is appended to `out`.
    pub fn turn<P, S>(&mut self, polled: Option<Message<P>>, out: &mut Vec<Message<P>>) -> (res:
        Result<(), NodeError>) where N: Node<P, S>
        requires
            old(self)@.phase == Phase::Running,
        ensures
            old(out)@.is_prefix_of(final(out)@),
            dispatched::<P, S, N>(
                old(self)@,
                polled,
                final(self)@,
                final(out)@.skip(old(out)@.len() as int),
                res,
            ),
    {
        let ghost start = out@;
        let mut handling: Result<(), NodeError> = Ok(());
        if let Some(message) = polled {
            handling = self.node.handle(message, out);
        }
        let ghost mid = self.node;
        let ghost first = out@.skip(start.len() as int);
        assert(delivered::<P, S, N>(old(self)@.node, polled, mid, first, handling));
        if handling.is_err() {
            proof {
                let none = Seq::<Message<P>>::empty();
                assert(timed::<P, S, N>(handling, old(self)@.turn, mid, self@.node, none, Ok(())));
            }
            return handling;
        }
        let ghost middle = out@;
        let mut ticking: Result<(), NodeError> = Ok(());
        if self.turn == 0 {
            ticking = self.node.timed_call(out);
        }
        let ghost second = out@.skip(middle.len() as int);
        assert(out@.skip(start.len() as int) == first + second);
        if ticking.is_ok() {
            self.turn = if self.turn >= TURNS_PER_TICK - 1 {
                0
            } else {
                self.turn + 1
            };
        }
        assert(timed::<P, S, N>(handling, old(self)@.turn, mid, self@.node, second, ticking));
        ticking
    }

    /// Ends the session once the reader has stopped and the delivery queue
    /// is empty; until both hold, nothing changes.
    pub fn close_if_drained(&mut self, reader_stopped: bool, queue_empty: bool)
        ensures
            final(self)@ == if reader_stopped && queue_empty {
                RuntimeView { phase: Phase::Terminated, ..old(self)@ }
            } else {
                old(self)@
            },
    {
        if reader_stopped && queue_empty {
            self.phase = Phase::Terminated;
        }
    }

    /// The phase the session is in.
    pub fn phase(&self) -> (phase: Phase)
        ensures
            phase == self@.phase,
    {
        self.phase
    }
}

} // verus!
