//! The contract between the runtime and a node type.

use vstd::prelude::*;
use crate::envelope::{Init, Message};

verus! {

/// Why a node could not do what a message or a tick asked of it.
#[derive(Debug, Clone, Copy, PartialEq, Eq)]
pub enum NodeError {
    /// The node's id counter has no id left for the messages it would send.
    IdsExhausted,
    /// The counter's sum does not fit the machine's word.
    CounterOverflow,
}

/// What every node type supplies: how it is built from the handshake, what
/// it does with one message, and what it does on a tick of the timer.
///
/// `P` is the node type's set of payloads, `InitState` its static
/// configuration. Each operation comes with a relation that says what it
/// may do; the operation promises that relation, and the runtime's own
/// contract is stated through it.
pub trait Node<P, InitState>: Sized {
    /// `node` is what `new` builds from `state` and `init`.
    spec fn made(state: InitState, init: Init, node: Self) -> bool;

    /// Handling `message` in state `pre` may leave the node in state `post`,
    /// having sent `sent`, with the result `res`.
    spec fn handled(
        pre: Self,
        message: Message<P>,
        post: Self,
        sent: Seq<Message<P>>,
        res: Result<(), NodeError>,
    ) -> bool;

    /// A tick in state `pre` may leave the node in state `post`, having sent
    /// `sent`, with the result `res`. Unless a node type says otherwise, a
    /// tick does nothing.
    open spec fn ticked(
        pre: Self,
        post: Self,
        sent: Seq<Message<P>>,
        res: Result<(), NodeError>,
    ) -> bool {
        idle(pre, post, sent, res)
    }

    /// Builds the node from its configuration and the handshake data.
    fn new(state: InitState, init: Init) -> (node: Self)
        ensures
            Self::made(state, init, node),
    ;

    /// Processes one inbound message: changes the node's state and appends
    /// what the node sends to `out`.
    fn handle(&mut self, message: Message<P>, out: &mut Vec<Message<P>>) -> (res: Result<
        (),
        NodeError,
    >)
        ensures
            old(out)@.is_prefix_of(final(out)@),
            Self::handled(
                *old(self),
                message,
                *final(self),
                final(out)@.skip(old(out)@.len() as int),
                res,
            ),
    ;

    /// Called on every tick of the timer, whatever arrived in between. A
    /// node type without work of its own on a tick returns `Ok(())` and
    /// leaves `ticked` as it is.
    fn timed_call(&mut self, out: &mut Vec<Message<P>>) -> (res: Result<(), NodeError>)
        ensures
            old(out)@.is_prefix_of(final(out)@),
            Self::ticked(*old(self), *final(self), final(out)@.skip(old(out)@.len() as int), res),
    ;
}

/// Nothing happened: the state is what it was, nothing was sent, and the
/// result is `Ok`.
pub open spec fn idle<N, P>(
    pre: N,
    post: N,
    sent: Seq<Message<P>>,
    res: Result<(), NodeError>,
) -> bool {
    post == pre && sent.len() == 0 && res is Ok
}

/// The request was turned down for the reason `why`: the state is what it
/// was and nothing was sent.
pub open spec fn failed<N, P>(
    pre: N,
    post: N,
    sent: Seq<Message<P>>,
    res: Result<(), NodeError>,
    why: NodeError,
) -> bool {
    post == pre && sent.len() == 0 && res == Err::<(), NodeError>(why)
}

} // verus!
