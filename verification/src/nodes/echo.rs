//! The echo node: it sends back what it is sent.

use vstd::prelude::*;
use crate::envelope::{numbered_from, Init, Message};
use crate::node::{failed, idle, Node, NodeError};
use crate::utils::{lemma_views_of_tail, views};

verus! {

/// What an echo node receives and sends.
#[derive(Debug, PartialEq, Eq)]
pub enum Payload {
    Echo { echo: String },
    EchoOk { echo: String },
}

/// A payload with its text as a value.
pub enum PayloadView {
    Echo { echo: Seq<char> },
    EchoOk { echo: Seq<char> },
}

impl View for Payload {
    type V = PayloadView;

    open spec fn view(&self) -> PayloadView {
        match *self {
            Payload::Echo { echo } => PayloadView::Echo { echo: echo@ },
            Payload::EchoOk { echo } => PayloadView::EchoOk { echo: echo@ },
        }
    }
}

/// The state of an echo node: its id counter.
pub struct EchoNode {
    id: usize,
}

impl View for EchoNode {
    type V = usize;

    /// The last id the node has used.
    closed spec fn view(&self) -> usize {
        self.id
    }
}

impl EchoNode {
    /// The node with its id counter at `last_id`: its next message takes the
    /// id after it.
    pub fn with_last_id(self, last_id: usize) -> (node: Self)
        ensures
            node@ == last_id,
    {
        EchoNode { id: last_id }
    }
}

impl Node<Payload, ()> for EchoNode {
    /// The counter of a new node stands at 2.
    open spec fn made(state: (), init: Init, node: Self) -> bool {
        node@ == 2
    }

    /// An `Echo` is answered by one `EchoOk` with the same text under the
    /// next id, or refused where no id is left. Anything else is ignored.
    open spec fn handled(
        pre: Self,
        message: Message<Payload>,
        post: Self,
        sent: Seq<Message<Payload>>,
        res: Result<(), NodeError>,
    ) -> bool {
        match message@.payload {
            PayloadView::Echo { echo } => if pre@ < usize::MAX {
                &&& res is Ok
                &&& post@ == pre@ + 1
                &&& views(sent) == seq![message@.answer(PayloadView::EchoOk { echo }, post@)]
            } else {
                failed(pre, post, sent, res, NodeError::IdsExhausted)
            },
            PayloadView::EchoOk { .. } => idle(pre, post, sent, res),
        }
    }

    fn new(state: (), init: Init) -> (node: Self) {
        EchoNode { id: 2 }
    }

    fn handle(&mut self, message: Message<Payload>, out: &mut Vec<Message<Payload>>) -> (res:
        Result<(), NodeError>) {
        let ghost start = out@;
        match &message.body.payload {
            Payload::Echo { echo } => {
                if self.id == usize::MAX {
                    return Err(NodeError::IdsExhausted);
                }
                let reply = message.reply(Payload::EchoOk { echo: echo.clone() }, &mut self.id);
                proof {
                    assert(views(start.push(reply)) == views(start) + seq![reply@]);
                    lemma_views_of_tail(start, start.push(reply), seq![reply@]);
                }
                reply.send(out);
            },
            Payload::EchoOk { .. } => {},
        }
        Ok(())
    }

    fn timed_call(&mut self, out: &mut Vec<Message<Payload>>) -> (res: Result<(), NodeError>) {
        Ok(())
    }
}

/// Whatever a node handles, the messages it sends carry the ids that follow
/// its last one, and its counter ends at the last of them.
pub proof fn lemma_ids_continue(
    pre: EchoNode,
    message: Message<Payload>,
    post: EchoNode,
    sent: Seq<Message<Payload>>,
    res: Result<(), NodeError>,
)
    requires
        EchoNode::handled(pre, message, post, sent, res),
    ensures
        numbered_from(views(sent), pre@),
        post@ == pre@ + sent.len(),
{
    assert(views(sent).len() == sent.len());
}

} // verus!
