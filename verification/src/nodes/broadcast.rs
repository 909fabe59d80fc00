//! The gossip broadcast node: every value that reaches one node spreads to
//! all, by messages that carry the sender's whole set.

use vstd::prelude::*;
use std::collections::HashMap;
use crate::envelope::{numbered_from, Init, Message, MessageView};
use crate::names::{merge_names, names_absent};
use crate::node::{failed, idle, Node, NodeError};
use crate::utils::{
    absent, lemma_union_absorbs, lemma_union_is_set_union, lemma_views_of_tail, merge_messages,
    union_of, views,
};

verus! {

/// What a broadcast node receives and sends.
#[derive(Debug, PartialEq, Eq)]
pub enum Payload {
    Broadcast { message: usize },
    BroadcastOk,
    Read,
    ReadOk { messages: Vec<usize> },
    Topology { topology: HashMap<String, Vec<String>> },
    TopologyOk,
    Propagate { message: Vec<usize>, visited: Vec<String> },
}

/// A payload with its collections as values. The graph of a `Topology`
/// plays no part in what the node does and is left out.
pub enum PayloadView {
    Broadcast { message: usize },
    BroadcastOk,
    Read,
    ReadOk { messages: Seq<usize> },
    Topology,
    TopologyOk,
    Propagate { message: Seq<usize>, visited: Seq<Seq<char>> },
}

impl View for Payload {
    type V = PayloadView;

    open spec fn view(&self) -> PayloadView {
        match *self {
            Payload::Broadcast { message } => PayloadView::Broadcast { message },
            Payload::BroadcastOk => PayloadView::BroadcastOk,
            Payload::Read => PayloadView::Read,
            Payload::ReadOk { messages } => PayloadView::ReadOk { messages: messages@ },
            Payload::Topology { .. } => PayloadView::Topology,
            Payload::TopologyOk => PayloadView::TopologyOk,
            Payload::Propagate { message, visited } => PayloadView::Propagate {
                message: message@,
                visited: views(visited@),
            },
        }
    }
}

/// The state of a broadcast node as values.
pub struct BroadcastState {
    /// The last id the node has used.
    pub id: usize,
    /// The node's own id.
    pub name: Seq<char>,
    /// The nodes it gossips with, in the order of the handshake.
    pub neighbors: Seq<Seq<char>>,
    /// The values it has seen, in the order in which it saw them.
    pub received: Seq<usize>,
}

impl BroadcastState {
    /// The received values form a set: none occurs twice.
    pub open spec fn wf(self) -> bool {
        self.received.no_duplicates()
    }
}

/// The `Propagate` messages that go out to `targets` on behalf of `request`,
/// one each in their order, under the ids from `first_id` on. Each is a reply
/// to `request` with the destination changed.
pub open spec fn fan_out(
    request: MessageView<PayloadView>,
    targets: Seq<Seq<char>>,
    values: Seq<usize>,
    visited: Seq<Seq<char>>,
    first_id: int,
) -> Seq<MessageView<PayloadView>> {
    Seq::new(
        targets.len(),
        |i: int|
            MessageView {
                src: request.dest,
                dest: targets[i],
                payload: PayloadView::Propagate { message: values, visited },
                msg_id: Some((first_id + i) as usize),
                in_reply_to: request.msg_id,
            },
    )
}

/// What a `Broadcast` of `value` does: the value joins the set, every
/// neighbor is sent the whole set with a visited list of the neighbors and
/// the node itself, and the client is answered last.
pub open spec fn broadcast_step(
    pre: BroadcastState,
    request: MessageView<PayloadView>,
    value: usize,
    post: BroadcastState,
    sent: Seq<MessageView<PayloadView>>,
) -> bool {
    let received = union_of(pre.received, seq![value]);
    let last_id = pre.id + pre.neighbors.len() + 1;
    &&& post == BroadcastState { id: last_id as usize, received, ..pre }
    &&& sent == fan_out(
        request,
        pre.neighbors,
        received,
        union_of(pre.neighbors, seq![pre.name]),
        pre.id + 1,
    ).push(request.answer(PayloadView::BroadcastOk, last_id as usize))
}

/// The neighbors that a `Propagate` with the visited list `visited` is passed
/// on to: those that neither the list names nor are the node itself.
pub open spec fn forward_targets(pre: BroadcastState, visited: Seq<Seq<char>>) -> Seq<Seq<char>> {
    absent(pre.neighbors, union_of(visited, seq![pre.name]))
}

/// What a `Propagate` that brought something new does: the union becomes the
/// node's set and is passed on to the neighbors not yet visited, with a
/// visited list grown by the node itself and its neighbors.
pub open spec fn forward_step(
    pre: BroadcastState,
    request: MessageView<PayloadView>,
    values: Seq<usize>,
    visited: Seq<Seq<char>>,
    post: BroadcastState,
    sent: Seq<MessageView<PayloadView>>,
) -> bool {
    let merged = union_of(pre.received, values);
    let targets = forward_targets(pre, visited);
    &&& post == BroadcastState { id: (pre.id + targets.len()) as usize, received: merged, ..pre }
    &&& sent == fan_out(
        request,
        targets,
        merged,
        union_of(union_of(visited, seq![pre.name]), pre.neighbors),
        pre.id + 1,
    )
}

/// The state of a broadcast node.
pub struct BroadcastNode {
    id: usize,
    node_name: String,
    near_nodes: Vec<String>,
    messages: Vec<usize>,
}

impl View for BroadcastNode {
    type V = BroadcastState;

    closed spec fn view(&self) -> BroadcastState {
        BroadcastState {
            id: self.id,
            name: self.node_name@,
            neighbors: views(self.near_nodes@),
            received: self.messages@,
        }
    }
}

impl BroadcastNode {
    #[verifier::type_invariant]
    spec fn inv(self) -> bool {
        self.messages@.no_duplicates()
    }

    /// The node with its id counter at `last_id`: its next message takes the
    /// id after it.
    pub fn with_last_id(self, last_id: usize) -> (node: Self)
        ensures
            node@ == (BroadcastState { id: last_id, ..self@ }),
    {
        proof {
            use_type_invariant(&self);
        }
        let mut node = self;
        node.id = last_id;
        node
    }

    /// Sends `values` and `visited` to each of `targets` as a reply to
    /// `request` with the destination changed.
    fn propagate(
        request: &Message<Payload>,
        targets: &Vec<String>,
        values: &Vec<usize>,
        visited: &Vec<String>,
        id: &mut usize,
        out: &mut Vec<Message<Payload>>,
    )
        requires
            *old(id) + targets.len() <= usize::MAX,
        ensures
            *final(id) == *old(id) + targets.len(),
            old(out)@.is_prefix_of(final(out)@),
            views(final(out)@) == views(old(out)@) + fan_out(
                request@,
                views(targets@),
                values@,
                views(visited@),
                *old(id) + 1,
            ),
    {
        let mut i: usize = 0;
        while i < targets.len()
            invariant
                i <= targets.len(),
                *old(id) + targets.len() <= usize::MAX,
                *id == *old(id) + i,
                old(out)@.is_prefix_of(out@),
                views(out@) == views(old(out)@) + fan_out(
                    request@,
                    views(targets@),
                    values@,
                    views(visited@),
                    *old(id) + 1,
                ).take(i as int),
            decreases targets.len() - i,
        {
            let ghost before = out@;
            let mut m = request.reply(
                Payload::Propagate { message: values.clone(), visited: visited.clone() },
                id,
            );
            m.dest = targets[i].clone();
            assert(views(before.push(m)) == views(before).push(m@));
            m.send(out);
            i = i + 1;
        }
    }
}

impl Node<Payload, ()> for BroadcastNode {
    /// A new node has seen nothing, gossips with every node of the
    /// handshake, and its counter stands at 2.
    open spec fn made(state: (), init: Init, node: Self) -> bool {
        node@ == BroadcastState {
            id: 2,
            name: init@.node_id,
            neighbors: init@.node_ids,
            received: Seq::empty(),
        }
    }

    /// `Broadcast`, `Read` and `Topology` are served as long as the ids
    /// last. A `Propagate` is merged in; where it brought nothing new that
    /// is all, else the union is passed on. The three answers are ignored.
    open spec fn handled(
        pre: Self,
        message: Message<Payload>,
        post: Self,
        sent: Seq<Message<Payload>>,
        res: Result<(), NodeError>,
    ) -> bool {
        match message@.payload {
            PayloadView::Broadcast { message: value } => if pre@.id + pre@.neighbors.len() + 1
                <= usize::MAX {
                res is Ok && broadcast_step(pre@, message@, value, post@, views(sent))
            } else {
                failed(pre, post, sent, res, NodeError::IdsExhausted)
            },
            PayloadView::Read => if pre@.id < usize::MAX {
                &&& res is Ok
                &&& post@ == BroadcastState { id: (pre@.id + 1) as usize, ..pre@ }
                &&& views(sent) == seq![
                    message@.answer(
                        PayloadView::ReadOk { messages: pre@.received },
                        (pre@.id + 1) as usize,
                    ),
                ]
            } else {
                failed(pre, post, sent, res, NodeError::IdsExhausted)
            },
            PayloadView::Topology => if pre@.id < usize::MAX {
                &&& res is Ok
                &&& post@ == BroadcastState { id: (pre@.id + 1) as usize, ..pre@ }
                &&& views(sent) == seq![
                    message@.answer(PayloadView::TopologyOk, (pre@.id + 1) as usize),
                ]
            } else {
                failed(pre, post, sent, res, NodeError::IdsExhausted)
            },
            PayloadView::Propagate { message: values, visited } => if union_of(
                pre@.received,
                values,
            ).len() == pre@.received.len() {
                &&& res is Ok
                &&& post@ == BroadcastState { received: union_of(pre@.received, values), ..pre@ }
                &&& sent.len() == 0
            } else if pre@.id + forward_targets(pre@, visited).len() <= usize::MAX {
                res is Ok && forward_step(pre@, message@, values, visited, post@, views(sent))
            } else {
                failed(pre, post, sent, res, NodeError::IdsExhausted)
            },
            PayloadView::BroadcastOk | PayloadView::ReadOk { .. } | PayloadView::TopologyOk => idle(
                pre,
                post,
                sent,
                res,
            ),
        }
    }

    fn new(state: (), init: Init) -> (node: Self)
        ensures
            node@.wf(),
    {
        BroadcastNode {
            id: 2,
            node_name: init.node_id,
            near_nodes: init.node_ids,
            messages: Vec::new(),
        }
    }

    fn handle(&mut self, message: Message<Payload>, out: &mut Vec<Message<Payload>>) -> (res:
        Result<(), NodeError>)
        ensures
            final(self)@.wf(),
    {
        broadcast use vstd::laws_eq::group_laws_eq;
        proof {
            use_type_invariant(&*self);
        }
        let ghost sent_before = out@;
        match &message.body.payload {
            Payload::Broadcast { message: value } => {
                if self.near_nodes.len() >= usize::MAX - self.id {
                    return Err(NodeError::IdsExhausted);
                }
                let mut one: Vec<usize> = Vec::new();
                one.push(*value);
                let received = merge_messages(self.messages.clone(), one);
                let mut own: Vec<String> = Vec::new();
                own.push(self.node_name.clone());
                let visited = merge_names(&self.near_nodes, &own);
                proof {
                    assert(views(self.messages@) == self.messages@);
                    assert(views(one@) == seq![*value]);
                    assert(views(received@) == received@);
                    assert(views(own@) == seq![self.node_name@]);
                    lemma_union_is_set_union(self.messages@, seq![*value]);
                }
                let mut id = self.id;
                Self::propagate(&message, &self.near_nodes, &received, &visited, &mut id, out);
                let ghost mid = out@;
                let reply = message.reply(Payload::BroadcastOk, &mut id);
                proof {
                    let fan = fan_out(
                        message@,
                        views(self.near_nodes@),
                        received@,
                        views(visited@),
                        self.id + 1,
                    );
                    assert(views(mid.push(reply)) == views(mid).push(reply@));
                    lemma_views_of_tail(sent_before, mid.push(reply), fan.push(reply@));
                }
                reply.send(out);
                self.messages = received;
                self.id = id;
            },
            Payload::BroadcastOk => {},
            Payload::Read => {
                if self.id == usize::MAX {
                    return Err(NodeError::IdsExhausted);
                }
                let mut id = self.id;
                let reply = message.reply(
                    Payload::ReadOk { messages: self.messages.clone() },
                    &mut id,
                );
                proof {
                    assert(views(sent_before.push(reply)) == views(sent_before) + seq![reply@]);
                    lemma_views_of_tail(sent_before, sent_before.push(reply), seq![reply@]);
                }
                reply.send(out);
                self.id = id;
            },
            Payload::ReadOk { .. } => {},
            Payload::Topology { .. } => {
                if self.id == usize::MAX {
                    return Err(NodeError::IdsExhausted);
                }
                let mut id = self.id;
                let reply = message.reply(Payload::TopologyOk, &mut id);
                proof {
                    assert(views(sent_before.push(reply)) == views(sent_before) + seq![reply@]);
                    lemma_views_of_tail(sent_before, sent_before.push(reply), seq![reply@]);
                }
                reply.send(out);
                self.id = id;
            },
            Payload::TopologyOk => {},
            Payload::Propagate { message: values, visited } => {
                let merged = merge_messages(self.messages.clone(), values.clone());
                proof {
                    assert(views(self.messages@) == self.messages@);
                    assert(views(values@) == values@);
                    assert(views(merged@) == merged@);
                    lemma_union_is_set_union(self.messages@, values@);
                }
                if merged.len() == self.messages.len() {
                    self.messages = merged;
                    return Ok(());
                }
                let mut own: Vec<String> = Vec::new();
                own.push(self.node_name.clone());
                let seen = merge_names(visited, &own);
                let targets = names_absent(&self.near_nodes, &seen);
                assert(views(own@) == seq![self.node_name@]);
                if targets.len() > usize::MAX - self.id {
                    return Err(NodeError::IdsExhausted);
                }
                let carried = merge_names(&seen, &self.near_nodes);
                let mut id = self.id;
                Self::propagate(&message, &targets, &merged, &carried, &mut id, out);
                proof {
                    lemma_views_of_tail(
                        sent_before,
                        out@,
                        fan_out(message@, views(targets@), merged@, views(carried@), self.id + 1),
                    );
                }
                self.messages = merged;
                self.id = id;
            },
        }
        Ok(())
    }

    fn timed_call(&mut self, out: &mut Vec<Message<Payload>>) -> (res: Result<(), NodeError>) {
        Ok(())
    }
}

/// The received values stay a set: a step from a state without repetition
/// leads to one.
pub proof fn lemma_step_keeps_set(
    pre: BroadcastNode,
    message: Message<Payload>,
    post: BroadcastNode,
    sent: Seq<Message<Payload>>,
    res: Result<(), NodeError>,
)
    requires
        pre@.wf(),
        BroadcastNode::handled(pre, message, post, sent, res),
    ensures
        post@.wf(),
{
    match message@.payload {
        PayloadView::Broadcast { message: value } => {
            lemma_union_is_set_union(pre@.received, seq![value]);
        },
        PayloadView::Propagate { message: values, visited } => {
            lemma_union_is_set_union(pre@.received, values);
        },
        _ => {},
    }
}

/// A value once received is never lost, whatever the node handles.
pub proof fn lemma_received_only_grows(
    pre: BroadcastNode,
    message: Message<Payload>,
    post: BroadcastNode,
    sent: Seq<Message<Payload>>,
    res: Result<(), NodeError>,
    value: usize,
)
    requires
        BroadcastNode::handled(pre, message, post, sent, res),
        pre@.received.contains(value),
    ensures
        post@.received.contains(value),
{
    match message@.payload {
        PayloadView::Broadcast { message: new } => {
            lemma_union_is_set_union(pre@.received, seq![new]);
            if res is Ok {
                assert(post@.received.to_set().contains(value));
            }
        },
        PayloadView::Propagate { message: values, visited } => {
            lemma_union_is_set_union(pre@.received, values);
            if res is Ok {
                assert(post@.received.to_set().contains(value));
            }
        },
        _ => {},
    }
}

/// A `Propagate` that carries nothing new to a node ends there: the node
/// sends nothing and stays as it was.
pub proof fn lemma_known_propagate_is_silent(
    pre: BroadcastNode,
    message: Message<Payload>,
    post: BroadcastNode,
    sent: Seq<Message<Payload>>,
    res: Result<(), NodeError>,
)
    requires
        pre@.wf(),
        message@.payload is Propagate,
        message@.payload->Propagate_message.to_set().subset_of(pre@.received.to_set()),
        BroadcastNode::handled(pre, message, post, sent, res),
    ensures
        res is Ok,
        sent.len() == 0,
        post@ == pre@,
{
    lemma_union_absorbs(pre@.received, message@.payload->Propagate_message);
}

/// A node that served a `Broadcast` has the value, and so has every node
/// that a chain of `Propagate` messages leads to from there, each a message
/// that the node before it sent.
pub proof fn lemma_broadcast_reaches(
    before: Seq<BroadcastNode>,
    handled: Seq<Message<Payload>>,
    after: Seq<BroadcastNode>,
    sent: Seq<Seq<Message<Payload>>>,
    value: usize,
    hop: int,
)
    requires
        0 <= hop < handled.len(),
        before.len() == handled.len(),
        after.len() == handled.len(),
        sent.len() == handled.len(),
        forall|k: int|
            0 <= k < handled.len() ==> BroadcastNode::handled(
                #[trigger] before[k],
                handled[k],
                after[k],
                sent[k],
                Ok(()),
            ),
        handled[0]@.payload == (PayloadView::Broadcast { message: value }),
        forall|k: int|
            0 < k < handled.len() ==> (#[trigger] handled[k])@.payload is Propagate && views(
                sent[k - 1],
            ).contains(handled[k]@),
    ensures
        after[hop]@.received.contains(value),
        forall|i: int|
            0 <= i < sent[hop].len() && (#[trigger] sent[hop][i])@.payload is Propagate
                ==> sent[hop][i]@.payload->Propagate_message.contains(value),
    decreases hop,
{
    assert(BroadcastNode::handled(before[hop], handled[hop], after[hop], sent[hop], Ok(())));
    let pre = before[hop]@;
    if hop == 0 {
        lemma_union_is_set_union(pre.received, seq![value]);
        assert(seq![value][0] == value);
        assert(seq![value].to_set().contains(value));
        assert(after[0]@.received.to_set().contains(value));
    } else {
        lemma_broadcast_reaches(before, handled, after, sent, value, hop - 1);
        let m = handled[hop];
        let earlier = views(sent[hop - 1]);
        let j = choose|j: int| 0 <= j < earlier.len() && earlier[j] == m@;
        assert(sent[hop - 1][j]@ == m@);
        let values = m@.payload->Propagate_message;
        assert(values.contains(value));
        lemma_union_is_set_union(pre.received, values);
        assert(values.to_set().contains(value));
        assert(after[hop]@.received.to_set().contains(value));
    }
    assert forall|i: int|
        0 <= i < sent[hop].len() && (#[trigger] sent[hop][i])@.payload is Propagate implies sent[hop][i]@.payload->Propagate_message.contains(
        value,
    ) by {
        assert(views(sent[hop]).len() == sent[hop].len());
        assert(views(sent[hop])[i] == sent[hop][i]@);
        assert(sent[hop][i]@.payload->Propagate_message == after[hop]@.received);
    }
}

/// A `Read` is answered with exactly the values the node has received.
pub proof fn lemma_read_reports_received(
    pre: BroadcastNode,
    message: Message<Payload>,
    post: BroadcastNode,
    sent: Seq<Message<Payload>>,
)
    requires
        message@.payload is Read,
        BroadcastNode::handled(pre, message, post, sent, Ok(())),
    ensures
        sent.len() == 1,
        sent[0]@.payload == (PayloadView::ReadOk { messages: pre@.received }),
        sent[0]@.dest == message@.src,
        sent[0]@.in_reply_to == message@.msg_id,
{
    assert(views(sent).len() == sent.len());
    assert(views(sent)[0] == sent[0]@);
}

/// Whatever a node handles, the messages it sends carry the ids that follow
/// its last one, in the order in which they are sent, and its counter ends
/// at the last of them.
pub proof fn lemma_ids_continue(
    pre: BroadcastNode,
    message: Message<Payload>,
    post: BroadcastNode,
    sent: Seq<Message<Payload>>,
    res: Result<(), NodeError>,
)
    requires
        BroadcastNode::handled(pre, message, post, sent, res),
    ensures
        numbered_from(views(sent), pre@.id),
        post@.id == pre@.id + sent.len(),
{
    assert(views(sent).len() == sent.len());
}

} // verus!
