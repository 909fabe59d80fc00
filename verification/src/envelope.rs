//! The message envelope and the correlation of requests and replies.

use vstd::prelude::*;

verus! {

/// The part of a message below the addressing: the payload and the two
/// correlation fields.
#[derive(Debug, PartialEq, Eq)]
pub struct Body<P> {
    pub payload: P,
    pub msg_id: Option<usize>,
    pub in_reply_to: Option<usize>,
}

/// An addressed message.
#[derive(Debug, PartialEq, Eq)]
pub struct Message<P> {
    pub src: String,
    pub dest: String,
    pub body: Body<P>,
}

/// The handshake data: the node's own id and the ids of all nodes of the
/// cluster, in the order in which they were announced.
#[derive(Debug, PartialEq, Eq)]
pub struct Init {
    pub node_id: String,
    pub node_ids: Vec<String>,
}

/// What a message says, with every string and collection as its value.
pub struct MessageView<V> {
    pub src: Seq<char>,
    pub dest: Seq<char>,
    pub payload: V,
    pub msg_id: Option<usize>,
    pub in_reply_to: Option<usize>,
}

/// What the handshake data says.
pub struct InitView {
    pub node_id: Seq<char>,
    pub node_ids: Seq<Seq<char>>,
}

impl<P: View> View for Message<P> {
    type V = MessageView<P::V>;

    open spec fn view(&self) -> MessageView<P::V> {
        MessageView {
            src: self.src@,
            dest: self.dest@,
            payload: self.body.payload@,
            msg_id: self.body.msg_id,
            in_reply_to: self.body.in_reply_to,
        }
    }
}

impl View for Init {
    type V = InitView;

    open spec fn view(&self) -> InitView {
        InitView { node_id: self.node_id@, node_ids: self.node_ids@.map_values(|s: String| s@) }
    }
}

impl<V> MessageView<V> {
    /// The answer to `self` that carries `payload` under the id `msg_id`.
    pub open spec fn answer<W>(self, payload: W, msg_id: usize) -> MessageView<W> {
        MessageView {
            src: self.dest,
            dest: self.src,
            payload,
            msg_id: Some(msg_id),
            in_reply_to: self.msg_id,
        }
    }
}

/// The messages of `sent` carry the ids that follow `last`, one after the
/// other.
pub open spec fn numbered_from<V>(sent: Seq<MessageView<V>>, last: usize) -> bool {
    forall|i: int| 0 <= i < sent.len() ==> (#[trigger] sent[i]).msg_id == Some((last + 1 + i) as usize)
}

impl<P: Clone> Clone for Body<P> {
    fn clone(&self) -> (copy: Self)
        ensures
            cloned(self.payload, copy.payload),
            copy.msg_id == self.msg_id,
            copy.in_reply_to == self.in_reply_to,
    {
        Body {
            payload: self.payload.clone(),
            msg_id: self.msg_id,
            in_reply_to: self.in_reply_to,
        }
    }
}

impl<P: Clone> Clone for Message<P> {
    fn clone(&self) -> (copy: Self)
        ensures
            copy.src == self.src,
            copy.dest == self.dest,
            cloned(self.body.payload, copy.body.payload),
            copy.body.msg_id == self.body.msg_id,
            copy.body.in_reply_to == self.body.in_reply_to,
    {
        Message { src: self.src.clone(), dest: self.dest.clone(), body: self.body.clone() }
    }
}

impl Clone for Init {
    fn clone(&self) -> (copy: Self)
        ensures
            copy.node_id == self.node_id,
            copy.node_ids@ == self.node_ids@,
    {
        Init { node_id: self.node_id.clone(), node_ids: self.node_ids.clone() }
    }
}

impl<P> Message<P> {
    /// `self` is the message that a sender originated when its id counter
    /// stood at `before`, and `after` is where the counter stands afterwards.
    pub open spec fn issued(self, before: usize, after: usize) -> bool {
        &&& after == before + 1
        &&& self.body.msg_id == Some(after)
    }

    /// An unsolicited message from `src` to `dest`. It takes the next id
    /// from the caller's counter and answers nothing.
    pub fn new(src: String, dest: String, payload: P, id: &mut usize) -> (msg: Message<P>)
        requires
            *old(id) < usize::MAX,
        ensures
            msg.issued(*old(id), *final(id)),
            msg.src == src,
            msg.dest == dest,
            msg.body.payload == payload,
            msg.body.in_reply_to == None::<usize>,
    {
        *id = *id + 1;
        Message { src, dest, body: Body { payload, msg_id: Some(*id), in_reply_to: None } }
    }

    /// The answer to `self`: it goes back to where `self` came from, takes
    /// the next id from the caller's counter, and names the id of `self` as
    /// the one it replies to. Where `self` has no id, neither does
    /// `in_reply_to`.
    pub fn reply<L>(&self, payload: L, id: &mut usize) -> (msg: Message<L>)
        requires
            *old(id) < usize::MAX,
        ensures
            msg.issued(*old(id), *final(id)),
            msg.src == self.dest,
            msg.dest == self.src,
            msg.body.payload == payload,
            msg.body.in_reply_to == self.body.msg_id,
    {
        *id = *id + 1;
        Message {
            src: self.dest.clone(),
            dest: self.src.clone(),
            body: Body { payload, msg_id: Some(*id), in_reply_to: self.body.msg_id },
        }
    }

    /// Hands the message to the output sink, behind everything that was
    /// sent before.
    pub fn send(self, out: &mut Vec<Message<P>>)
        ensures
            final(out)@ == old(out)@.push(self),
    {
        out.push(self);
    }
}

/// Two messages that one sender originates one after the other carry
/// strictly increasing ids, whichever of `new` and `reply` made them.
pub proof fn lemma_successive_ids_increase<P, Q>(
    first: Message<P>,
    second: Message<Q>,
    start: usize,
    between: usize,
    end: usize,
)
    requires
        first.issued(start, between),
        second.issued(between, end),
    ensures
        first.body.msg_id is Some,
        second.body.msg_id is Some,
        first.body.msg_id->0 < second.body.msg_id->0,
        first.body.msg_id->0 > start,
{
}

} // verus!
