//! The id generator node: every `Generate` is answered with an id that no
//! other answer in the cluster carries, made of the node's name and the
//! number of its last message.

use vstd::prelude::*;
use vstd::string::StringExecFns;
use crate::envelope::{numbered_from, Init, Message};
use crate::node::{failed, idle, Node, NodeError};
use crate::utils::{lemma_views_of_tail, views};

verus! {

/// What an id generator node receives and sends.
#[derive(Debug, PartialEq, Eq)]
pub enum Payload {
    Generate,
    GenerateOk { id: String },
}

/// A payload with its text as a value.
pub enum PayloadView {
    Generate,
    GenerateOk { id: Seq<char> },
}

impl View for Payload {
    type V = PayloadView;

    open spec fn view(&self) -> PayloadView {
        match *self {
            Payload::Generate => PayloadView::Generate,
            Payload::GenerateOk { id } => PayloadView::GenerateOk { id: id@ },
        }
    }
}

/// The character for a digit below ten.
pub open spec fn digit(d: nat) -> char {
    if d == 0 {
        '0'
    } else if d == 1 {
        '1'
    } else if d == 2 {
        '2'
    } else if d == 3 {
        '3'
    } else if d == 4 {
        '4'
    } else if d == 5 {
        '5'
    } else if d == 6 {
        '6'
    } else if d == 7 {
        '7'
    } else if d == 8 {
        '8'
    } else {
        '9'
    }
}

/// `n` in decimal digits, without leading zeros.
pub open spec fn decimal(n: nat) -> Seq<char>
    decreases n,
{
    if n < 10 {
        seq![digit(n)]
    } else {
        decimal(n / 10).push(digit(n % 10))
    }
}

/// The id that the node called `name` makes of the number `n`: the name, a
/// hyphen, and the number in decimal digits.
pub open spec fn label_of(name: Seq<char>, n: nat) -> Seq<char> {
    name + seq!['-'] + decimal(n)
}

/// The state of an id generator node as values.
pub struct GeneratorState {
    /// The last id the node has used.
    pub id: usize,
    /// The node's own id.
    pub name: Seq<char>,
}

/// The state of an id generator node.
pub struct UUIDNode {
    id: usize,
    node_name: String,
}

impl View for UUIDNode {
    type V = GeneratorState;

    closed spec fn view(&self) -> GeneratorState {
        GeneratorState { id: self.id, name: self.node_name@ }
    }
}

/// The text of one digit.
fn digit_text(d: usize) -> (text: &'static str)
    requires
        d < 10,
    ensures
        text@ == seq![digit(d as nat)],
{
    proof {
        reveal_strlit("0");
        reveal_strlit("1");
        reveal_strlit("2");
        reveal_strlit("3");
        reveal_strlit("4");
        reveal_strlit("5");
        reveal_strlit("6");
        reveal_strlit("7");
        reveal_strlit("8");
        reveal_strlit("9");
    }
    if d == 0 {
        "0"
    } else if d == 1 {
        "1"
    } else if d == 2 {
        "2"
    } else if d == 3 {
        "3"
    } else if d == 4 {
        "4"
    } else if d == 5 {
        "5"
    } else if d == 6 {
        "6"
    } else if d == 7 {
        "7"
    } else if d == 8 {
        "8"
    } else {
        "9"
    }
}

/// `n` written in decimal digits.
fn decimal_text(n: usize) -> (text: String)
    ensures
        text@ == decimal(n as nat),
    decreases n,
{
    if n < 10 {
        String::from_str(digit_text(n))
    } else {
        let mut text = decimal_text(n / 10);
        text.append(digit_text(n % 10));
        text
    }
}

/// The id that the node called `name` makes of the number `n`.
fn label(name: &String, n: usize) -> (text: String)
    ensures
        text@ == label_of(name@, n as nat),
{
    proof {
        reveal_strlit("-");
    }
    let mut text = name.clone();
    text.append("-");
    let digits = decimal_text(n);
    text.append(digits.as_str());
    text
}

impl UUIDNode {
    /// The node with its id counter at `last_id`: its next message takes the
    /// id after it.
    pub fn with_last_id(self, last_id: usize) -> (node: Self)
        ensures
            node@ == (GeneratorState { id: last_id, ..self@ }),
    {
        let mut node = self;
        node.id = last_id;
        node
    }
}

impl Node<Payload, ()> for UUIDNode {
    /// A new node has the name of the handshake, and its counter stands
    /// at 2.
    open spec fn made(state: (), init: Init, node: Self) -> bool {
        node@ == GeneratorState { id: 2, name: init@.node_id }
    }

    /// A `Generate` is answered under the next id with an id made of the
    /// node's name and the number of its last message, or refused where no
    /// id is left. Anything else is ignored.
    open spec fn handled(
        pre: Self,
        message: Message<Payload>,
        post: Self,
        sent: Seq<Message<Payload>>,
        res: Result<(), NodeError>,
    ) -> bool {
        match message@.payload {
            PayloadView::Generate => if pre@.id < usize::MAX {
                &&& res is Ok
                &&& post@ == GeneratorState { id: (pre@.id + 1) as usize, ..pre@ }
                &&& views(sent) == seq![
                    message@.answer(
                        PayloadView::GenerateOk { id: label_of(pre@.name, pre@.id as nat) },
                        post@.id,
                    ),
                ]
            } else {
                failed(pre, post, sent, res, NodeError::IdsExhausted)
            },
            PayloadView::GenerateOk { .. } => idle(pre, post, sent, res),
        }
    }

    fn new(state: (), init: Init) -> (node: Self) {
        UUIDNode { id: 2, node_name: init.node_id }
    }

    fn handle(&mut self, message: Message<Payload>, out: &mut Vec<Message<Payload>>) -> (res:
        Result<(), NodeError>) {
        let ghost start = out@;
        match &message.body.payload {
            Payload::Generate => {
                if self.id == usize::MAX {
                    return Err(NodeError::IdsExhausted);
                }
                let id = label(&self.node_name, self.id);
                let reply = message.reply(Payload::GenerateOk { id }, &mut self.id);
                proof {
                    assert(views(start.push(reply)) == views(start) + seq![reply@]);
                    lemma_views_of_tail(start, start.push(reply), seq![reply@]);
                }
                reply.send(out);
            },
            Payload::GenerateOk { .. } => {},
        }
        Ok(())
    }

    fn timed_call(&mut self, out: &mut Vec<Message<Payload>>) -> (res: Result<(), NodeError>) {
        Ok(())
    }
}

/// Whatever a node handles, the messages it sends carry the ids that follow
/// its last one, and its counter ends at the last of them.
pub proof fn lemma_ids_continue(
    pre: UUIDNode,
    message: Message<Payload>,
    post: UUIDNode,
    sent: Seq<Message<Payload>>,
    res: Result<(), NodeError>,
)
    requires
        UUIDNode::handled(pre, message, post, sent, res),
    ensures
        numbered_from(views(sent), pre@.id),
        post@.id == pre@.id + sent.len(),
{
    assert(views(sent).len() == sent.len());
}

} // verus!
