//! The grow-only counter: every addition is an entry of its own under a
//! unique token, the nodes exchange their whole sets of entries, and the
//! counter is the sum over the set.

use vstd::prelude::*;
use vstd::std_specs::cmp::PartialEqSpecImpl;
use crate::envelope::{numbered_from, Init, Message, MessageView};
use crate::names::names_absent;
use crate::node::{failed, idle, Node, NodeError};
use crate::utils::{
    absent, lemma_union_is_set_union, lemma_union_repeated, lemma_views_of_tail, merge_messages,
    union_of, views,
};

verus! {

/// One addition to the counter: the amount, and the token that tells it
/// from every other addition in the cluster.
#[derive(Debug, Hash)]
pub struct Contribution {
    pub delta: usize,
    pub uuid: String,
}

/// An addition as a value.
pub struct ContributionView {
    pub delta: usize,
    pub uuid: Seq<char>,
}

impl View for Contribution {
    type V = ContributionView;

    open spec fn view(&self) -> ContributionView {
        ContributionView { delta: self.delta, uuid: self.uuid@ }
    }
}

impl Clone for Contribution {
    fn clone(&self) -> (copy: Self)
        ensures
            copy == *self,
    {
        Contribution { delta: self.delta, uuid: self.uuid.clone() }
    }
}

impl PartialEq for Contribution {
    fn eq(&self, other: &Self) -> (same: bool) {
        self.delta == other.delta && self.uuid == other.uuid
    }
}

impl Eq for Contribution {

}

impl PartialEqSpecImpl for Contribution {
    open spec fn obeys_eq_spec() -> bool {
        true
    }

    open spec fn eq_spec(&self, other: &Self) -> bool {
        self.delta == other.delta && self.uuid@ == other.uuid@
    }
}

/// What a counter node receives and sends.
#[derive(Debug, PartialEq, Eq)]
pub enum Payload {
    Read,
    ReadOk { value: usize },
    Add { delta: usize },
    AddOk,
    Propagate { messages: Vec<Contribution> },
    PropagateOk,
}

/// A payload with its entries as values.
pub enum PayloadView {
    Read,
    ReadOk { value: usize },
    Add { delta: usize },
    AddOk,
    Propagate { messages: Seq<ContributionView> },
    PropagateOk,
}

impl View for Payload {
    type V = PayloadView;

    open spec fn view(&self) -> PayloadView {
        match *self {
            Payload::Read => PayloadView::Read,
            Payload::ReadOk { value } => PayloadView::ReadOk { value },
            Payload::Add { delta } => PayloadView::Add { delta },
            Payload::AddOk => PayloadView::AddOk,
            Payload::Propagate { messages } => PayloadView::Propagate { messages: views(messages@) },
            Payload::PropagateOk => PayloadView::PropagateOk,
        }
    }
}

/// The sum of the amounts of `entries`.
pub open spec fn sum_deltas(entries: Seq<ContributionView>) -> nat
    decreases entries.len(),
{
    if entries.len() == 0 {
        0
    } else {
        (sum_deltas(entries.drop_last()) + entries.last().delta) as nat
    }
}

/// The state of a counter node as values.
pub struct CounterState {
    /// The last id the node has used.
    pub id: usize,
    /// The node's own id.
    pub name: Seq<char>,
    /// The other nodes of the cluster, in the order of the handshake.
    pub neighbors: Seq<Seq<char>>,
    /// The additions the node knows of.
    pub entries: Seq<ContributionView>,
}

impl CounterState {
    /// The value of the counter: the sum over the entries.
    pub open spec fn value(self) -> nat {
        sum_deltas(self.entries)
    }
}

/// A lower-case hexadecimal digit.
pub open spec fn is_hex_digit(c: char) -> bool {
    ||| c == '0'
    ||| c == '1'
    ||| c == '2'
    ||| c == '3'
    ||| c == '4'
    ||| c == '5'
    ||| c == '6'
    ||| c == '7'
    ||| c == '8'
    ||| c == '9'
    ||| c == 'a'
    ||| c == 'b'
    ||| c == 'c'
    ||| c == 'd'
    ||| c == 'e'
    ||| c == 'f'
}

/// The hyphenated text of a random (version 4) UUID: 36 characters, hyphens
/// after the 8th, 12th, 16th and 20th digit, the version digit `4` and a
/// variant digit of `8`, `9`, `a` or `b`.
pub open spec fn is_token(s: Seq<char>) -> bool {
    &&& s.len() == 36
    &&& forall|i: int|
        0 <= i < 36 ==> if i == 8 || i == 13 || i == 18 || i == 23 {
            s[i] == '-'
        } else {
            is_hex_digit(#[trigger] s[i])
        }
    &&& s[14] == '4'
    &&& (s[19] == '8' || s[19] == '9' || s[19] == 'a' || s[19] == 'b')
}

/// A token for a new entry, from `uuid::Uuid::new_v4` and the `to_string`
/// of its result. Trusted: the text has the form of a version 4 UUID. Which
/// token comes is left open; that no two are ever the same is what the
/// counter relies on and what nothing here proves. The call fails only where
/// the operating system hands out no random bytes.
#[verifier::external_body]
fn fresh_token() -> (token: String)
    ensures
        is_token(token@),
{
    uuid::Uuid::new_v4().to_string()
}

/// The sum of the amounts of `entries`, or `None` where it does not fit.
fn total(entries: &Vec<Contribution>) -> (sum: Option<usize>)
    ensures
        match sum {
            Some(value) => value == sum_deltas(views(entries@)),
            None => sum_deltas(views(entries@)) > usize::MAX,
        },
{
    let mut sum: usize = 0;
    let mut i: usize = 0;
    while i < entries.len()
        invariant
            i <= entries.len(),
            sum == sum_deltas(views(entries@).take(i as int)),
        decreases entries.len() - i,
    {
        proof {
            assert(views(entries@).take(i + 1).drop_last() == views(entries@).take(i as int));
        }
        match sum.checked_add(entries[i].delta) {
            Some(next) => {
                sum = next;
            },
            None => {
                proof {
                    lemma_sum_grows(views(entries@), i + 1);
                }
                return None;
            },
        }
        i = i + 1;
    }
    assert(views(entries@).take(entries@.len() as int) == views(entries@));
    Some(sum)
}

/// The sum over a front part of `entries` is at most the sum over all.
pub proof fn lemma_sum_grows(entries: Seq<ContributionView>, n: int)
    requires
        0 <= n <= entries.len(),
    ensures
        sum_deltas(entries.take(n)) <= sum_deltas(entries),
    decreases entries.len() - n,
{
    if n == entries.len() {
        assert(entries.take(n) == entries);
    } else {
        lemma_sum_grows(entries, n + 1);
        assert(entries.take(n + 1).drop_last() == entries.take(n));
    }
}

/// The entries a node knows of together with their sum, which is kept in
/// step with them.
pub struct Ledger {
    entries: Vec<Contribution>,
    sum: usize,
}

impl View for Ledger {
    type V = Seq<ContributionView>;

    closed spec fn view(&self) -> Seq<ContributionView> {
        views(self.entries@)
    }
}

impl Ledger {
    #[verifier::type_invariant]
    spec fn inv(self) -> bool {
        self.sum == sum_deltas(views(self.entries@))
    }

    /// The ledger without entries.
    pub fn new() -> (ledger: Ledger)
        ensures
            ledger@ == Seq::<ContributionView>::empty(),
    {
        Ledger { entries: Vec::new(), sum: 0 }
    }

    /// The sum over the entries.
    pub fn sum(&self) -> (sum: usize)
        ensures
            sum == sum_deltas(self@),
    {
        proof {
            use_type_invariant(self);
        }
        self.sum
    }

    /// A copy of the entries.
    pub fn entries(&self) -> (entries: Vec<Contribution>)
        ensures
            views(entries@) == self@,
    {
        self.entries.clone()
    }

    /// The ledger with one more entry, or the ledger as it was where the
    /// sum would no longer fit.
    pub fn with_entry(self, delta: usize, token: String) -> (res: Result<Ledger, Ledger>)
        ensures
            sum_deltas(self@) + delta <= usize::MAX ==> res is Ok && res->Ok_0@ == self@.push(
                ContributionView { delta, uuid: token@ },
            ),
            sum_deltas(self@) + delta > usize::MAX ==> res is Err && res->Err_0 == self,
    {
        proof {
            use_type_invariant(&self);
        }
        match self.sum.checked_add(delta) {
            Some(sum) => {
                let Ledger { mut entries, sum: _ } = self;
                let entry = Contribution { delta, uuid: token };
                proof {
                    let grown = views(entries@.push(entry));
                    assert(grown.drop_last() == views(entries@));
                }
                entries.push(entry);
                Ok(Ledger { entries, sum })
            },
            None => Err(self),
        }
    }

    /// The ledger that holds the union of the entries of `self` and
    /// `incoming`, or `None` where its sum does not fit.
    pub fn merged_with(&self, incoming: &Vec<Contribution>) -> (merged: Option<Ledger>)
        ensures
            match merged {
                Some(ledger) => ledger@ == union_of(self@, views(incoming@)) && sum_deltas(ledger@)
                    <= usize::MAX,
                None => sum_deltas(union_of(self@, views(incoming@))) > usize::MAX,
            },
    {
        proof {
            reveal(vstd::laws_eq::obeys_view_eq);
        }
        let entries = merge_messages(self.entries.clone(), incoming.clone());
        match total(&entries) {
            Some(sum) => Some(Ledger { entries, sum }),
            None => None,
        }
    }
}

/// The state of a counter node.
pub struct CounterNode {
    id: usize,
    node_name: String,
    near_nodes: Vec<String>,
    ledger: Ledger,
}

impl View for CounterNode {
    type V = CounterState;

    closed spec fn view(&self) -> CounterState {
        CounterState {
            id: self.id,
            name: self.node_name@,
            neighbors: views(self.near_nodes@),
            entries: self.ledger@,
        }
    }
}

/// The `Propagate` messages of a tick: one to each neighbor in their order,
/// each with all entries, under the ids that follow the node's last.
pub open spec fn pushes(pre: CounterState) -> Seq<MessageView<PayloadView>> {
    Seq::new(
        pre.neighbors.len(),
        |i: int|
            MessageView {
                src: pre.name,
                dest: pre.neighbors[i],
                payload: PayloadView::Propagate { messages: pre.entries },
                msg_id: Some((pre.id + 1 + i) as usize),
                in_reply_to: None,
            },
    )
}

/// The node answers `request` with `payload` under its next id and is
/// otherwise left with the entries `entries`.
pub open spec fn answered(
    pre: CounterState,
    request: MessageView<PayloadView>,
    entries: Seq<ContributionView>,
    payload: PayloadView,
    post: CounterState,
    sent: Seq<MessageView<PayloadView>>,
) -> bool {
    &&& post == CounterState { id: (pre.id + 1) as usize, entries, ..pre }
    &&& sent == seq![request.answer(payload, (pre.id + 1) as usize)]
}

impl CounterNode {
    /// Records an addition of `delta` under `token`, unless the sum would
    /// no longer fit; then nothing changes.
    pub fn add(&mut self, delta: usize, token: String) -> (res: Result<(), NodeError>)
        ensures
            old(self)@.value() + delta <= usize::MAX ==> res is Ok && final(self)@ == (CounterState {
                entries: old(self)@.entries.push(ContributionView { delta, uuid: token@ }),
                ..old(self)@
            }),
            old(self)@.value() + delta > usize::MAX ==> res == Err::<(), NodeError>(
                NodeError::CounterOverflow,
            ) && *final(self) == *old(self),
    {
        let mut ledger = Ledger::new();
        core::mem::swap(&mut self.ledger, &mut ledger);
        match ledger.with_entry(delta, token) {
            Ok(grown) => {
                self.ledger = grown;
                Ok(())
            },
            Err(same) => {
                self.ledger = same;
                Err(NodeError::CounterOverflow)
            },
        }
    }

    /// The node with its id counter at `last_id`: its next message takes the
    /// id after it.
    pub fn with_last_id(self, last_id: usize) -> (node: Self)
        ensures
            node@ == (CounterState { id: last_id, ..self@ }),
    {
        let mut node = self;
        node.id = last_id;
        node
    }

    /// The value of the counter.
    pub fn value(&self) -> (value: usize)
        ensures
            value == self@.value(),
    {
        self.ledger.sum()
    }

    /// Sends all entries to every neighbor, or nothing where the ids do not
    /// last for all of them.
    fn propogate(&mut self, out: &mut Vec<Message<Payload>>) -> (res: Result<(), NodeError>)
        ensures
            old(out)@.is_prefix_of(final(out)@),
            Self::ticked(*old(self), *final(self), final(out)@.skip(old(out)@.len() as int), res),
    {
        let ghost start = out@;
        if self.near_nodes.len() > usize::MAX - self.id {
            return Err(NodeError::IdsExhausted);
        }
        let mut id = self.id;
        let mut i: usize = 0;
        while i < self.near_nodes.len()
            invariant
                i <= self.near_nodes.len(),
                self.id + self.near_nodes.len() <= usize::MAX,
                id == self.id + i,
                *self == *old(self),
                start.is_prefix_of(out@),
                views(out@) == views(start) + pushes(self@).take(i as int),
            decreases self.near_nodes.len() - i,
        {
            let ghost before = out@;
            let m = Message::new(
                self.node_name.clone(),
                self.near_nodes[i].clone(),
                Payload::Propagate { messages: self.ledger.entries() },
                &mut id,
            );
            assert(views(before.push(m)) == views(before).push(m@));
            m.send(out);
            i = i + 1;
        }
        proof {
            assert(pushes(self@).take(self.near_nodes.len() as int) == pushes(self@));
            lemma_views_of_tail(start, out@, pushes(self@));
        }
        self.id = id;
        Ok(())
    }
}

impl Node<Payload, ()> for CounterNode {
    /// A new node has no entries, gossips with every node of the handshake
    /// but itself, and its counter of ids stands at 2.
    open spec fn made(state: (), init: Init, node: Self) -> bool {
        node@ == CounterState {
            id: 2,
            name: init@.node_id,
            neighbors: absent(init@.node_ids, seq![init@.node_id]),
            entries: Seq::empty(),
        }
    }

    /// An `Add` appends one entry with the amount asked for under a fresh
    /// token; a `Read` reports the sum; a `Propagate` leaves the union of the
    /// node's entries and those received. Each is answered under the next id.
    /// Nothing changes where no id is left or the sum would not fit. The
    /// three answers are ignored.
    open spec fn handled(
        pre: Self,
        message: Message<Payload>,
        post: Self,
        sent: Seq<Message<Payload>>,
        res: Result<(), NodeError>,
    ) -> bool {
        match message@.payload {
            PayloadView::Add { delta } => if pre@.id == usize::MAX {
                failed(pre, post, sent, res, NodeError::IdsExhausted)
            } else if pre@.value() + delta > usize::MAX {
                failed(pre, post, sent, res, NodeError::CounterOverflow)
            } else {
                &&& res is Ok
                &&& post@.entries.len() == pre@.entries.len() + 1
                &&& post@.entries.last().delta == delta
                &&& is_token(post@.entries.last().uuid)
                &&& answered(
                    pre@,
                    message@,
                    pre@.entries.push(post@.entries.last()),
                    PayloadView::AddOk,
                    post@,
                    views(sent),
                )
            },
            PayloadView::Read => if pre@.id == usize::MAX {
                failed(pre, post, sent, res, NodeError::IdsExhausted)
            } else {
                &&& res is Ok
                &&& pre@.value() <= usize::MAX
                &&& answered(
                    pre@,
                    message@,
                    pre@.entries,
                    PayloadView::ReadOk { value: pre@.value() as usize },
                    post@,
                    views(sent),
                )
            },
            PayloadView::Propagate { messages } => if pre@.id == usize::MAX {
                failed(pre, post, sent, res, NodeError::IdsExhausted)
            } else if sum_deltas(union_of(pre@.entries, messages)) > usize::MAX {
                failed(pre, post, sent, res, NodeError::CounterOverflow)
            } else {
                &&& res is Ok
                &&& answered(
                    pre@,
                    message@,
                    union_of(pre@.entries, messages),
                    PayloadView::PropagateOk,
                    post@,
                    views(sent),
                )
            },
            PayloadView::ReadOk { .. } | PayloadView::AddOk | PayloadView::PropagateOk => idle(
                pre,
                post,
                sent,
                res,
            ),
        }
    }

    /// On a tick the node sends all its entries to every neighbor, each
    /// message under an id of its own, or nothing where the ids do not last.
    open spec fn ticked(
        pre: Self,
        post: Self,
        sent: Seq<Message<Payload>>,
        res: Result<(), NodeError>,
    ) -> bool {
        if pre@.id + pre@.neighbors.len() <= usize::MAX {
            &&& res is Ok
            &&& post@ == CounterState { id: (pre@.id + pre@.neighbors.len()) as usize, ..pre@ }
            &&& views(sent) == pushes(pre@)
        } else {
            failed(pre, post, sent, res, NodeError::IdsExhausted)
        }
    }

    fn new(state: (), init: Init) -> (node: Self) {
        let mut own: Vec<String> = Vec::new();
        own.push(init.node_id.clone());
        let near_nodes = names_absent(&init.node_ids, &own);
        assert(views(own@) == seq![init.node_id@]);
        CounterNode { id: 2, node_name: init.node_id, near_nodes, ledger: Ledger::new() }
    }

    fn handle(&mut self, message: Message<Payload>, out: &mut Vec<Message<Payload>>) -> (res:
        Result<(), NodeError>) {
        let ghost start = out@;
        match &message.body.payload {
            Payload::Add { delta } => {
                if self.id == usize::MAX {
                    return Err(NodeError::IdsExhausted);
                }
                let token = fresh_token();
                match self.add(*delta, token) {
                    Ok(()) => {},
                    Err(why) => {
                        return Err(why);
                    },
                }
                let mut id = self.id;
                let reply = message.reply(Payload::AddOk, &mut id);
                proof {
                    assert(views(start.push(reply)) == views(start) + seq![reply@]);
                    lemma_views_of_tail(start, start.push(reply), seq![reply@]);
                }
                reply.send(out);
                self.id = id;
            },
            Payload::AddOk => {},
            Payload::Read => {
                if self.id == usize::MAX {
                    return Err(NodeError::IdsExhausted);
                }
                let mut id = self.id;
                let reply = message.reply(Payload::ReadOk { value: self.ledger.sum() }, &mut id);
                proof {
                    assert(views(start.push(reply)) == views(start) + seq![reply@]);
                    lemma_views_of_tail(start, start.push(reply), seq![reply@]);
                }
                reply.send(out);
                self.id = id;
            },
            Payload::ReadOk { .. } => {},
            Payload::Propagate { messages } => {
                if self.id == usize::MAX {
                    return Err(NodeError::IdsExhausted);
                }
                let merged = match self.ledger.merged_with(messages) {
                    Some(merged) => merged,
                    None => {
                        return Err(NodeError::CounterOverflow);
                    },
                };
                let mut id = self.id;
                let reply = message.reply(Payload::PropagateOk, &mut id);
                proof {
                    assert(views(start.push(reply)) == views(start) + seq![reply@]);
                    lemma_views_of_tail(start, start.push(reply), seq![reply@]);
                }
                reply.send(out);
                self.ledger = merged;
                self.id = id;
            },
            Payload::PropagateOk => {},
        }
        Ok(())
    }

    fn timed_call(&mut self, out: &mut Vec<Message<Payload>>) -> (res: Result<(), NodeError>) {
        self.propogate(out)
    }
}

/// Delivering the same `Propagate` a second time changes neither the
/// entries nor the value of the counter.
pub proof fn lemma_second_delivery_changes_nothing(
    start: CounterNode,
    first: Message<Payload>,
    between: CounterNode,
    first_sent: Seq<Message<Payload>>,
    second: Message<Payload>,
    end: CounterNode,
    second_sent: Seq<Message<Payload>>,
    second_res: Result<(), NodeError>,
)
    requires
        first@.payload is Propagate,
        second@.payload == first@.payload,
        CounterNode::handled(start, first, between, first_sent, Ok(())),
        CounterNode::handled(between, second, end, second_sent, second_res),
    ensures
        end@.entries == between@.entries,
        end@.value() == between@.value(),
{
    lemma_union_repeated(start@.entries, first@.payload->Propagate_messages);
}

/// The entries a node ends up with after a `Propagate` are, as a set, its
/// own and those received: whatever order deliveries come in, the sets
/// agree, and so do the sums.
pub proof fn lemma_propagate_joins_sets(
    pre: CounterNode,
    message: Message<Payload>,
    post: CounterNode,
    sent: Seq<Message<Payload>>,
)
    requires
        message@.payload is Propagate,
        CounterNode::handled(pre, message, post, sent, Ok(())),
    ensures
        post@.entries.no_duplicates(),
        post@.entries.to_set() == pre@.entries.to_set().union(
            message@.payload->Propagate_messages.to_set(),
        ),
{
    lemma_union_is_set_union(pre@.entries, message@.payload->Propagate_messages);
}

/// Whatever a node handles or does on a tick, the messages it sends carry
/// the ids that follow its last one, in the order in which they are sent,
/// and its counter of ids ends at the last of them.
pub proof fn lemma_ids_continue(
    pre: CounterNode,
    message: Option<Message<Payload>>,
    post: CounterNode,
    sent: Seq<Message<Payload>>,
    res: Result<(), NodeError>,
)
    requires
        match message {
            Some(message) => CounterNode::handled(pre, message, post, sent, res),
            None => CounterNode::ticked(pre, post, sent, res),
        },
    ensures
        numbered_from(views(sent), pre@.id),
        post@.id == pre@.id + sent.len(),
{
    assert(views(sent).len() == sent.len());
}

/// Taking one entry out of a sequence lowers the sum by its amount.
proof fn lemma_sum_without(entries: Seq<ContributionView>, k: int)
    requires
        0 <= k < entries.len(),
    ensures
        sum_deltas(entries) == sum_deltas(entries.remove(k)) + entries[k].delta,
    decreases entries.len(),
{
    if k == entries.len() - 1 {
        assert(entries.remove(k) == entries.drop_last());
    } else {
        lemma_sum_without(entries.drop_last(), k);
        assert(entries.remove(k).drop_last() == entries.drop_last().remove(k));
        assert(entries.remove(k).last() == entries.last());
    }
}

/// The counter depends on the set of entries alone: two nodes that hold the
/// same entries, in whatever order they came to them, have the same value.
pub proof fn lemma_same_entries_same_value(a: Seq<ContributionView>, b: Seq<ContributionView>)
    requires
        a.no_duplicates(),
        b.no_duplicates(),
        a.to_set() == b.to_set(),
    ensures
        sum_deltas(a) == sum_deltas(b),
    decreases a.len(),
{
    if a.len() == 0 {
        if b.len() > 0 {
            assert(b.to_set().contains(b[0]));
            assert(a.to_set().contains(b[0]));
        }
    } else {
        let x = a.last();
        assert(a.to_set().contains(x));
        assert(b.to_set().contains(x));
        let k = choose|k: int| 0 <= k < b.len() && b[k] == x;
        let a1 = a.drop_last();
        let b1 = b.remove(k);
        assert forall|v: ContributionView| a1.to_set().contains(v) <==> b1.to_set().contains(v) by {
            if a1.contains(v) {
                let i = choose|i: int| 0 <= i < a1.len() && a1[i] == v;
                assert(a[i] == v);
                assert(v != x);
                assert(a.to_set().contains(v));
                assert(b.to_set().contains(v));
                let j = choose|j: int| 0 <= j < b.len() && b[j] == v;
                if j < k {
                    assert(b1[j] == v);
                } else {
                    assert(b1[j - 1] == v);
                }
            }
            if b1.contains(v) {
                let j = choose|j: int| 0 <= j < b1.len() && b1[j] == v;
                let j0 = if j < k {
                    j
                } else {
                    j + 1
                };
                assert(b[j0] == v);
                assert(v != x);
                assert(b.to_set().contains(v));
                assert(a.to_set().contains(v));
                let i = choose|i: int| 0 <= i < a.len() && a[i] == v;
                assert(a1[i] == v);
            }
        }
        assert(a1.to_set() =~= b1.to_set());
        assert forall|i: int, j: int| 0 <= i < b1.len() && 0 <= j < b1.len() && i != j implies b1[i]
            != b1[j] by {
            let i0 = if i < k {
                i
            } else {
                i + 1
            };
            let j0 = if j < k {
                j
            } else {
                j + 1
            };
            assert(b[i0] != b[j0]);
        }
        lemma_same_entries_same_value(a1, b1);
        lemma_sum_without(b, k);
    }
}

} // verus!
