use dist_system::nodes::broadcast::{BroadcastNode, Payload};
use dist_system::{Body, Init, Message, Node, NodeError};
use std::collections::HashMap;

fn names(list: &[&str]) -> Vec<String> {
    list.iter().map(|s| s.to_string()).collect()
}

fn node(name: &str, all: &[&str]) -> BroadcastNode {
    BroadcastNode::new((), Init { node_id: name.to_string(), node_ids: names(all) })
}

fn msg(src: &str, dest: &str, payload: Payload, msg_id: Option<usize>) -> Message<Payload> {
    Message {
        src: src.to_string(),
        dest: dest.to_string(),
        body: Body { payload, msg_id, in_reply_to: None },
    }
}

fn read(node: &mut BroadcastNode, name: &str) -> Vec<usize> {
    let mut out = Vec::new();
    node.handle(msg("c9", name, Payload::Read, Some(99)), &mut out).unwrap();
    assert_eq!(out.len(), 1);
    match out.pop().unwrap().body.payload {
        Payload::ReadOk { messages } => messages,
        other => panic!("unexpected answer {:?}", other),
    }
}

#[test]
fn broadcast_goes_to_every_neighbor_and_is_acknowledged() {
    let mut n1 = node("n1", &["n1", "n2", "n3"]);
    let mut out = Vec::new();
    let res = n1.handle(msg("c1", "n1", Payload::Broadcast { message: 7 }, Some(5)), &mut out);
    assert_eq!(res, Ok(()));
    assert_eq!(out.len(), 4);
    for (i, dest) in ["n1", "n2", "n3"].iter().enumerate() {
        assert_eq!(out[i].src, "n1");
        assert_eq!(out[i].dest, *dest);
        assert_eq!(out[i].body.msg_id, Some(3 + i));
        assert_eq!(out[i].body.in_reply_to, Some(5));
        assert_eq!(
            out[i].body.payload,
            Payload::Propagate { message: vec![7], visited: names(&["n1", "n2", "n3"]) }
        );
    }
    assert_eq!(out[3].src, "n1");
    assert_eq!(out[3].dest, "c1");
    assert_eq!(out[3].body.payload, Payload::BroadcastOk);
    assert_eq!(out[3].body.msg_id, Some(6));
    assert_eq!(out[3].body.in_reply_to, Some(5));
    assert_eq!(read(&mut n1, "n1"), vec![7]);
}

#[test]
fn broadcast_adds_the_node_to_the_visited_list() {
    let mut n1 = node("n1", &["n2", "n3"]);
    let mut out = Vec::new();
    n1.handle(msg("c1", "n1", Payload::Broadcast { message: 1 }, Some(1)), &mut out).unwrap();
    assert_eq!(out.len(), 3);
    assert_eq!(
        out[0].body.payload,
        Payload::Propagate { message: vec![1], visited: names(&["n2", "n3", "n1"]) }
    );
}

#[test]
fn broadcast_of_a_known_value_keeps_one_copy() {
    let mut n1 = node("n1", &["n1", "n2"]);
    let mut out = Vec::new();
    n1.handle(msg("c1", "n1", Payload::Broadcast { message: 7 }, Some(1)), &mut out).unwrap();
    n1.handle(msg("c1", "n1", Payload::Broadcast { message: 8 }, Some(2)), &mut out).unwrap();
    n1.handle(msg("c1", "n1", Payload::Broadcast { message: 7 }, Some(3)), &mut out).unwrap();
    assert_eq!(read(&mut n1, "n1"), vec![7, 8]);
    assert_eq!(
        out[6].body.payload,
        Payload::Propagate { message: vec![7, 8], visited: names(&["n1", "n2"]) }
    );
}

#[test]
fn broadcast_reaches_a_neighbor_directly() {
    let mut a = node("n1", &["n1", "n2"]);
    let mut b = node("n2", &["n1", "n2"]);
    let mut out = Vec::new();
    a.handle(msg("c1", "n1", Payload::Broadcast { message: 7 }, Some(1)), &mut out).unwrap();
    let to_b = out.remove(1);
    assert_eq!(to_b.dest, "n2");
    let mut from_b = Vec::new();
    assert_eq!(b.handle(to_b, &mut from_b), Ok(()));
    assert!(from_b.is_empty());
    assert_eq!(read(&mut b, "n2"), vec![7]);
}

#[test]
fn broadcast_reaches_a_node_over_an_intermediate_hop() {
    let mut a = node("n1", &["n2"]);
    let mut b = node("n2", &["n1", "n3"]);
    let mut c = node("n3", &["n2"]);
    let mut out = Vec::new();
    a.handle(msg("c1", "n1", Payload::Broadcast { message: 7 }, Some(1)), &mut out).unwrap();
    let to_b = out.remove(0);
    assert_eq!(to_b.dest, "n2");
    let mut from_b = Vec::new();
    b.handle(to_b, &mut from_b).unwrap();
    assert_eq!(from_b.len(), 1);
    assert_eq!(from_b[0].src, "n2");
    assert_eq!(from_b[0].dest, "n3");
    assert_eq!(from_b[0].body.msg_id, Some(3));
    assert_eq!(
        from_b[0].body.payload,
        Payload::Propagate { message: vec![7], visited: names(&["n2", "n1", "n3"]) }
    );
    let mut from_c = Vec::new();
    c.handle(from_b.remove(0), &mut from_c).unwrap();
    assert!(from_c.is_empty());
    assert_eq!(read(&mut c, "n3"), vec![7]);
}

#[test]
fn propagate_is_merged_and_passed_on_to_the_unvisited() {
    let mut n2 = node("n2", &["n1", "n2", "n3", "n4"]);
    let mut out = Vec::new();
    n2.handle(msg("c1", "n2", Payload::Broadcast { message: 1 }, Some(1)), &mut out).unwrap();
    out.clear();
    let incoming = Payload::Propagate { message: vec![2, 1, 3], visited: names(&["n1", "n1"]) };
    assert_eq!(n2.handle(msg("n1", "n2", incoming, Some(8)), &mut out), Ok(()));
    assert_eq!(read(&mut n2, "n2"), vec![1, 2, 3]);
    assert_eq!(out.len(), 2);
    for (i, dest) in ["n3", "n4"].iter().enumerate() {
        assert_eq!(out[i].src, "n2");
        assert_eq!(out[i].dest, *dest);
        assert_eq!(out[i].body.msg_id, Some(8 + i));
        assert_eq!(out[i].body.in_reply_to, Some(8));
        assert_eq!(
            out[i].body.payload,
            Payload::Propagate { message: vec![1, 2, 3], visited: names(&["n1", "n2", "n3", "n4"]) }
        );
    }
}

#[test]
fn propagate_with_nothing_new_ends_there() {
    let mut n2 = node("n2", &["n1", "n2", "n3"]);
    let mut out = Vec::new();
    let first = Payload::Propagate { message: vec![7, 8], visited: names(&["n1"]) };
    n2.handle(msg("n1", "n2", first, Some(3)), &mut out).unwrap();
    assert_eq!(out.len(), 1);
    out.clear();
    let again = Payload::Propagate { message: vec![8, 7], visited: names(&["n1"]) };
    assert_eq!(n2.handle(msg("n1", "n2", again, Some(4)), &mut out), Ok(()));
    assert!(out.is_empty());
    let part = Payload::Propagate { message: vec![7], visited: Vec::new() };
    assert_eq!(n2.handle(msg("n3", "n2", part, Some(9)), &mut out), Ok(()));
    assert!(out.is_empty());
    let empty = Payload::Propagate { message: Vec::new(), visited: Vec::new() };
    assert_eq!(n2.handle(msg("n3", "n2", empty, Some(10)), &mut out), Ok(()));
    assert!(out.is_empty());
    assert_eq!(read(&mut n2, "n2"), vec![7, 8]);
    let mut probe = Vec::new();
    n2.handle(msg("c1", "n2", Payload::Topology { topology: HashMap::new() }, Some(1)), &mut probe)
        .unwrap();
    assert_eq!(probe[0].body.msg_id, Some(5));
}

#[test]
fn read_of_a_new_node_is_empty() {
    let mut n1 = node("n1", &["n1", "n2"]);
    assert_eq!(read(&mut n1, "n1"), Vec::<usize>::new());
}

#[test]
fn topology_is_acknowledged_and_changes_nothing() {
    let mut n1 = node("n1", &["n1", "n2", "n3"]);
    let mut graph = HashMap::new();
    graph.insert("n1".to_string(), names(&["n2"]));
    let mut out = Vec::new();
    let res = n1.handle(msg("c1", "n1", Payload::Topology { topology: graph }, Some(4)), &mut out);
    assert_eq!(res, Ok(()));
    assert_eq!(out.len(), 1);
    assert_eq!(out[0].body.payload, Payload::TopologyOk);
    assert_eq!(out[0].body.in_reply_to, Some(4));
    assert_eq!(out[0].body.msg_id, Some(3));
    out.clear();
    n1.handle(msg("c1", "n1", Payload::Broadcast { message: 1 }, Some(5)), &mut out).unwrap();
    assert_eq!(out.len(), 4);
}

#[test]
fn broadcast_answers_are_ignored() {
    let mut n1 = node("n1", &["n1", "n2"]);
    let mut out = Vec::new();
    for payload in [Payload::BroadcastOk, Payload::TopologyOk, Payload::ReadOk { messages: vec![4] }] {
        assert_eq!(n1.handle(msg("n2", "n1", payload, Some(1)), &mut out), Ok(()));
    }
    assert!(out.is_empty());
    assert_eq!(read(&mut n1, "n1"), Vec::<usize>::new());
}

#[test]
fn broadcast_is_refused_when_ids_do_not_last() {
    let mut n1 = node("n1", &["n1", "n2", "n3"]).with_last_id(usize::MAX - 3);
    let mut out = Vec::new();
    let res = n1.handle(msg("c1", "n1", Payload::Broadcast { message: 7 }, Some(1)), &mut out);
    assert_eq!(res, Err(NodeError::IdsExhausted));
    assert!(out.is_empty());
    assert_eq!(read(&mut n1, "n1"), Vec::<usize>::new());
    let mut n1 = node("n1", &["n1", "n2", "n3"]).with_last_id(usize::MAX - 4);
    let res = n1.handle(msg("c1", "n1", Payload::Broadcast { message: 7 }, Some(1)), &mut out);
    assert_eq!(res, Ok(()));
    assert_eq!(out[3].body.msg_id, Some(usize::MAX));
}

#[test]
fn forward_is_refused_when_ids_do_not_last() {
    let mut n2 = node("n2", &["n1", "n3", "n4"]).with_last_id(usize::MAX - 1);
    let mut out = Vec::new();
    let incoming = Payload::Propagate { message: vec![1], visited: names(&["n1"]) };
    let res = n2.handle(msg("n1", "n2", incoming, Some(1)), &mut out);
    assert_eq!(res, Err(NodeError::IdsExhausted));
    assert!(out.is_empty());
    let known = Payload::Propagate { message: Vec::new(), visited: names(&["n1"]) };
    assert_eq!(n2.handle(msg("n1", "n2", known, Some(2)), &mut out), Ok(()));
    let mut answer = Vec::new();
    n2.handle(msg("c1", "n2", Payload::Read, Some(3)), &mut answer).unwrap();
    assert_eq!(answer[0].body.payload, Payload::ReadOk { messages: Vec::new() });
    assert_eq!(answer[0].body.msg_id, Some(usize::MAX));
    let res = n2.handle(msg("c1", "n2", Payload::Read, Some(4)), &mut answer);
    assert_eq!(res, Err(NodeError::IdsExhausted));
}
