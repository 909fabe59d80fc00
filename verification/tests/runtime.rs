use dist_system::nodes::counter::{CounterNode, Payload};
use dist_system::nodes::echo::{EchoNode, Payload as EchoPayload};
use dist_system::runtime::{InitPayload, Phase, Runtime, TURNS_PER_TICK, TURN_MILLIS};
use dist_system::{Body, Init, Message, NodeError};

fn init_message(node_id: &str, all: &[&str]) -> Message<InitPayload> {
    Message {
        src: "c0".to_string(),
        dest: node_id.to_string(),
        body: Body {
            payload: InitPayload::Init(Init {
                node_id: node_id.to_string(),
                node_ids: all.iter().map(|s| s.to_string()).collect(),
            }),
            msg_id: Some(1),
            in_reply_to: None,
        },
    }
}

fn add(delta: usize, msg_id: usize) -> Message<Payload> {
    Message {
        src: "c1".to_string(),
        dest: "n1".to_string(),
        body: Body { payload: Payload::Add { delta }, msg_id: Some(msg_id), in_reply_to: None },
    }
}

#[test]
fn handshake_is_acknowledged_with_id_two() {
    let (runtime, ack) = Runtime::<CounterNode>::start((), init_message("n1", &["n1", "n2"]));
    assert_eq!(ack.src, "n1");
    assert_eq!(ack.dest, "c0");
    assert_eq!(ack.body.payload, InitPayload::InitOk);
    assert_eq!(ack.body.msg_id, Some(2));
    assert_eq!(ack.body.in_reply_to, Some(1));
    assert_eq!(runtime.phase(), Phase::Running);
}

#[test]
fn first_turn_handles_then_ticks() {
    let (mut runtime, _) = Runtime::<CounterNode>::start((), init_message("n1", &["n1", "n2"]));
    let mut out = Vec::new();
    assert_eq!(runtime.turn(Some(add(4, 1)), &mut out), Ok(()));
    assert_eq!(out.len(), 2);
    assert_eq!(out[0].body.payload, Payload::AddOk);
    assert_eq!(out[0].body.msg_id, Some(3));
    assert_eq!(out[1].dest, "n2");
    assert_eq!(out[1].body.msg_id, Some(4));
    assert!(matches!(&out[1].body.payload, Payload::Propagate { messages } if messages.len() == 1));
}

#[test]
fn timer_ticks_on_every_tenth_turn() {
    assert_eq!(TURNS_PER_TICK, 10);
    assert_eq!(TURN_MILLIS, 100);
    let (mut runtime, _) = Runtime::<CounterNode>::start((), init_message("n1", &["n1", "n2"]));
    let mut sent_per_turn = Vec::new();
    for _ in 0..21 {
        let mut out = Vec::new();
        assert_eq!(runtime.turn(None, &mut out), Ok(()));
        sent_per_turn.push(out.len());
    }
    let mut expected = vec![0; 21];
    expected[0] = 1;
    expected[10] = 1;
    expected[20] = 1;
    assert_eq!(sent_per_turn, expected);
}

#[test]
fn turn_between_ticks_only_handles() {
    let (mut runtime, _) = Runtime::<CounterNode>::start((), init_message("n1", &["n1", "n2"]));
    let mut out = Vec::new();
    runtime.turn(None, &mut out).unwrap();
    out.clear();
    assert_eq!(runtime.turn(Some(add(4, 1)), &mut out), Ok(()));
    assert_eq!(out.len(), 1);
    assert_eq!(out[0].body.payload, Payload::AddOk);
}

#[test]
fn failed_handling_ends_the_turn_before_the_tick() {
    let (mut runtime, _) = Runtime::<CounterNode>::start((), init_message("n1", &["n1", "n2"]));
    let mut out = Vec::new();
    runtime.turn(Some(add(usize::MAX, 1)), &mut out).unwrap();
    for _ in 0..9 {
        runtime.turn(None, &mut out).unwrap();
    }
    out.clear();
    assert_eq!(runtime.turn(Some(add(1, 2)), &mut out), Err(NodeError::CounterOverflow));
    assert!(out.is_empty());
    assert_eq!(runtime.turn(None, &mut out), Ok(()));
    assert_eq!(out.len(), 1);
}

#[test]
fn node_without_tick_hook_sends_nothing_on_a_tick() {
    let (mut runtime, ack) = Runtime::<EchoNode>::start((), init_message("n1", &["n1"]));
    assert_eq!(ack.body.msg_id, Some(2));
    let mut out: Vec<Message<EchoPayload>> = Vec::new();
    assert_eq!(runtime.turn(None, &mut out), Ok(()));
    assert!(out.is_empty());
    let echo = Message {
        src: "c1".to_string(),
        dest: "n1".to_string(),
        body: Body {
            payload: EchoPayload::Echo { echo: "hi".to_string() },
            msg_id: Some(1),
            in_reply_to: None,
        },
    };
    assert_eq!(runtime.turn(Some(echo), &mut out), Ok(()));
    assert_eq!(out.len(), 1);
    assert_eq!(out[0].body.payload, EchoPayload::EchoOk { echo: "hi".to_string() });
    assert_eq!(out[0].body.msg_id, Some(3));
}

#[test]
fn session_ends_when_reader_stopped_and_queue_is_empty() {
    let (mut runtime, _) = Runtime::<CounterNode>::start((), init_message("n1", &["n1"]));
    runtime.close_if_drained(false, true);
    assert_eq!(runtime.phase(), Phase::Running);
    runtime.close_if_drained(true, false);
    assert_eq!(runtime.phase(), Phase::Running);
    runtime.close_if_drained(false, false);
    assert_eq!(runtime.phase(), Phase::Running);
    runtime.close_if_drained(true, true);
    assert_eq!(runtime.phase(), Phase::Terminated);
    runtime.close_if_drained(false, false);
    assert_eq!(runtime.phase(), Phase::Terminated);
}
