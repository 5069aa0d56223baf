use mpscq_worker::drain::{step, Action, LoopState, Received};
use mpscq_worker::shutdown::release_handles;
use std::sync::mpsc::{channel, Receiver, Sender, TryRecvError};

const LOOP_COUNT: u64 = 10_000;
const PRODUCER_COUNT: u8 = 4;

/// Runs the drain loop on `rx` until it stops, handing each message to
/// `handler`; returns the state it ended in.
fn drain(rx: &Receiver<u64>, handler: &mut dyn FnMut(u64)) -> LoopState {
    let mut state = LoopState::Running;
    while state == LoopState::Running {
        let event = match rx.recv() {
            Ok(m) => Received::Message(m),
            Err(_) => Received::Closed,
        };
        let (next, action) = step(state, event);
        if let Action::Handle(m) = action {
            handler(m);
        }
        state = next;
    }
    state
}

/// Like `drain`, but stops receiving where a receive would block.
fn drain_ready(rx: &Receiver<u64>, handler: &mut dyn FnMut(u64)) -> LoopState {
    let mut state = LoopState::Running;
    while state == LoopState::Running {
        let event = match rx.try_recv() {
            Ok(m) => Received::Message(m),
            Err(TryRecvError::Disconnected) => Received::Closed,
            Err(TryRecvError::Empty) => return state,
        };
        let (next, action) = step(state, event);
        if let Action::Handle(m) = action {
            handler(m);
        }
        state = next;
    }
    state
}

#[test]
fn single_producer_shutdown_test() {
    let (queue_tx, queue_rx) = channel::<u64>();
    for i in 0..LOOP_COUNT {
        let _ = queue_tx.send(i);
    }
    let mut returned = vec![queue_tx];
    release_handles(&mut returned);
    let mut result: u64 = 0;
    let end = drain(&queue_rx, &mut |v| result = v);
    assert_eq!(end, LoopState::Stopped);
    assert_eq!(result, LOOP_COUNT - 1);
}

#[test]
fn multi_producers_shutdown_test() {
    let (queue_tx, queue_rx) = channel::<u64>();
    let mut producers: Vec<Sender<u64>> = Vec::new();
    for _ in 1..PRODUCER_COUNT {
        producers.push(queue_tx.clone());
    }
    producers.push(queue_tx);
    for i in 0..LOOP_COUNT {
        for p in producers.iter() {
            let _ = p.send(i);
        }
    }
    // The producers drop their handles themselves; none is handed back.
    drop(producers);
    let mut returned: Vec<Sender<u64>> = Vec::new();
    release_handles(&mut returned);
    let mut result: u64 = 0;
    let end = drain(&queue_rx, &mut |v| result += v);
    assert_eq!(end, LoopState::Stopped);
    let expected_result: u64 = (LOOP_COUNT - 1) * LOOP_COUNT * (PRODUCER_COUNT as u64) / 2;
    assert_eq!(result, expected_result);
}

#[test]
fn step_hands_message_to_handler() {
    let (state, action) = step(LoopState::Running, Received::Message(7u64));
    assert_eq!(state, LoopState::Running);
    assert!(matches!(action, Action::Handle(7)));
}

#[test]
fn step_stops_on_closed_queue() {
    let (state, action) = step(LoopState::Running, Received::<u64>::Closed);
    assert_eq!(state, LoopState::Stopped);
    assert!(matches!(action, Action::Exit));
}

#[test]
fn step_stopped_is_terminal() {
    let (state, action) = step(LoopState::Stopped, Received::Message(3u64));
    assert_eq!(state, LoopState::Stopped);
    assert!(matches!(action, Action::Exit));
    let (state, action) = step(LoopState::Stopped, Received::<u64>::Closed);
    assert_eq!(state, LoopState::Stopped);
    assert!(matches!(action, Action::Exit));
}

#[test]
fn single_producer_order_kept() {
    let sent: Vec<u64> = vec![5, 3, 9, 3, 0, 42];
    let (tx, rx) = channel::<u64>();
    for v in sent.iter() {
        tx.send(*v).unwrap();
    }
    let mut returned = vec![tx];
    release_handles(&mut returned);
    let mut seen: Vec<u64> = Vec::new();
    assert_eq!(drain(&rx, &mut |v| seen.push(v)), LoopState::Stopped);
    assert_eq!(seen, sent);
}

#[test]
fn empty_queue_stops_without_handling() {
    let (tx, rx) = channel::<u64>();
    let mut returned = vec![tx];
    release_handles(&mut returned);
    let mut calls: u64 = 0;
    assert_eq!(drain(&rx, &mut |_| calls += 1), LoopState::Stopped);
    assert_eq!(calls, 0);
}

#[test]
fn mixed_producers_sum_conserved() {
    let (tx, rx) = channel::<u64>();
    let a = tx.clone();
    let b = tx.clone();
    // Three producers each send 0..5, interleaved unevenly.
    for v in 0..5u64 {
        a.send(v).unwrap();
    }
    for v in 0..3u64 {
        b.send(v).unwrap();
        tx.send(v).unwrap();
    }
    for v in 3..5u64 {
        tx.send(v).unwrap();
        b.send(v).unwrap();
    }
    let mut returned = vec![tx, a, b];
    release_handles(&mut returned);
    let mut sum: u64 = 0;
    assert_eq!(drain(&rx, &mut |v| sum += v), LoopState::Stopped);
    assert_eq!(sum, 3 * 5 * 4 / 2);
}

#[test]
fn drop_triggered_closure() {
    let (tx, rx) = channel::<u64>();
    {
        let first = tx.clone();
        let second = tx;
        first.send(1).unwrap();
        second.send(2).unwrap();
    }
    let mut seen: Vec<u64> = Vec::new();
    assert_eq!(drain(&rx, &mut |v| seen.push(v)), LoopState::Stopped);
    assert_eq!(seen, vec![1, 2]);
}

#[test]
fn outstanding_handle_keeps_loop_running() {
    let (tx, rx) = channel::<u64>();
    tx.send(4).unwrap();
    tx.send(6).unwrap();
    let mut seen: Vec<u64> = Vec::new();
    assert_eq!(drain_ready(&rx, &mut |v| seen.push(v)), LoopState::Running);
    assert_eq!(seen, vec![4, 6]);
    drop(tx);
    assert_eq!(drain_ready(&rx, &mut |v| seen.push(v)), LoopState::Stopped);
    assert_eq!(seen, vec![4, 6]);
}

#[test]
fn high_volume_stress() {
    let (tx, rx) = channel::<u64>();
    for i in 0..100_000u64 {
        tx.send(i).unwrap();
    }
    let mut returned = vec![tx];
    release_handles(&mut returned);
    let mut seen: Vec<u64> = Vec::new();
    assert_eq!(drain(&rx, &mut |v| seen.push(v)), LoopState::Stopped);
    assert_eq!(seen.len(), 100_000);
    for (i, v) in seen.iter().enumerate() {
        assert_eq!(*v, i as u64);
    }
}

#[test]
fn release_handles_empties_list() {
    let (tx, rx) = channel::<u64>();
    let mut returned = vec![tx.clone(), tx.clone(), tx];
    release_handles(&mut returned);
    assert!(returned.is_empty());
    assert!(matches!(rx.try_recv(), Err(TryRecvError::Disconnected)));
}
