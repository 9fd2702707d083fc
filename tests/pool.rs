use std::cell::Cell;
use std::collections::VecDeque;
use workpool::pool::{
    dispatch, new_workers, take_threads, terminate_messages, Message, PoolCreationError, Step,
    Worker,
};

#[test]
fn zero_workers_is_refused() {
    let r = new_workers(0, |id| id);
    match r {
        Err(e) => assert_eq!(e.message, "Number of threads must be > 0"),
        Ok(_) => panic!("a pool of zero workers was built"),
    }
}

#[test]
fn creation_error_keeps_its_message() {
    assert_eq!(PoolCreationError::new("bad size").message, "bad size");
}

#[test]
fn workers_get_identifiers_in_order() {
    let spawned = Cell::new(0usize);
    let ws = match new_workers(4, |id| {
        spawned.set(spawned.get() + 1);
        id * 10
    }) {
        Ok(ws) => ws,
        Err(_) => panic!("a pool of four workers was refused"),
    };
    assert_eq!(spawned.get(), 4);
    assert_eq!(ws.len(), 4);
    for (i, w) in ws.iter().enumerate() {
        assert_eq!(w.id, i);
        assert_eq!(w.thread, Some(i * 10));
    }
}

#[test]
fn one_worker_is_enough() {
    let ws = new_workers(1, |id| id).ok().unwrap();
    assert_eq!(ws.len(), 1);
    assert_eq!(ws[0].id, 0);
}

#[test]
fn dispatch_runs_jobs_and_stops_on_terminate() {
    assert!(matches!(dispatch(Message::NewJob(7)), Step::Run(7)));
    assert!(matches!(dispatch(Message::<u8>::Terminate), Step::Stop));
}

#[test]
fn one_terminate_per_worker() {
    let ws = new_workers(3, |id| id).ok().unwrap();
    let msgs: Vec<Message<u8>> = terminate_messages(&ws);
    assert_eq!(msgs.len(), 3);
    assert!(msgs.iter().all(|m| matches!(m, Message::Terminate)));
}

#[test]
fn teardown_takes_each_handle_once() {
    let mut ws = new_workers(3, |id| id + 100).ok().unwrap();
    let first = take_threads(&mut ws);
    assert_eq!(first, vec![(0, Some(100)), (1, Some(101)), (2, Some(102))]);
    assert!(ws.iter().all(|w| w.thread.is_none()));
    let second = take_threads(&mut ws);
    assert_eq!(second, vec![(0, None), (1, None), (2, None)]);
}

#[test]
fn teardown_skips_workers_already_joined() {
    let mut ws = vec![
        Worker { id: 0, thread: Some('a') },
        Worker { id: 1, thread: None },
        Worker { id: 2, thread: Some('c') },
    ];
    let taken = take_threads(&mut ws);
    let joined: Vec<char> = taken.into_iter().filter_map(|(_, h)| h).collect();
    assert_eq!(joined, vec!['a', 'c']);
}

// Runs the queue the way the workers do, one message at a time, until each
// worker has taken one Terminate.
fn drain(queue: &mut VecDeque<Message<Box<dyn FnOnce()>>>, workers: usize) -> usize {
    let mut stopped = 0;
    while let Some(m) = queue.pop_front() {
        match dispatch(m) {
            Step::Run(job) => job(),
            Step::Stop => stopped += 1,
        }
        if stopped == workers {
            break;
        }
    }
    stopped
}

#[test]
fn every_job_before_teardown_runs_once() {
    let counter = std::rc::Rc::new(Cell::new(0u32));
    let mut ws = new_workers(2, |id| id).ok().unwrap();
    let mut queue: VecDeque<Message<Box<dyn FnOnce()>>> = VecDeque::new();
    for _ in 0..5 {
        let c = counter.clone();
        queue.push_back(Message::NewJob(Box::new(move || c.set(c.get() + 1))));
    }
    for m in terminate_messages(&ws) {
        queue.push_back(m);
    }
    assert_eq!(drain(&mut queue, 2), 2);
    assert_eq!(take_threads(&mut ws).len(), 2);
    assert_eq!(counter.get(), 5);
}

#[test]
fn job_finishes_before_its_worker_stops() {
    let seen = std::rc::Rc::new(Cell::new(0u32));
    let ws = new_workers(1, |id| id).ok().unwrap();
    let mut queue: VecDeque<Message<Box<dyn FnOnce()>>> = VecDeque::new();
    let s = seen.clone();
    queue.push_back(Message::NewJob(Box::new(move || s.set(42))));
    for m in terminate_messages(&ws) {
        queue.push_back(m);
    }
    assert_eq!(drain(&mut queue, 1), 1);
    assert_eq!(seen.get(), 42);
}
