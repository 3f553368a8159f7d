use http_server::thread_pool::{
    next_action, Communication, SendError, ThreadPool, WorkerAction, WorkerEvent,
};

#[test]
fn new_pool_has_numbered_workers() {
    let (_pool, workers) = ThreadPool::<u32>::new(3);
    assert_eq!(workers.len(), 3);
    for (i, w) in workers.iter().enumerate() {
        assert_eq!(w.index as usize, i);
    }
}

#[test]
fn shutdown_reaches_every_worker() {
    let (mut pool, workers) = ThreadPool::<u32>::new(2);
    assert!(pool.shutdown().is_ok());
    for w in &workers {
        assert_eq!(w.inbox.receiver().try_recv(), Ok(Communication::Shutdown));
        assert!(w.inbox.receiver().try_recv().is_err());
    }
}

#[test]
fn add_task_queues_task_and_announces_it() {
    let (mut pool, workers) = ThreadPool::<u32>::new(2);
    assert!(pool.add_task(7).is_ok());
    assert!(pool.add_task(8).is_ok());
    for w in &workers {
        assert_eq!(w.inbox.receiver().try_recv(), Ok(Communication::NewTask));
        assert_eq!(w.inbox.receiver().try_recv(), Ok(Communication::NewTask));
    }
    assert_eq!(workers[1].take_task(), Some(7));
    assert_eq!(workers[0].take_task(), Some(8));
    assert_eq!(workers[0].take_task(), None);
    assert_eq!(workers[1].take_task(), None);
}

#[test]
fn broadcast_stops_at_gone_worker() {
    let (mut pool, mut workers) = ThreadPool::<u32>::new(3);
    // Worker 1 goes away; worker 0 still gets the message, worker 2 does not.
    let w2 = workers.pop().unwrap();
    let w1 = workers.pop().unwrap();
    drop(w1);
    match pool.shutdown() {
        Err(SendError(m)) => assert_eq!(m, Communication::Shutdown),
        Ok(()) => panic!("a gone worker must make the broadcast fail"),
    }
    assert_eq!(workers[0].inbox.receiver().try_recv(), Ok(Communication::Shutdown));
    assert!(w2.inbox.receiver().try_recv().is_err());
}

#[test]
fn add_task_error_carries_new_task() {
    let (mut pool, workers) = ThreadPool::<u32>::new(1);
    drop(workers);
    match pool.add_task(1) {
        Err(SendError(m)) => assert_eq!(m, Communication::NewTask),
        Ok(()) => panic!("no worker is left to tell"),
    }
}

#[test]
fn empty_pool_broadcasts_trivially() {
    let (mut pool, workers) = ThreadPool::<u32>::new(0);
    assert!(workers.is_empty());
    assert!(pool.shutdown().is_ok());
    assert!(pool.add_task(3).is_ok());
}

#[test]
fn worker_decisions() {
    assert_eq!(next_action(&WorkerEvent::Started), WorkerAction::Poll);
    assert_eq!(next_action(&WorkerEvent::Polled(Some(Communication::Shutdown))), WorkerAction::Stop);
    assert_eq!(next_action(&WorkerEvent::Polled(Some(Communication::NewTask))), WorkerAction::TakeTask);
    assert_eq!(next_action(&WorkerEvent::Polled(None)), WorkerAction::TakeTask);
    assert_eq!(next_action(&WorkerEvent::Took(true)), WorkerAction::RunTask);
    assert_eq!(next_action(&WorkerEvent::Took(false)), WorkerAction::Wait);
    assert_eq!(next_action(&WorkerEvent::Ran), WorkerAction::Poll);
    assert_eq!(next_action(&WorkerEvent::Received(Some(Communication::NewTask))), WorkerAction::Poll);
    assert_eq!(next_action(&WorkerEvent::Received(Some(Communication::Shutdown))), WorkerAction::Stop);
    assert_eq!(next_action(&WorkerEvent::Received(None)), WorkerAction::Stop);
}

#[test]
fn take_task_from_empty_queue() {
    let (_pool, workers) = ThreadPool::<u32>::new(1);
    assert_eq!(workers[0].take_task(), None);
}

#[test]
fn add_task_queues_even_when_a_worker_has_gone() {
    let (mut pool, mut workers) = ThreadPool::<u32>::new(2);
    let w1 = workers.pop().unwrap();
    drop(workers);
    match pool.add_task(42) {
        Err(SendError(m)) => assert_eq!(m, Communication::NewTask),
        Ok(()) => panic!("worker 0 has gone"),
    }
    // Worker 1 comes after the gone worker: nothing was sent to it, but the
    // task is in the queue.
    assert!(w1.inbox.receiver().try_recv().is_err());
    assert_eq!(w1.take_task(), Some(42));
}

#[test]
fn each_worker_gets_one_copy_per_broadcast() {
    let (mut pool, workers) = ThreadPool::<u32>::new(3);
    assert!(pool.add_task(1).is_ok());
    assert!(pool.shutdown().is_ok());
    for w in &workers {
        assert_eq!(w.inbox.receiver().try_recv(), Ok(Communication::NewTask));
        assert_eq!(w.inbox.receiver().try_recv(), Ok(Communication::Shutdown));
        assert!(w.inbox.receiver().try_recv().is_err());
    }
}
