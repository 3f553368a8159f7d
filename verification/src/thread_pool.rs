//! A pool of workers that share a queue of tasks and each listen on a channel
//! of their own.
//!
//! The pool tells its workers about new tasks and about shutdown by sending
//! the same message down every channel, in order, and stops at the first
//! channel whose worker has gone. A worker's loop alternates waiting for
//! messages, taking tasks from the queue and running them; what it does next
//! is decided by [`next_action`] from what its last step gave.
//!
//! The task type is a parameter: the pool only stores and hands out tasks.
//! The contracts speak through the records of [`crate::mailbox`]: what was
//! handed to each channel's send, which channel each worker listens on, and
//! what the pool appended to the queue.
use vstd::prelude::*;
use std::collections::VecDeque;
use std::sync::{Arc, Mutex};
use crate::mailbox::{dequeue, enqueue, open_channel, send_message, Inbox, Outbox, TaskQueue};

verus! {

/// A message from the pool to its workers.
#[derive(Clone, Copy, Debug, PartialEq, Eq)]
pub enum Communication {
    Shutdown,
    NewTask,
}

/// A message that could not be delivered because the receiving worker has
/// gone; it holds the message.
#[derive(Debug)]
pub struct SendError<T>(pub T);

/// The pool: a handle on the shared task queue and the sending half of one
/// channel to each worker.
#[verifier::reject_recursive_types(T)]
pub struct ThreadPool<T> {
    tasks: TaskQueue<T>,
    channels: Vec<Outbox>,
}

/// What one worker needs: its number, the receiving half of its channel, and
/// a handle on the shared task queue, which only the library's own calls lock.
#[verifier::reject_recursive_types(T)]
pub struct Worker<T> {
    pub index: u32,
    pub inbox: Inbox,
    tasks: TaskQueue<T>,
}

/// What one send's outcome means for a broadcast: a delivered message lets it
/// go on; a message handed back ends it with that message in the error.
fn undelivered(outcome: Result<(), Communication>) -> (r: Result<(), SendError<Communication>>)
    ensures
        outcome is Ok ==> r is Ok,
        outcome matches Err(m) ==> r == Err::<(), SendError<Communication>>(SendError(m)),
{
    match outcome {
        Ok(()) => Ok(()),
        Err(m) => Err(SendError(m)),
    }
}

/// Whether going from pool `before` to pool `after` handed `message` to the
/// sends of channels `0 .. k`, each once, one after the other, and to no other
/// channel, leaving every channel the same channel: every send but the last
/// was accepted, and the last one was accepted exactly when `last_ok`.
pub open spec fn sent_to_first<T>(
    before: ThreadPool<T>,
    after: ThreadPool<T>,
    message: Communication,
    k: int,
    last_ok: bool,
) -> bool {
    &&& after.size() == before.size()
    &&& 0 <= k <= before.size()
    &&& forall|i: int|
        0 <= i < before.size() ==> #[trigger] after.channel_id(i) == before.channel_id(i)
    &&& forall|i: int|
        0 <= i < k ==> #[trigger] after.sent(i) == before.sent(i).push((message, i < k - 1 || last_ok))
    &&& forall|i: int| k <= i < before.size() ==> #[trigger] after.sent(i) == before.sent(i)
}

/// Whether going from `before` to `after` is one broadcast of `message` with
/// result `ok`: the message was handed to the channels in index order; where
/// `ok`, to every channel, and every send was accepted; otherwise every send
/// was accepted up to the one that was refused, and no channel after that one
/// was sent to.
pub open spec fn broadcast_of<T>(
    before: ThreadPool<T>,
    after: ThreadPool<T>,
    message: Communication,
    ok: bool,
) -> bool {
    exists|k: int|
        sent_to_first(before, after, message, k, ok) && (ok ==> k == before.size()) && (!ok
            ==> k >= 1)
}

impl<T> ThreadPool<T> {
    /// The number of workers that the pool talks to.
    pub closed spec fn size(&self) -> nat {
        self.channels@.len()
    }

    /// The id of the channel to worker `i`.
    pub closed spec fn channel_id(&self, i: int) -> nat {
        self.channels@[i].id()
    }

    /// Every message handed to the send of the channel to worker `i`, in
    /// order, each with whether the send was accepted.
    pub closed spec fn sent(&self, i: int) -> Seq<(Communication, bool)> {
        self.channels@[i].log()
    }

    /// The shared task queue.
    pub closed spec fn queue(&self) -> Arc<Mutex<VecDeque<T>>> {
        self.tasks.handle()
    }

    /// What the shared queue held when it was made.
    pub closed spec fn initial_tasks(&self) -> Seq<T> {
        self.tasks.initial()
    }

    /// Every task that the pool appended to the shared queue, in order.
    pub closed spec fn queued(&self) -> Seq<T> {
        self.tasks.pushed()
    }

    /// A pool of `n` workers around a new, empty task queue, and the `n`
    /// workers, numbered `0 .. n`, that are still to be started: worker `i`
    /// holds the receiving half of the channel whose sending half the pool
    /// keeps for it, and every worker shares the pool's queue. Nothing has
    /// been sent or queued yet.
    pub fn new(n: u32) -> (r: (ThreadPool<T>, Vec<Worker<T>>))
        ensures
            r.0.size() == n,
            r.0.initial_tasks() == Seq::<T>::empty(),
            r.0.queued() == Seq::<T>::empty(),
            forall|i: int| 0 <= i < n ==> #[trigger] r.0.sent(i) == Seq::<(Communication, bool)>::empty(),
            forall|i: int| 0 <= i < n ==> #[trigger] r.0.channel_id(i) == i,
            r.1@.len() == n,
            forall|i: int| 0 <= i < n ==> #[trigger] r.1@[i].number() == i,
            forall|i: int| 0 <= i < n ==> #[trigger] r.1@[i].channel_id() == r.0.channel_id(i),
            forall|i: int| 0 <= i < n ==> #[trigger] r.1@[i].queue() == r.0.queue(),
    {
        let mut channels: Vec<Outbox> = Vec::new();
        let mut workers: Vec<Worker<T>> = Vec::new();
        let tasks = TaskQueue::new();
        for i in 0..n
            invariant
                channels@.len() == i,
                workers@.len() == i,
                forall|j: int| 0 <= j < i ==> #[trigger] workers@[j].index == j,
                forall|j: int| 0 <= j < i ==> #[trigger] workers@[j].tasks.handle() == tasks.handle(),
                forall|j: int| 0 <= j < i ==> #[trigger] workers@[j].inbox.id() == j,
                forall|j: int| 0 <= j < i ==> #[trigger] channels@[j].id() == j,
                forall|j: int| 0 <= j < i ==> #[trigger] channels@[j].log() == Seq::<(Communication, bool)>::empty(),
        {
            let ghost prev_workers = workers@;
            let ghost prev_channels = channels@;
            let t = tasks.share();
            let (out, inbox) = open_channel(i);
            channels.push(out);
            workers.push(Worker { index: i, inbox, tasks: t });
            assert forall|j: int| 0 <= j < i + 1 implies #[trigger] workers@[j].inbox.id() == j by {
                if j < i {
                    assert(workers@[j] == prev_workers[j]);
                }
            }
        }
        (ThreadPool { tasks, channels }, workers)
    }

    /// Hands `message` to the send of every worker's channel in turn; stops at
    /// the first worker that has gone and returns the message in the error.
    /// With no workers the result is `Ok`.
    fn broadcast(&mut self, message: Communication) -> (r: Result<(), SendError<Communication>>)
        ensures
            r matches Err(SendError(m)) ==> m == message,
            old(self).size() == 0 ==> r is Ok,
            final(self).queue() == old(self).queue(),
            final(self).initial_tasks() == old(self).initial_tasks(),
            final(self).queued() == old(self).queued(),
            broadcast_of(*old(self), *final(self), message, r is Ok),
    {
        let n = self.channels.len();
        for i in 0..n
            invariant
                n == old(self).channels@.len(),
                self.tasks == old(self).tasks,
                sent_to_first(*old(self), *self, message, i as int, true),
        {
            let ghost before = *self;
            let copy = message.clone();
            assert(copy == message);
            let outcome = send_message(&mut self.channels[i], copy);
            let ghost ok = outcome is Ok;
            proof {
                assert(self.channels@ == before.channels@.update(i as int, self.channels@[i as int]));
                assert(before.sent(i as int) == old(self).sent(i as int));
                assert(self.sent(i as int) == before.sent(i as int).push((message, ok)));
                assert forall|j: int| 0 <= j < i + 1 implies #[trigger] self.sent(j) == old(self).sent(j).push(
                    (message, j < i + 1 - 1 || ok),
                ) by {
                    if j < i {
                        assert(self.sent(j) == before.sent(j));
                        assert(before.sent(j) == old(self).sent(j).push((message, true)));
                    }
                }
                assert forall|j: int| 0 <= j < old(self).size() implies #[trigger] self.channel_id(j) == old(self).channel_id(j) by {
                    assert(self.channel_id(j) == before.channel_id(j));
                }
                assert forall|j: int| i + 1 <= j < old(self).size() implies #[trigger] self.sent(j) == old(self).sent(j) by {
                    assert(self.sent(j) == before.sent(j));
                }
                assert(sent_to_first(*old(self), *self, message, i + 1, ok));
            }
            if let Err(e) = undelivered(outcome) {
                return Err(e);
            }
        }
        assert(sent_to_first(*old(self), *self, message, n as int, true));
        Ok(())
    }

    /// Appends `task` to the shared queue, then tells every worker, in order,
    /// that there is a new task; stops at the first worker that has gone and
    /// returns `NewTask` in the error. The task is queued either way.
    pub fn add_task(&mut self, task: T) -> (r: Result<(), SendError<Communication>>)
        ensures
            r matches Err(SendError(m)) ==> m == Communication::NewTask,
            old(self).size() == 0 ==> r is Ok,
            final(self).queue() == old(self).queue(),
            final(self).initial_tasks() == old(self).initial_tasks(),
            final(self).queued() == old(self).queued().push(task),
            broadcast_of(*old(self), *final(self), Communication::NewTask, r is Ok),
    {
        enqueue(&mut self.tasks, task);
        let ghost queued = *self;
        let r = self.broadcast(Communication::NewTask);
        proof {
            let ok = r is Ok;
            let k = choose|k: int|
                #[trigger] sent_to_first(queued, *self, Communication::NewTask, k, ok) && (ok ==> k
                    == queued.size()) && (!ok ==> k >= 1);
            assert(sent_to_first(*old(self), *self, Communication::NewTask, k, ok));
        }
        r
    }

    /// Tells every worker to stop: `Shutdown` is handed to each channel in
    /// order until one refuses it. The queue is left as it was. With no
    /// workers the result is `Ok`.
    pub fn shutdown(&mut self) -> (r: Result<(), SendError<Communication>>)
        ensures
            r matches Err(SendError(m)) ==> m == Communication::Shutdown,
            old(self).size() == 0 ==> r is Ok,
            final(self).queue() == old(self).queue(),
            final(self).initial_tasks() == old(self).initial_tasks(),
            final(self).queued() == old(self).queued(),
            broadcast_of(*old(self), *final(self), Communication::Shutdown, r is Ok),
    {
        self.broadcast(Communication::Shutdown)
    }
}

impl<T> Worker<T> {
    /// The worker's number: its `index` field.
    pub closed spec fn number(&self) -> u32 {
        self.index
    }

    /// The id of the channel that the worker listens on.
    pub closed spec fn channel_id(&self) -> nat {
        self.inbox.id()
    }

    /// The queue that the worker takes tasks from.
    pub closed spec fn queue(&self) -> Arc<Mutex<VecDeque<T>>> {
        self.tasks.handle()
    }

    /// Takes the first task off the shared queue, or `None` where the queue
    /// is empty.
    pub fn take_task(&self) -> Option<T> {
        dequeue(&self.tasks)
    }
}

// ---------------------------------------------------------------------------
// A worker's decisions
// ---------------------------------------------------------------------------

/// What a worker does next.
#[derive(Debug, PartialEq, Eq)]
pub enum WorkerAction {
    /// Wait a short while for a message.
    Poll,
    /// Take the first task off the shared queue.
    TakeTask,
    /// Run the task just taken.
    RunTask,
    /// Wait, without a time limit, for a message.
    Wait,
    /// Leave the loop.
    Stop,
}

/// What a worker's last step gave.
#[derive(Debug, PartialEq, Eq)]
pub enum WorkerEvent {
    /// The worker has just been started.
    Started,
    /// The short wait ended: with a message, or with none (time ran out, or
    /// the pool has gone).
    Polled(Option<Communication>),
    /// The queue was looked at: whether it held a task.
    Took(bool),
    /// The task has run.
    Ran,
    /// The unlimited wait ended: with a message, or with none (the pool has
    /// gone).
    Received(Option<Communication>),
}

/// The worker's decision table.
pub open spec fn spec_next_action(event: WorkerEvent) -> WorkerAction {
    match event {
        WorkerEvent::Started => WorkerAction::Poll,
        WorkerEvent::Polled(Some(Communication::Shutdown)) => WorkerAction::Stop,
        WorkerEvent::Polled(_) => WorkerAction::TakeTask,
        WorkerEvent::Took(true) => WorkerAction::RunTask,
        WorkerEvent::Took(false) => WorkerAction::Wait,
        WorkerEvent::Ran => WorkerAction::Poll,
        WorkerEvent::Received(Some(Communication::NewTask)) => WorkerAction::Poll,
        WorkerEvent::Received(_) => WorkerAction::Stop,
    }
}

/// What a worker does after `event`: after a short wait it stops on
/// `Shutdown` and otherwise looks for a task; it runs a task when it got one
/// and otherwise waits without limit; after running a task, or on
/// `NewTask` after the unlimited wait, it goes back to the short wait; on
/// `Shutdown` or a vanished pool after the unlimited wait it stops.
pub fn next_action(event: &WorkerEvent) -> (a: WorkerAction)
    ensures
        a == spec_next_action(*event),
{
    match event {
        WorkerEvent::Started => WorkerAction::Poll,
        WorkerEvent::Polled(Some(Communication::Shutdown)) => WorkerAction::Stop,
        WorkerEvent::Polled(_) => WorkerAction::TakeTask,
        WorkerEvent::Took(true) => WorkerAction::RunTask,
        WorkerEvent::Took(false) => WorkerAction::Wait,
        WorkerEvent::Ran => WorkerAction::Poll,
        WorkerEvent::Received(Some(Communication::NewTask)) => WorkerAction::Poll,
        WorkerEvent::Received(_) => WorkerAction::Stop,
    }
}

/// A `Shutdown` message stops a worker, whichever wait it arrives in.
pub proof fn law_shutdown_stops(during_poll: bool)
    ensures
        spec_next_action(
            if during_poll {
                WorkerEvent::Polled(Some(Communication::Shutdown))
            } else {
                WorkerEvent::Received(Some(Communication::Shutdown))
            },
        ) == WorkerAction::Stop,
{
}

/// A worker runs a task exactly when it found one, and waits without limit
/// only when the queue was empty.
pub proof fn law_runs_only_taken_tasks(found: bool)
    ensures
        (spec_next_action(WorkerEvent::Took(found)) == WorkerAction::RunTask) == found,
        (spec_next_action(WorkerEvent::Took(found)) == WorkerAction::Wait) == !found,
{
}

} // verus!
