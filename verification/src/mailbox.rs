//! The pool's handles on std's channels and on the shared task queue.
//!
//! Each handle keeps a ghost record that only the calls of this module extend:
//! an [`Outbox`] records every message handed to its channel's `send` with
//! whether the send was accepted, a [`TaskQueue`] every task that it appended
//! to the queue. The two halves of one channel carry the id that
//! [`open_channel`] was given, so what the pool sends on one outbox can be
//! traced to the inbox of the same channel. The fields are private to this
//! module, so no other code can relabel a half or rewrite a record.
use vstd::prelude::*;
use std::collections::VecDeque;
use std::sync::{Arc, Mutex};
use std::sync::mpsc::{Receiver, Sender};
use crate::thread_pool::Communication;

verus! {

/// std's sending half of a channel.
#[verifier::external_type_specification]
#[verifier::external_body]
#[verifier::reject_recursive_types(T)]
pub struct ExSender<T>(Sender<T>);

/// std's receiving half of a channel.
#[verifier::external_type_specification]
#[verifier::external_body]
#[verifier::reject_recursive_types(T)]
pub struct ExReceiver<T>(Receiver<T>);

/// std's mutual-exclusion lock.
#[verifier::external_type_specification]
#[verifier::external_body]
#[verifier::reject_recursive_types(T)]
pub struct ExMutex<T: ?Sized>(Mutex<T>);

/// The sending half of a channel, with the record of what was handed to it.
pub struct Outbox {
    tx: Sender<Communication>,
    id: Ghost<nat>,
    log: Ghost<Seq<(Communication, bool)>>,
}

/// The receiving half of a channel.
pub struct Inbox {
    rx: Receiver<Communication>,
    id: Ghost<nat>,
}

/// A handle on a task queue shared between threads, with the record of what
/// was appended through this handle.
#[verifier::reject_recursive_types(T)]
pub struct TaskQueue<T> {
    tasks: Arc<Mutex<VecDeque<T>>>,
    initial: Ghost<Seq<T>>,
    pushed: Ghost<Seq<T>>,
}

impl Outbox {
    /// The channel that this half belongs to.
    pub closed spec fn id(&self) -> nat {
        self.id@
    }

    /// Every message handed to `send` on this half, in order, each with
    /// whether the send was accepted (`true`) or refused because the
    /// receiving half had gone (`false`).
    pub closed spec fn log(&self) -> Seq<(Communication, bool)> {
        self.log@
    }
}

impl Inbox {
    /// The channel that this half belongs to.
    pub closed spec fn id(&self) -> nat {
        self.id@
    }

    /// std's receiving half, to wait on.
    pub fn receiver(&self) -> &Receiver<Communication> {
        &self.rx
    }
}

impl<T> TaskQueue<T> {
    /// The shared queue that this handle reaches.
    pub closed spec fn handle(&self) -> Arc<Mutex<VecDeque<T>>> {
        self.tasks
    }

    /// What the queue held when it was made.
    pub closed spec fn initial(&self) -> Seq<T> {
        self.initial@
    }

    /// Every task appended through this handle, in order.
    pub closed spec fn pushed(&self) -> Seq<T> {
        self.pushed@
    }

    /// A new queue: what it holds at first is an empty `VecDeque`, and the
    /// handle has appended nothing.
    pub fn new() -> (q: TaskQueue<T>)
        ensures
            q.initial() == Seq::<T>::empty(),
            q.pushed() == Seq::<T>::empty(),
    {
        let queue: VecDeque<T> = VecDeque::new();
        let initial = Ghost(queue@);
        TaskQueue { tasks: Arc::new(Mutex::new(queue)), initial, pushed: Ghost(Seq::empty()) }
    }

    /// A second handle on the same queue, which has appended nothing yet.
    pub fn share(&self) -> (q: TaskQueue<T>)
        ensures
            q.handle() == self.handle(),
            q.initial() == self.initial(),
            q.pushed() == Seq::<T>::empty(),
    {
        TaskQueue { tasks: self.tasks.clone(), initial: self.initial, pushed: Ghost(Seq::empty()) }
    }
}

// ---------------------------------------------------------------------------
// Trusted calls into std
// ---------------------------------------------------------------------------

/// `std::sync::mpsc::channel`: a new channel, whose two halves come back
/// labelled `id`, and the sending half with an empty record. What is sent on
/// the first half is received on the second; the channel's queue is not
/// modelled.
#[verifier::external_body]
pub(crate) fn open_channel(id: u32) -> (r: (Outbox, Inbox))
    ensures
        r.0.id() == id,
        r.1.id() == id,
        r.0.log() == Seq::<(Communication, bool)>::empty(),
{
    let (tx, rx) = std::sync::mpsc::channel();
    (Outbox { tx, id: Ghost(id as nat), log: Ghost(Seq::empty()) }, Inbox { rx, id: Ghost(id as nat) })
}

/// `Sender::send` of `message`, with std's `SendError(message)` turned into
/// the message: the record of the outbox gains `message` with the send's
/// outcome; it fails only when the receiving half has been dropped, and then
/// hands the message back. Whether it fails depends on the other thread and
/// is not stated.
#[verifier::external_body]
pub(crate) fn send_message(out: &mut Outbox, message: Communication) -> (r: Result<(), Communication>)
    ensures
        final(out).id() == old(out).id(),
        final(out).log() == old(out).log().push((message, r is Ok)),
        r matches Err(m) ==> m == message,
{
    out.tx.send(message).map_err(|e| e.0)
}

/// `Mutex::new`: a lock around `t`; the content is not stated, since other
/// threads change it.
pub assume_specification<T>[ Mutex::<T>::new ](t: T) -> Mutex<T>;

/// `Mutex::lock`, then `VecDeque::push_back` on the guarded queue: appends
/// `task`, and the handle's record gains it. A lock poisoned by a thread that
/// panicked while holding it is taken all the same (`PoisonError::into_inner`):
/// the queue's only users, `push_back` and `pop_front`, leave it whole.
/// The guard lives only inside this call; no other code runs while it is
/// held. What the queue holds besides is shared with the workers and is not
/// stated.
#[verifier::external_body]
pub(crate) fn enqueue<T>(q: &mut TaskQueue<T>, task: T)
    ensures
        final(q).handle() == old(q).handle(),
        final(q).initial() == old(q).initial(),
        final(q).pushed() == old(q).pushed().push(task),
{
    match q.tasks.lock() {
        Ok(mut queue) => queue.push_back(task),
        Err(poisoned) => poisoned.into_inner().push_back(task),
    }
}

/// `Mutex::lock`, then `VecDeque::pop_front` on the guarded queue: the first
/// task of the queue, taken off it, or `None` when the queue is empty (a
/// poisoned lock is taken as in [`enqueue`]). What comes back depends on the
/// other threads and is not stated.
#[verifier::external_body]
pub(crate) fn dequeue<T>(q: &TaskQueue<T>) -> Option<T> {
    match q.tasks.lock() {
        Ok(mut queue) => queue.pop_front(),
        Err(poisoned) => poisoned.into_inner().pop_front(),
    }
}

} // verus!
