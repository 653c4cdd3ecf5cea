//! Bookkeeping of a cooperative task executor.
//!
//! The executor owns its tasks, keyed by id, a shared queue of ids that are
//! ready to run, and a cache of one waker per task.  Polling a task's future is
//! the caller's work: [`Executor::pop_ready`] hands out the next runnable task
//! with its waker, and [`Executor::finish_poll`] takes it back together with
//! what the poll did, and decides whether the task stays.
use std::collections::BTreeMap;
use std::sync::Arc;

use crossbeam_queue::ArrayQueue;
use vstd::prelude::*;

verus! {

broadcast use vstd::std_specs::btree::group_btree_axioms;

#[verifier::external_type_specification]
#[verifier::external_body]
#[verifier::reject_recursive_types(T)]
pub struct ExArrayQueue<T>(ArrayQueue<T>);

/// The number of slots a queue was made with; it never changes.
pub uninterp spec fn queue_capacity(q: ArrayQueue<u64>) -> nat;

/// `crossbeam_queue::ArrayQueue::new`: a bounded queue with `cap` slots.  It
/// panics on a zero capacity or one whose lap does not fit a word, so both are
/// excluded.  Nothing is stated of the new queue's contents: the queue is shared
/// between handles and threads through `&self` methods, so no model of them is
/// kept.
#[verifier::external_body]
fn queue_new(cap: usize) -> (q: ArrayQueue<u64>)
    requires
        0 < cap <= 0x4000_0000,
    ensures
        queue_capacity(q) == cap,
{
    ArrayQueue::new(cap)
}

/// `crossbeam_queue::ArrayQueue::push`: when the queue is full the value comes
/// back as the error.  Whether it is full depends on what other handles pushed
/// and popped, so only that the error carries the pushed id is stated.
#[verifier::external_body]
fn queue_push(q: &ArrayQueue<u64>, id: u64) -> (r: Result<(), u64>)
    ensures
        r matches Err(v) ==> v == id,
{
    q.push(id)
}

/// `crossbeam_queue::ArrayQueue::pop`: the oldest id in the queue, if any.  The
/// contents are shared with other handles, so nothing is stated of the result.
#[verifier::external_body]
fn queue_pop(q: &ArrayQueue<u64>) -> Option<u64> {
    q.pop()
}

/// `Arc::clone`: another handle on the same allocation, so the clone and the
/// original designate the same queue.
#[verifier::external_body]
fn share_queue(q: &Arc<ArrayQueue<u64>>) -> (r: Arc<ArrayQueue<u64>>)
    ensures
        r == *q,
{
    Arc::clone(q)
}

/// A spawned unit of work: its id, whether it was marked dead, and its future.
pub struct Task<F> {
    pub id: u64,
    pub dead: bool,
    pub future: F,
}

impl<F> Task<F> {
    pub fn new(id: u64, future: F) -> (r: Task<F>)
        ensures
            r.id == id,
            !r.dead,
            r.future == future,
    {
        Task { id, dead: false, future }
    }
}

/// What polling a task's future did.
pub enum PollOutcome {
    /// The future completed.
    Ready,
    /// The future is not done yet.
    Pending,
    /// The poll panicked; `drain_panicked` tells whether running the rest of the
    /// ready tasks after it panicked as well.
    Panicked { drain_panicked: bool },
}

/// What the caller does after handing a polled task back.
#[derive(PartialEq, Eq, Debug, Clone, Copy)]
pub enum PollAction {
    /// Go on with the next ready task.
    Continue,
    /// Propagate the panic of the poll.
    ResumePanic,
}

/// Why a spawned task could not be queued.
#[derive(PartialEq, Eq, Debug, Clone, Copy)]
pub enum SpawnError {
    /// The ready queue was full; the task was registered but its id, carried
    /// here, was not queued.
    QueueFull(u64),
}

/// The result of taking one id off the ready queue.
pub enum Dequeued<F, W> {
    /// The ready queue was empty.
    Idle,
    /// The id belongs to no task (it finished earlier); nothing changed.
    Stale(u64),
    /// The task to poll now, taken out of the executor, with its waker.
    Runnable(Task<F>, W),
}

/// Every task is stored under its own id.
pub open spec fn keyed_by_id<F>(tasks: Map<u64, Task<F>>) -> bool {
    forall|k: u64| #[trigger] tasks.contains_key(k) ==> tasks[k].id == k
}

/// Whether a task handed back with `outcome` stays in the executor.
pub open spec fn keeps_task<F>(task: Task<F>, outcome: PollOutcome) -> bool {
    match outcome {
        PollOutcome::Ready => false,
        PollOutcome::Pending => !task.dead,
        PollOutcome::Panicked { drain_panicked } => !drain_panicked,
    }
}

/// The action that follows a poll with `outcome`.
pub open spec fn action_for(outcome: PollOutcome) -> PollAction {
    match outcome {
        PollOutcome::Panicked { drain_panicked } => if drain_panicked {
            PollAction::Continue
        } else {
            PollAction::ResumePanic
        },
        _ => PollAction::Continue,
    }
}

/// A cooperative executor over tasks with futures of type `F` and wakers of
/// type `W`.
pub struct Executor<F, W> {
    tasks: BTreeMap<u64, Task<F>>,
    task_queue: Arc<ArrayQueue<u64>>,
    waker_cache: BTreeMap<u64, W>,
}

impl<F, W> Executor<F, W> {
    /// The registered tasks, by id.
    pub closed spec fn tasks(&self) -> Map<u64, Task<F>> {
        self.tasks@
    }

    /// The ready queue this executor takes ids from.
    pub closed spec fn queue(&self) -> Arc<ArrayQueue<u64>> {
        self.task_queue
    }

    /// The cached wakers, by task id.
    pub closed spec fn wakers(&self) -> Map<u64, W> {
        self.waker_cache@
    }

    /// Tasks are keyed by their ids, and only registered tasks have a cached
    /// waker.
    pub open spec fn wf(&self) -> bool {
        &&& keyed_by_id(self.tasks())
        &&& self.wakers().dom().subset_of(self.tasks().dom())
    }

    /// An executor with no task and a ready queue of 100 slots.
    pub fn new() -> (r: Self)
        ensures
            r.wf(),
            r.tasks() == Map::<u64, Task<F>>::empty(),
            r.wakers() == Map::<u64, W>::empty(),
            queue_capacity(*r.queue()) == 100,
    {
        Executor {
            tasks: BTreeMap::new(),
            task_queue: Arc::new(queue_new(100)),
            waker_cache: BTreeMap::new(),
        }
    }

    /// Whether a task with this id is registered.
    pub fn contains_task(&self, id: u64) -> (r: bool)
        ensures
            r == self.tasks().contains_key(id),
    {
        self.tasks.contains_key(&id)
    }

    /// A handle on the ready queue, for wakers that requeue their task.
    pub fn task_queue(&self) -> (r: Arc<ArrayQueue<u64>>)
        ensures
            r == self.queue(),
    {
        share_queue(&self.task_queue)
    }

    /// Registers `task` and queues its id.  An id that is already registered is
    /// refused by the precondition.  When the queue is full the task stays
    /// registered and `QueueFull` carries back the id that could not be queued.
    /// Whether the queue has room is up to the other handles on it.
    pub fn spawn(&mut self, task: Task<F>) -> (r: Result<(), SpawnError>)
        requires
            old(self).wf(),
            !old(self).tasks().contains_key(task.id),
        ensures
            final(self).wf(),
            final(self).tasks() == old(self).tasks().insert(task.id, task),
            final(self).wakers() == old(self).wakers(),
            final(self).queue() == old(self).queue(),
            r matches Err(SpawnError::QueueFull(v)) ==> v == task.id,
    {
        let task_id = task.id;
        self.tasks.insert(task_id, task);
        match queue_push(&self.task_queue, task_id) {
            Ok(()) => Ok(()),
            Err(v) => Err(SpawnError::QueueFull(v)),
        }
    }

    /// Acts on an id taken off the ready queue, `None` when the queue was
    /// empty.  A registered task is taken out of the executor together with
    /// its cached waker, or a fresh one from `make_waker` when none is cached.
    pub fn take_ready<M: Fn(u64) -> W>(&mut self, popped: Option<u64>, make_waker: &M) -> (r:
        Dequeued<F, W>)
        requires
            old(self).wf(),
            forall|id: u64| make_waker.requires((id,)),
        ensures
            final(self).wf(),
            final(self).queue() == old(self).queue(),
            match popped {
                None => r is Idle,
                Some(id) => if old(self).tasks().contains_key(id) {
                    r matches Dequeued::Runnable(task, _) && task == old(self).tasks()[id]
                } else {
                    r == Dequeued::<F, W>::Stale(id)
                },
            },
            match r {
                Dequeued::Idle => {
                    &&& final(self).tasks() == old(self).tasks()
                    &&& final(self).wakers() == old(self).wakers()
                },
                Dequeued::Stale(id) => {
                    &&& !old(self).tasks().contains_key(id)
                    &&& final(self).tasks() == old(self).tasks()
                    &&& final(self).wakers() == old(self).wakers()
                },
                Dequeued::Runnable(task, waker) => {
                    &&& old(self).tasks().contains_key(task.id)
                    &&& old(self).tasks()[task.id] == task
                    &&& final(self).tasks() == old(self).tasks().remove(task.id)
                    &&& final(self).wakers() == old(self).wakers().remove(task.id)
                    &&& if old(self).wakers().contains_key(task.id) {
                        waker == old(self).wakers()[task.id]
                    } else {
                        make_waker.ensures((task.id,), waker)
                    }
                },
            },
    {
        match popped {
            None => Dequeued::Idle,
            Some(id) => {
                match self.tasks.remove(&id) {
                    None => Dequeued::Stale(id),
                    Some(task) => {
                        let waker = match self.waker_cache.remove(&id) {
                            Some(w) => w,
                            None => make_waker(id),
                        };
                        Dequeued::Runnable(task, waker)
                    },
                }
            },
        }
    }

    /// Takes the next id off the ready queue and acts on it as
    /// [`Executor::take_ready`] does.  Which id comes off is up to the shared
    /// queue.
    pub fn pop_ready<M: Fn(u64) -> W>(&mut self, make_waker: &M) -> (r: Dequeued<F, W>)
        requires
            old(self).wf(),
            forall|id: u64| make_waker.requires((id,)),
        ensures
            final(self).wf(),
            final(self).queue() == old(self).queue(),
            match r {
                Dequeued::Idle => {
                    &&& final(self).tasks() == old(self).tasks()
                    &&& final(self).wakers() == old(self).wakers()
                },
                Dequeued::Stale(id) => {
                    &&& !old(self).tasks().contains_key(id)
                    &&& final(self).tasks() == old(self).tasks()
                    &&& final(self).wakers() == old(self).wakers()
                },
                Dequeued::Runnable(task, waker) => {
                    &&& old(self).tasks().contains_key(task.id)
                    &&& old(self).tasks()[task.id] == task
                    &&& final(self).tasks() == old(self).tasks().remove(task.id)
                    &&& final(self).wakers() == old(self).wakers().remove(task.id)
                    &&& if old(self).wakers().contains_key(task.id) {
                        waker == old(self).wakers()[task.id]
                    } else {
                        make_waker.ensures((task.id,), waker)
                    }
                },
            },
    {
        let popped = queue_pop(&self.task_queue);
        self.take_ready(popped, make_waker)
    }

    /// Takes back a task handed out by [`Executor::pop_ready`] after it was
    /// polled.  A completed task, a pending task marked dead, and a panicked
    /// task whose following drain panicked too are dropped with their waker;
    /// any other task is registered again with its waker.  A panic whose drain
    /// finished is to be propagated.
    pub fn finish_poll(&mut self, task: Task<F>, waker: W, outcome: PollOutcome) -> (r: PollAction)
        requires
            old(self).wf(),
            !old(self).tasks().contains_key(task.id),
        ensures
            final(self).wf(),
            final(self).queue() == old(self).queue(),
            r == action_for(outcome),
            keeps_task(task, outcome) ==> {
                &&& final(self).tasks() == old(self).tasks().insert(task.id, task)
                &&& final(self).wakers() == old(self).wakers().insert(task.id, waker)
            },
            !keeps_task(task, outcome) ==> {
                &&& final(self).tasks() == old(self).tasks()
                &&& final(self).wakers() == old(self).wakers()
            },
    {
        let (keep, action) = match outcome {
            PollOutcome::Ready => (false, PollAction::Continue),
            PollOutcome::Pending => (!task.dead, PollAction::Continue),
            PollOutcome::Panicked { drain_panicked } => if drain_panicked {
                (false, PollAction::Continue)
            } else {
                (true, PollAction::ResumePanic)
            },
        };
        if keep {
            let id = task.id;
            self.tasks.insert(id, task);
            self.waker_cache.insert(id, waker);
        }
        action
    }
}

} // verus!

verus! {

/// A live task that was taken out to be polled and is handed back pending
/// returns to the registry exactly as it was, and the waker it ran with is the
/// one cached for it afterwards.
pub proof fn lemma_pending_round_trip<F, W>(
    tasks: Map<u64, Task<F>>,
    wakers: Map<u64, W>,
    id: u64,
    waker: W,
)
    requires
        tasks.contains_key(id),
        !tasks[id].dead,
    ensures
        keeps_task(tasks[id], PollOutcome::Pending),
        action_for(PollOutcome::Pending) == PollAction::Continue,
        tasks.remove(id).insert(id, tasks[id]) == tasks,
        wakers.remove(id).insert(id, waker)[id] == waker,
        wakers.remove(id).insert(id, waker).dom() == wakers.dom().insert(id),
{
    assert(tasks.remove(id).insert(id, tasks[id]) =~= tasks);
    assert(wakers.remove(id).insert(id, waker).dom() =~= wakers.dom().insert(id));
}

/// A task that completed, or that is dead when it comes back pending, is gone
/// for good: neither it nor a waker for it remains, whatever it was before.
pub proof fn lemma_finished_task_forgotten<F, W>(
    tasks: Map<u64, Task<F>>,
    wakers: Map<u64, W>,
    task: Task<F>,
    outcome: PollOutcome,
)
    requires
        outcome == PollOutcome::Ready || (outcome == PollOutcome::Pending && task.dead),
    ensures
        !keeps_task(task, outcome),
        action_for(outcome) == PollAction::Continue,
        !tasks.remove(task.id).contains_key(task.id),
        !wakers.remove(task.id).contains_key(task.id),
{
}

/// A panic during a poll is propagated exactly when the drain that follows it
/// finished, and the panicking task then stays registered.
pub proof fn lemma_panic_propagation<F>(task: Task<F>, drain_panicked: bool)
    ensures
        (action_for(PollOutcome::Panicked { drain_panicked }) == PollAction::ResumePanic)
            == !drain_panicked,
        keeps_task(task, PollOutcome::Panicked { drain_panicked }) == !drain_panicked,
{
}

} // verus!

verus! {

/// What draining the ready queue does to the tasks for one id taken off it: a
/// registered task is polled and handed back as `polled` with `outcome`; it
/// stays, as handed back, when [`keeps_task`] says so, and is dropped
/// otherwise.  An id of no registered task is skipped.
pub open spec fn drain_step<F>(tasks: Map<u64, Task<F>>, id: u64, polled: Task<F>, outcome: PollOutcome) -> Map<
    u64,
    Task<F>,
> {
    if !tasks.contains_key(id) {
        tasks
    } else if keeps_task(polled, outcome) {
        tasks.insert(id, polled)
    } else {
        tasks.remove(id)
    }
}

/// The tasks after draining the ids `ids` in queue order, where the poll of
/// the task of `ids[i]` hands back `results[i]`.
pub open spec fn drain<F>(tasks: Map<u64, Task<F>>, ids: Seq<u64>, results: Seq<(Task<F>, PollOutcome)>) -> Map<
    u64,
    Task<F>,
>
    decreases ids.len(),
{
    if ids.len() == 0 || results.len() == 0 {
        tasks
    } else {
        drain(
            drain_step(tasks, ids[0], results[0].0, results[0].1),
            ids.drop_first(),
            results.drop_first(),
        )
    }
}

/// The ids whose tasks a drain polls, in order: those registered when they
/// are taken off the queue.
pub open spec fn drain_polls<F>(
    tasks: Map<u64, Task<F>>,
    ids: Seq<u64>,
    results: Seq<(Task<F>, PollOutcome)>,
) -> Seq<u64>
    decreases ids.len(),
{
    if ids.len() == 0 || results.len() == 0 {
        Seq::empty()
    } else {
        let rest = drain_polls(
            drain_step(tasks, ids[0], results[0].0, results[0].1),
            ids.drop_first(),
            results.drop_first(),
        );
        if tasks.contains_key(ids[0]) {
            seq![ids[0]] + rest
        } else {
            rest
        }
    }
}

/// Taking a registered task off with [`Executor::take_ready`] and handing it
/// back with [`Executor::finish_poll`] is one [`drain_step`]; an id of no task
/// is one too.
pub proof fn lemma_take_and_finish_is_drain_step<F>(
    tasks: Map<u64, Task<F>>,
    id: u64,
    polled: Task<F>,
    outcome: PollOutcome,
)
    requires
        polled.id == id,
    ensures
        !tasks.contains_key(id) ==> drain_step(tasks, id, polled, outcome) == tasks,
        tasks.contains_key(id) && keeps_task(polled, outcome) ==> drain_step(
            tasks,
            id,
            polled,
            outcome,
        ) == tasks.remove(id).insert(polled.id, polled),
        tasks.contains_key(id) && !keeps_task(polled, outcome) ==> drain_step(
            tasks,
            id,
            polled,
            outcome,
        ) == tasks.remove(id),
{
    assert(tasks.remove(id).insert(id, polled) =~= tasks.insert(id, polled));
}

/// A drain of the ids `ids`, whose polls hand back tasks with their own ids,
/// only ever removes tasks: every task left was there before; a task whose id
/// is not taken off the queue is neither polled nor changed; every polled id
/// was taken off the queue, and there are no more polls than ids taken off.
pub proof fn lemma_drain_keeps_others<F>(
    tasks: Map<u64, Task<F>>,
    ids: Seq<u64>,
    results: Seq<(Task<F>, PollOutcome)>,
)
    requires
        results.len() == ids.len(),
        forall|i: int| 0 <= i < ids.len() ==> (#[trigger] results[i]).0.id == ids[i],
    ensures
        drain(tasks, ids, results).dom().subset_of(tasks.dom()),
        forall|k: u64|
            !ids.contains(k) ==> (#[trigger] drain(tasks, ids, results).contains_key(k)
                == tasks.contains_key(k) && (tasks.contains_key(k) ==> drain(tasks, ids, results)[k]
                == tasks[k])),
        forall|p: int|
            0 <= p < drain_polls(tasks, ids, results).len() ==> ids.contains(
                #[trigger] drain_polls(tasks, ids, results)[p],
            ),
        drain_polls(tasks, ids, results).len() <= ids.len(),
    decreases ids.len(),
{
    if ids.len() > 0 {
        let next = drain_step(tasks, ids[0], results[0].0, results[0].1);
        let rest_ids = ids.drop_first();
        let rest_results = results.drop_first();
        assert forall|i: int| 0 <= i < rest_ids.len() implies (#[trigger] rest_results[i]).0.id
            == rest_ids[i] by {
            assert(rest_results[i] == results[i + 1]);
        }
        lemma_drain_keeps_others(next, rest_ids, rest_results);
        assert(next.dom().subset_of(tasks.dom()));
        assert forall|k: u64| !ids.contains(k) implies (#[trigger] drain(
            tasks,
            ids,
            results,
        ).contains_key(k) == tasks.contains_key(k) && (tasks.contains_key(k) ==> drain(
            tasks,
            ids,
            results,
        )[k] == tasks[k])) by {
            assert(k != ids[0]);
            if rest_ids.contains(k) {
                let i = choose|i: int| 0 <= i < rest_ids.len() && rest_ids[i] == k;
                assert(ids[i + 1] == k);
            }
        }
        let polls = drain_polls(tasks, ids, results);
        let rest_polls = drain_polls(next, rest_ids, rest_results);
        assert forall|p: int| 0 <= p < polls.len() implies ids.contains(#[trigger] polls[p]) by {
            if tasks.contains_key(ids[0]) {
                if p == 0 {
                    assert(polls[0] == ids[0]);
                } else {
                    assert(polls[p] == rest_polls[p - 1]);
                    let i = choose|i: int| 0 <= i < rest_ids.len() && rest_ids[i] == rest_polls[p - 1];
                    assert(ids[i + 1] == polls[p]);
                }
            } else {
                let i = choose|i: int| 0 <= i < rest_ids.len() && rest_ids[i] == polls[p];
                assert(ids[i + 1] == polls[p]);
            }
        }
    }
}

/// When every queued id is distinct and names a registered task, the drain
/// polls each of them exactly once, in queue order.
pub proof fn lemma_drain_polls_each_once<F>(
    tasks: Map<u64, Task<F>>,
    ids: Seq<u64>,
    results: Seq<(Task<F>, PollOutcome)>,
)
    requires
        results.len() == ids.len(),
        ids.no_duplicates(),
        forall|i: int| 0 <= i < ids.len() ==> tasks.contains_key(#[trigger] ids[i]),
    ensures
        drain_polls(tasks, ids, results) == ids,
    decreases ids.len(),
{
    if ids.len() > 0 {
        let next = drain_step(tasks, ids[0], results[0].0, results[0].1);
        let rest_ids = ids.drop_first();
        assert forall|i: int| 0 <= i < rest_ids.len() implies next.contains_key(
            #[trigger] rest_ids[i],
        ) by {
            assert(rest_ids[i] == ids[i + 1]);
            assert(ids[i + 1] != ids[0]);
        }
        assert(rest_ids.no_duplicates()) by {
            assert forall|a: int, b: int|
                0 <= a < rest_ids.len() && 0 <= b < rest_ids.len() && a != b implies rest_ids[a]
                != rest_ids[b] by {
                assert(rest_ids[a] == ids[a + 1] && rest_ids[b] == ids[b + 1]);
            }
        }
        lemma_drain_polls_each_once(next, rest_ids, results.drop_first());
        assert(seq![ids[0]] + rest_ids =~= ids);
    }
}

} // verus!
