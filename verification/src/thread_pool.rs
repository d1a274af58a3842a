//! The queue between the threads that accept connections and the workers
//! that serve them. Tasks leave it in the order in which they entered; a
//! termination signal ends the worker that takes it.

use std::collections::VecDeque;
use vstd::prelude::*;

verus! {

/// What waits in the queue.
#[derive(Debug)]
pub enum Job<T> {
    /// A task for a worker to run.
    Task(T),
    /// The signal that ends the worker that takes it.
    Terminate,
}

/// What a worker that asked for work is to do.
#[derive(Debug)]
pub enum Step<T> {
    /// Run the task, then ask again.
    Run(T),
    /// Nothing waits: sleep until a task is announced, then ask again.
    Wait,
    /// Leave the loop.
    Exit,
}

/// What happens to a queue.
pub enum Event<T> {
    /// A task is handed in.
    Submit(T),
    /// A worker asks for work.
    Take,
    /// The pool is shut down with this many workers.
    Shutdown(nat),
}

/// One termination signal for each of `workers` workers.
pub open spec fn terminations<T>(workers: nat) -> Seq<Job<T>> {
    Seq::new(workers, |i: int| Job::Terminate)
}

/// The queue after `event`.
pub open spec fn after<T>(queue: Seq<Job<T>>, event: Event<T>) -> Seq<Job<T>> {
    match event {
        Event::Submit(task) => queue.push(Job::Task(task)),
        Event::Take => if queue.len() == 0 {
            queue
        } else {
            queue.drop_first()
        },
        Event::Shutdown(workers) => queue + terminations(workers),
    }
}

/// What a worker that asks for work at `queue` is to do.
pub open spec fn told<T>(queue: Seq<Job<T>>) -> Step<T> {
    if queue.len() == 0 {
        Step::Wait
    } else {
        match queue[0] {
            Job::Task(task) => Step::Run(task),
            Job::Terminate => Step::Exit,
        }
    }
}

/// The tasks that wait in `queue`, in their order.
pub open spec fn waiting<T>(queue: Seq<Job<T>>) -> Seq<T>
    decreases queue.len(),
{
    if queue.len() == 0 {
        Seq::empty()
    } else {
        match queue.last() {
            Job::Task(task) => waiting(queue.drop_last()).push(task),
            Job::Terminate => waiting(queue.drop_last()),
        }
    }
}

/// The queue after `events`, one after the other.
pub open spec fn run<T>(queue: Seq<Job<T>>, events: Seq<Event<T>>) -> Seq<Job<T>>
    decreases events.len(),
{
    if events.len() == 0 {
        queue
    } else {
        after(run(queue, events.drop_last()), events.last())
    }
}

/// The tasks handed in by `events`, in their order.
pub open spec fn submitted<T>(events: Seq<Event<T>>) -> Seq<T>
    decreases events.len(),
{
    if events.len() == 0 {
        Seq::empty()
    } else {
        match events.last() {
            Event::Submit(task) => submitted(events.drop_last()).push(task),
            _ => submitted(events.drop_last()),
        }
    }
}

/// The tasks that workers were told to run in the course of `events`, in
/// their order.
pub open spec fn started<T>(queue: Seq<Job<T>>, events: Seq<Event<T>>) -> Seq<T>
    decreases events.len(),
{
    if events.len() == 0 {
        Seq::empty()
    } else {
        let earlier = started(queue, events.drop_last());
        match (events.last(), told(run(queue, events.drop_last()))) {
            (Event::Take, Step::Run(task)) => earlier.push(task),
            _ => earlier,
        }
    }
}

/// The tasks that wait in a queue are its first one, where the queue
/// begins with a task, and those that wait behind it.
pub proof fn lemma_waiting_from_front<T>(queue: Seq<Job<T>>)
    requires
        queue.len() > 0,
    ensures
        waiting(queue) == match queue[0] {
            Job::Task(task) => seq![task] + waiting(queue.drop_first()),
            Job::Terminate => waiting(queue.drop_first()),
        },
    decreases queue.len(),
{
    if queue.len() == 1 {
        assert(queue.drop_last() =~= Seq::<Job<T>>::empty());
        assert(queue.drop_first() =~= Seq::<Job<T>>::empty());
        assert(waiting(queue.drop_last()) =~= Seq::<T>::empty());
        match queue[0] {
            Job::Task(task) => {
                assert(waiting(queue) =~= seq![task] + waiting(queue.drop_first()));
            },
            Job::Terminate => {},
        }
    } else {
        lemma_waiting_from_front(queue.drop_last());
        assert(queue.drop_last().drop_first() =~= queue.drop_first().drop_last());
        assert(queue.drop_first().last() == queue.last());
        assert(queue.drop_last()[0] == queue[0]);
        match (queue[0], queue.last()) {
            (Job::Task(first), Job::Task(last)) => {
                assert((seq![first] + waiting(queue.drop_first().drop_last())).push(last)
                    =~= seq![first] + waiting(queue.drop_first().drop_last()).push(last));
            },
            _ => {},
        }
    }
}

/// Termination signals add no task to those that wait.
pub proof fn lemma_waiting_ignores_terminations<T>(queue: Seq<Job<T>>, workers: nat)
    ensures
        waiting(queue + terminations(workers)) == waiting(queue),
    decreases workers,
{
    if workers == 0 {
        assert(queue + terminations::<T>(0) =~= queue);
    } else {
        let longer = queue + terminations::<T>(workers);
        assert(longer.drop_last() =~= queue + terminations::<T>((workers - 1) as nat));
        assert(longer.last() == Job::<T>::Terminate);
        lemma_waiting_ignores_terminations(queue, (workers - 1) as nat);
    }
}

/// No task is lost and none is run twice: whatever happens to a queue, the
/// tasks that waited in it and those handed in since are, in this order,
/// the tasks that workers were told to run and those that still wait.
pub proof fn lemma_each_task_once<T>(queue: Seq<Job<T>>, events: Seq<Event<T>>)
    ensures
        waiting(queue) + submitted(events) == started(queue, events) + waiting(
            run(queue, events),
        ),
    decreases events.len(),
{
    if events.len() == 0 {
        assert(waiting(queue) + submitted(events) =~= started(queue, events) + waiting(
            run(queue, events),
        ));
    } else {
        let earlier = events.drop_last();
        let before = run(queue, earlier);
        lemma_each_task_once(queue, earlier);
        match events.last() {
            Event::Submit(task) => {
                assert(before.push(Job::Task(task)).drop_last() =~= before);
                assert(waiting(queue) + submitted(earlier).push(task) =~= (waiting(queue)
                    + submitted(earlier)).push(task));
                assert((started(queue, earlier) + waiting(before)).push(task) =~= started(
                    queue,
                    earlier,
                ) + waiting(before).push(task));
            },
            Event::Take => {
                if before.len() > 0 {
                    lemma_waiting_from_front(before);
                    match before[0] {
                        Job::Task(task) => {
                            assert(started(queue, earlier) + (seq![task] + waiting(
                                before.drop_first(),
                            )) =~= started(queue, earlier).push(task) + waiting(
                                before.drop_first(),
                            ));
                        },
                        Job::Terminate => {},
                    }
                }
            },
            Event::Shutdown(workers) => {
                lemma_waiting_ignores_terminations(before, workers);
            },
        }
    }
}

/// Once no task waits any more, the tasks that workers were told to run
/// are the tasks that were handed in, each once and in the order in which
/// they were handed in, however many workers took them.
pub proof fn lemma_all_tasks_run<T>(events: Seq<Event<T>>)
    requires
        waiting(run(Seq::<Job<T>>::empty(), events)).len() == 0,
    ensures
        started(Seq::<Job<T>>::empty(), events) == submitted(events),
        started(Seq::<Job<T>>::empty(), events).len() == submitted(events).len(),
{
    let empty = Seq::<Job<T>>::empty();
    lemma_each_task_once(empty, events);
    assert(waiting(empty) + submitted(events) =~= submitted(events));
    assert(started(empty, events) + waiting(run(empty, events)) =~= started(empty, events));
}

/// The queue of a pool.
pub struct TaskQueue<T> {
    jobs: VecDeque<Job<T>>,
}

impl<T> View for TaskQueue<T> {
    type V = Seq<Job<T>>;

    closed spec fn view(&self) -> Seq<Job<T>> {
        self.jobs@
    }
}

impl<T> TaskQueue<T> {
    /// A queue in which nothing waits.
    pub fn new() -> (queue: Self)
        ensures
            queue@ == Seq::<Job<T>>::empty(),
    {
        TaskQueue { jobs: VecDeque::new() }
    }

    /// How many tasks and signals wait.
    pub fn len(&self) -> (len: usize)
        ensures
            len == self@.len(),
    {
        self.jobs.len()
    }

    /// Puts `task` behind all that waits. The queue has no bound. One
    /// sleeping worker is to be woken afterwards.
    pub fn submit(&mut self, task: T)
        ensures
            final(self)@ == after(old(self)@, Event::Submit(task)),
    {
        self.jobs.push_back(Job::Task(task));
    }

    /// Takes what waits longest and tells the worker what to do: run a
    /// task, leave on a termination signal, or sleep where nothing waits.
    pub fn take(&mut self) -> (step: Step<T>)
        ensures
            step == told(old(self)@),
            final(self)@ == after(old(self)@, Event::<T>::Take),
    {
        match self.jobs.pop_front() {
            Some(Job::Task(task)) => Step::Run(task),
            Some(Job::Terminate) => Step::Exit,
            None => Step::Wait,
        }
    }

    /// Puts one termination signal for each of `workers` workers behind
    /// all that waits, so that each worker leaves once the tasks before
    /// the signals are taken. All sleeping workers are to be woken
    /// afterwards.
    pub fn shutdown(&mut self, workers: usize)
        ensures
            final(self)@ == after(old(self)@, Event::<T>::Shutdown(workers as nat)),
    {
        let mut sent: usize = 0;
        while sent < workers
            invariant
                sent <= workers,
                self@ == old(self)@ + terminations::<T>(sent as nat),
            decreases workers - sent,
        {
            self.jobs.push_back(Job::Terminate);
            sent += 1;
            assert(self@ =~= old(self)@ + terminations::<T>(sent as nat));
        }
    }
}

} // verus!
