use oyster::thread_pool::Step;
use oyster::thread_pool::TaskQueue;
use std::cell::Cell;
use std::rc::Rc;

fn run_of(step: Step<u32>) -> Option<u32> {
    match step {
        Step::Run(task) => Some(task),
        _ => None,
    }
}

#[test]
fn empty_queue_tells_workers_to_wait() {
    let mut queue: TaskQueue<u32> = TaskQueue::new();
    assert_eq!(queue.len(), 0);
    assert!(matches!(queue.take(), Step::Wait));
    assert_eq!(queue.len(), 0);
}

#[test]
fn tasks_leave_in_the_order_they_entered() {
    let mut queue: TaskQueue<u32> = TaskQueue::new();
    for task in 0..10 {
        queue.submit(task);
    }
    assert_eq!(queue.len(), 10);
    for task in 0..10 {
        assert_eq!(run_of(queue.take()), Some(task));
    }
    assert!(matches!(queue.take(), Step::Wait));
}

#[test]
fn shutdown_ends_each_worker_after_the_waiting_tasks() {
    let mut queue: TaskQueue<u32> = TaskQueue::new();
    queue.submit(1);
    queue.submit(2);
    queue.shutdown(3);
    assert_eq!(queue.len(), 5);
    assert_eq!(run_of(queue.take()), Some(1));
    assert_eq!(run_of(queue.take()), Some(2));
    assert!(matches!(queue.take(), Step::Exit));
    assert!(matches!(queue.take(), Step::Exit));
    assert!(matches!(queue.take(), Step::Exit));
    assert!(matches!(queue.take(), Step::Wait));
    queue.shutdown(0);
    assert_eq!(queue.len(), 0);
}

#[test]
fn pool_of_four_runs_a_hundred_tasks_once_each() {
    let counter = Rc::new(Cell::new(0usize));
    let seen: Rc<Vec<Cell<usize>>> = Rc::new((0..100).map(|_| Cell::new(0)).collect());
    let mut queue: TaskQueue<Box<dyn FnOnce()>> = TaskQueue::new();
    let mut next = [0usize, 34, 67];
    let ends = [34usize, 67, 100];
    let mut running = [true; 4];
    let mut shut_down = false;
    let mut round = 0usize;
    while running.iter().any(|&alive| alive) {
        // Producers hand in at different paces.
        for producer in 0..3 {
            if round % (producer + 1) == 0 && next[producer] < ends[producer] {
                let id = next[producer];
                next[producer] += 1;
                let counter = Rc::clone(&counter);
                let seen = Rc::clone(&seen);
                queue.submit(Box::new(move || {
                    seen[id].set(seen[id].get() + 1);
                    counter.set(counter.get() + 1);
                }));
            }
        }
        if !shut_down && (0..3).all(|producer| next[producer] == ends[producer]) {
            queue.shutdown(4);
            shut_down = true;
        }
        // Each worker that has not left asks once.
        for worker in 0..4 {
            if running[worker] {
                match queue.take() {
                    Step::Run(task) => task(),
                    Step::Wait => {}
                    Step::Exit => running[worker] = false,
                }
            }
        }
        round += 1;
    }
    assert_eq!(counter.get(), 100);
    assert!(seen.iter().all(|times| times.get() == 1));
    assert_eq!(queue.len(), 0);
}

#[test]
fn one_worker_runs_what_many_would() {
    for workers in [1usize, 2, 7] {
        let mut queue: TaskQueue<u32> = TaskQueue::new();
        let mut ran = Vec::new();
        for task in 0..50 {
            queue.submit(task);
        }
        queue.shutdown(workers);
        let mut left = 0;
        while left < workers {
            match queue.take() {
                Step::Run(task) => ran.push(task),
                Step::Exit => left += 1,
                Step::Wait => panic!("a worker was left waiting"),
            }
        }
        assert_eq!(ran, (0..50).collect::<Vec<u32>>());
    }
}
