use kios_kernel::executor::Executor;
use kios_kernel::keyboard::{KeyboardTask, PollNext, PushOutcome, ScancodeStream};
use kios_kernel::simple_executor::SimpleExecutor;
use kios_kernel::task::{KernelTask, TaskId, TaskIdCounter, TaskProgram, WakeHandle};

#[test]
fn immediate_task_leaves_nothing_behind() {
    // a task that completes on its first poll: after one drain the task
    // map and the waker cache are both empty
    let mut ex = Executor::new();
    let mut stream = ScancodeStream::new();
    let mut out = Vec::new();
    let mut ids = TaskIdCounter::new();
    let id = ids.fresh();
    ex.spawn(KernelTask::new(id, TaskProgram::Immediate));
    assert!(!ex.should_idle());
    ex.run_ready_tasks(&mut stream, &mut out);
    assert_eq!(ex.tasks.len(), 0);
    assert_eq!(ex.waker_cache.len(), 0);
    assert!(ex.should_idle());
}

#[test]
fn woken_task_is_repolled_and_completes() {
    // a task that suspends once, woken as an interrupt handler would,
    // is re-polled on the next drain and reaches completion
    let mut ex = Executor::new();
    let mut stream = ScancodeStream::new();
    let mut out = Vec::new();
    let id = TaskId(7);
    ex.spawn(KernelTask::new(id, TaskProgram::CountDown { remaining: 1 }));
    ex.run_ready_tasks(&mut stream, &mut out);
    // suspended: still registered, its waker cached, nothing ready
    assert_eq!(ex.tasks.len(), 1);
    assert_eq!(ex.waker_cache.len(), 1);
    assert!(ex.should_idle());
    ex.wake(WakeHandle::Task { id: 7 });
    assert!(!ex.should_idle());
    ex.run_ready_tasks(&mut stream, &mut out);
    assert_eq!(ex.tasks.len(), 0);
    assert_eq!(ex.waker_cache.len(), 0);
}

#[test]
fn woken_task_completes_amid_other_tasks() {
    // the countdown task is driven to completion by wake-and-drain
    // rounds while an unrelated suspended task stays exactly where it is
    let mut ex = Executor::new();
    let mut stream = ScancodeStream::new();
    let mut out = Vec::new();
    ex.spawn(KernelTask::new(TaskId(1), TaskProgram::CountDown { remaining: 9 }));
    ex.spawn(KernelTask::new(TaskId(2), TaskProgram::CountDown { remaining: 2 }));
    ex.run_ready_tasks(&mut stream, &mut out);
    assert_eq!(ex.tasks.len(), 2);
    for _ in 0..2 {
        ex.wake(WakeHandle::Task { id: 2 });
        ex.run_ready_tasks(&mut stream, &mut out);
    }
    // the task with identity 2 has completed; the other remains
    assert_eq!(ex.tasks.len(), 1);
    assert_eq!(ex.tasks[0].id, TaskId(1));
    assert_eq!(ex.waker_cache.len(), 1);
}

#[test]
fn duplicate_identity_is_refused() {
    let mut ex = Executor::new();
    let id = TaskId(3);
    assert!(ex.try_spawn(KernelTask::new(id, TaskProgram::Immediate)));
    assert!(!ex.try_spawn(KernelTask::new(id, TaskProgram::Immediate)));
    assert_eq!(ex.tasks.len(), 1);
}

#[test]
fn stale_identity_in_the_queue_is_discarded() {
    let mut ex = Executor::new();
    let mut stream = ScancodeStream::new();
    let mut out = Vec::new();
    ex.wake(WakeHandle::Task { id: 42 });
    ex.run_ready_tasks(&mut stream, &mut out);
    assert_eq!(ex.tasks.len(), 0);
    assert!(ex.should_idle());
}

#[test]
fn noop_wake_wakes_nobody() {
    let mut ex = Executor::new();
    ex.wake(WakeHandle::NoOp);
    assert!(ex.should_idle());
}

#[test]
fn simple_executor_busy_polls_to_completion() {
    let mut ex = SimpleExecutor::new();
    let mut stream = ScancodeStream::new();
    let mut out = Vec::new();
    let mut ids = TaskIdCounter::new();
    ex.spawn(KernelTask::new(ids.fresh(), TaskProgram::Immediate));
    ex.spawn(KernelTask::new(ids.fresh(), TaskProgram::CountDown { remaining: 3 }));
    ex.run(&mut stream, &mut out);
    assert_eq!(ex.tasks.len(), 0);
    // a further step has nothing to do
    assert!(!ex.step(&mut stream, &mut out));
}

#[test]
fn simple_executor_step_drains_the_stream_for_a_keyboard_task() {
    let mut ex = SimpleExecutor::new();
    let mut stream = ScancodeStream::new();
    let mut out = Vec::new();
    ex.spawn(KernelTask::new(
        TaskId(0),
        TaskProgram::Keyboard(KeyboardTask::new()),
    ));
    // "A pressed" waits in the buffer before the task is ever polled
    assert_eq!(stream.add_scancode(0x1E), PushOutcome::Delivered { wake: None });
    assert!(ex.step(&mut stream, &mut out));
    // the one step drained the buffer and decoded the key
    assert_eq!(out, vec![pc_keyboard::DecodedKey::Unicode('a')]);
    assert_eq!(stream.poll_next(WakeHandle::NoOp), PollNext::Pending);
    // unfinished, the task went to the back of the FIFO
    assert_eq!(ex.tasks.len(), 1);
}

#[test]
fn task_identities_are_unique_and_monotonic() {
    let mut ids = TaskIdCounter::new();
    let a = ids.fresh();
    let b = ids.fresh();
    let c = ids.fresh();
    assert_eq!(a, TaskId(0));
    assert_eq!(b, TaskId(1));
    assert_eq!(c, TaskId(2));
    assert_ne!(a, b);
}
