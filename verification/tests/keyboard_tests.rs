use kios_kernel::executor::Executor;
use kios_kernel::keyboard::{KeyboardTask, PollNext, PushOutcome, ScancodeStream};
use kios_kernel::task::{KernelTask, TaskId, TaskProgram, WakeHandle};
use pc_keyboard::DecodedKey;

#[test]
fn push_before_registration_is_still_observed() {
    // no consumer has registered a waker, so there is nobody to wake;
    // the byte is buffered all the same and the next pull returns it
    let mut s = ScancodeStream::new();
    assert_eq!(s.add_scancode(0x1E), PushOutcome::Delivered { wake: None });
    assert_eq!(s.poll_next(WakeHandle::NoOp), PollNext::Ready(0x1E));
}

#[test]
fn push_after_registration_hands_back_the_waker() {
    // the consumer finds the buffer empty and registers; the producer's
    // next push returns exactly that waker, so the consumer is re-polled
    // and receives the byte: the double-check protocol misses nothing
    let mut s = ScancodeStream::new();
    let w = WakeHandle::Task { id: 9 };
    assert_eq!(s.poll_next(w), PollNext::Pending);
    assert_eq!(s.add_scancode(0x30), PushOutcome::Delivered { wake: Some(w) });
    assert_eq!(s.poll_next(w), PollNext::Ready(0x30));
}

#[test]
fn overflow_drops_the_byte_and_keeps_the_rest() {
    let mut s = ScancodeStream::new();
    for i in 0..128u32 {
        assert_eq!(
            s.add_scancode((i % 200) as u8),
            PushOutcome::Delivered { wake: None }
        );
    }
    assert_eq!(s.add_scancode(0xFF), PushOutcome::Dropped);
    // the buffered bytes are unharmed and come out in order
    assert_eq!(s.poll_next(WakeHandle::NoOp), PollNext::Ready(0));
    assert_eq!(s.poll_next(WakeHandle::NoOp), PollNext::Ready(1));
}

#[test]
fn scancodes_are_decoded_into_key_events() {
    // scancode set 1: 0x1E is "A pressed", 0x9E is "A released"
    let mut ex = Executor::new();
    let mut stream = ScancodeStream::new();
    let mut out: Vec<DecodedKey> = Vec::new();
    let id = TaskId(1);
    ex.spawn(KernelTask::new(
        id,
        TaskProgram::Keyboard(KeyboardTask::new()),
    ));
    assert_eq!(stream.add_scancode(0x1E), PushOutcome::Delivered { wake: None });
    assert_eq!(stream.add_scancode(0x9E), PushOutcome::Delivered { wake: None });
    ex.run_ready_tasks(&mut stream, &mut out);
    assert_eq!(out, vec![DecodedKey::Unicode('a')]);
    // the task is suspended, not completed, with its waker registered
    assert_eq!(ex.tasks.len(), 1);
    assert_eq!(ex.waker_cache.len(), 1);

    // an interrupt delivers another key and wakes the task through the
    // handle the stream handed back
    match stream.add_scancode(0x30) {
        PushOutcome::Delivered { wake: Some(handle) } => {
            assert_eq!(handle, WakeHandle::Task { id: 1 });
            ex.wake(handle);
        }
        other => panic!("expected a waker to come back, got {:?}", other),
    }
    ex.run_ready_tasks(&mut stream, &mut out);
    assert_eq!(
        out,
        vec![DecodedKey::Unicode('a'), DecodedKey::Unicode('b')]
    );
}
