//! Kernel tasks: the unit of asynchronous work, its identity, and the
//! waker capability.
//!
//! A task's computation is an explicit state machine stepped by `poll`:
//! either it finishes (`Ready`) or it suspends (`Pending`) after arranging
//! — through the waker handle it was polled with — to be marked ready
//! again.  A waker is nothing but the owning task's identity; whoever
//! holds one marks that task ready by pushing the identity onto the
//! executor's ready queue.

use vstd::prelude::*;

verus! {

use crate::keyboard::{KeyboardTask, ScancodeStream};

/// A process-wide-unique task identity.
#[derive(Clone, Copy, PartialEq, Eq, Structural, Debug)]
pub struct TaskId(pub u64);

/// Hands out task identities: a monotonic counter, so no two identities
/// it ever produced are equal.
pub struct TaskIdCounter {
    pub next_raw: u64,
}

impl TaskIdCounter {
    pub fn new() -> (r: Self)
        ensures
            r.next_raw == 0,
    {
        TaskIdCounter { next_raw: 0 }
    }

    /// The next identity, never handed out before.
    pub fn fresh(&mut self) -> (r: TaskId)
        requires
            old(self).next_raw < u64::MAX,
        ensures
            r.0 == old(self).next_raw,
            final(self).next_raw == old(self).next_raw + 1,
    {
        let id = TaskId(self.next_raw);
        self.next_raw = self.next_raw + 1;
        id
    }
}

/// The "mark ready" capability a task is polled with.  A no-op handle
/// wakes nobody (the busy-polling executor uses it); a task handle names
/// the task to push onto the ready queue.
#[derive(Clone, Copy, PartialEq, Eq, Structural, Debug)]
pub enum WakeHandle {
    NoOp,
    Task { id: u64 },
}

/// What one poll of a task reports.
#[derive(Clone, Copy, PartialEq, Eq, Structural, Debug)]
pub enum PollStatus {
    Ready,
    Pending,
}

/// A task's computation, as an explicit state machine.
pub enum TaskProgram {
    /// Finishes on its first poll.
    Immediate,
    /// Suspends this many more times, then finishes.  It does not wake
    /// itself: an outside wake must mark it ready again.
    CountDown { remaining: u64 },
    /// Drains the keyboard stream and decodes forever; never finishes.
    Keyboard(KeyboardTask),
}

/// A program as the executor's contracts see it: the keyboard decoder's
/// inner state plays no part in scheduling.
pub enum ProgramView {
    Immediate,
    CountDown { remaining: u64 },
    Keyboard,
}

pub open spec fn program_view(p: TaskProgram) -> ProgramView {
    match p {
        TaskProgram::Immediate => ProgramView::Immediate,
        TaskProgram::CountDown { remaining } => ProgramView::CountDown { remaining },
        TaskProgram::Keyboard(_) => ProgramView::Keyboard,
    }
}

/// What one poll reports, determined by the program alone.
pub open spec fn spec_poll_status(p: ProgramView) -> PollStatus {
    match p {
        ProgramView::Immediate => PollStatus::Ready,
        ProgramView::CountDown { remaining } => if remaining == 0 {
            PollStatus::Ready
        } else {
            PollStatus::Pending
        },
        ProgramView::Keyboard => PollStatus::Pending,
    }
}

/// How one poll advances the program.
pub open spec fn spec_poll_step(p: ProgramView) -> ProgramView {
    match p {
        ProgramView::CountDown { remaining } => if remaining == 0 {
            p
        } else {
            ProgramView::CountDown { remaining: (remaining - 1) as u64 }
        },
        _ => p,
    }
}

/// A unit of asynchronous kernel work: an identity and a computation.
pub struct KernelTask {
    pub id: TaskId,
    pub program: TaskProgram,
}

impl KernelTask {
    pub fn new(id: TaskId, program: TaskProgram) -> (r: KernelTask)
        ensures
            r.id == id,
            program_view(r.program) == program_view(program),
    {
        KernelTask { id, program }
    }

    /// Steps the computation once.  The report and the program's next
    /// state are fixed by the program; a keyboard program additionally
    /// drains the stream into the output and leaves its waker registered.
    pub fn poll(&mut self, waker: WakeHandle, stream: &mut ScancodeStream, out: &mut Vec<
        pc_keyboard::DecodedKey,
    >) -> (r: PollStatus)
        requires
            old(stream).wf(),
        ensures
            final(stream).wf(),
            final(self).id == old(self).id,
            r == spec_poll_status(program_view(old(self).program)),
            program_view(final(self).program) == spec_poll_step(program_view(old(self).program)),
            final(stream).model().cap == old(stream).model().cap,
            final(out)@.len() >= old(out)@.len(),
            final(out)@.subrange(0, old(out)@.len() as int) == old(out)@,
            final(out)@.len() <= old(out)@.len() + old(stream).model().bytes.len(),
            !(old(self).program is Keyboard) ==> final(stream).model() == old(stream).model()
                && final(out)@ == old(out)@,
            old(self).program is Keyboard ==> final(stream).model().bytes.len() == 0
                && final(stream).model().waker == Some(waker),
    {
        match &mut self.program {
            TaskProgram::Immediate => {
                proof {
                    assert(out@.subrange(0, out@.len() as int) =~= out@);
                }
                PollStatus::Ready
            },
            TaskProgram::CountDown { remaining } => {
                proof {
                    assert(out@.subrange(0, out@.len() as int) =~= out@);
                }
                if *remaining == 0 {
                    PollStatus::Ready
                } else {
                    *remaining = *remaining - 1;
                    PollStatus::Pending
                }
            },
            TaskProgram::Keyboard(kt) => kt.poll(waker, stream, out),
        }
    }
}

} // verus!
