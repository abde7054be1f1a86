//! The reference scheduler: a plain FIFO of tasks, busy-polled in turn
//! with a waker that wakes nobody.
//!
//! Every popped task is polled; one that is not finished goes to the back
//! of the queue and will simply be polled again.  Correct, but it never
//! rests — there is no event-driven waking — so it serves where true
//! interrupt-driven waking is unnecessary, or to drive task logic in
//! isolation.

use std::collections::VecDeque;
use vstd::prelude::*;

verus! {

use crate::task::{KernelTask, WakeHandle, PollStatus, ProgramView, program_view, spec_poll_step};
use crate::keyboard::ScancodeStream;

/// An upper bound on how often a program can still be polled before it
/// finishes.  The keyboard program never finishes; it has no bound, and
/// the busy-polling scheduler refuses it.
pub open spec fn program_fuel(p: ProgramView) -> nat {
    match p {
        ProgramView::Immediate => 1,
        ProgramView::CountDown { remaining } => remaining as nat + 1,
        ProgramView::Keyboard => 0,
    }
}

/// Polls left before every task of the queue has finished.
pub open spec fn total_fuel(tasks: Seq<KernelTask>) -> nat
    decreases tasks.len(),
{
    if tasks.len() == 0 {
        0
    } else {
        program_fuel(program_view(tasks[0].program)) + total_fuel(tasks.skip(1))
    }
}

/// Whether every queued program finishes after finitely many polls.
pub open spec fn all_bounded(tasks: Seq<KernelTask>) -> bool {
    forall|i: int|
        0 <= i < tasks.len() ==> !((#[trigger] tasks[i]).program is Keyboard)
}

/// The busy-polling scheduler: a FIFO of tasks and nothing else.
pub struct SimpleExecutor {
    pub tasks: VecDeque<KernelTask>,
}

impl SimpleExecutor {
    /// A scheduler with nothing to run.
    pub fn new() -> (r: SimpleExecutor)
        ensures
            r.tasks@.len() == 0,
    {
        SimpleExecutor { tasks: VecDeque::new() }
    }

    /// Appends a task to the back of the FIFO.
    pub fn spawn(&mut self, task: KernelTask)
        ensures
            final(self).tasks@ == old(self).tasks@.push(task),
    {
        self.tasks.push_back(task)
    }

    /// Polls the front task once with the no-op waker; an unfinished task
    /// goes to the back.  Reports whether a task was there to poll.
    pub fn step(&mut self, stream: &mut ScancodeStream, out: &mut Vec<
        pc_keyboard::DecodedKey,
    >) -> (r: bool)
        requires
            old(stream).wf(),
        ensures
            final(stream).wf(),
            final(stream).model().cap == old(stream).model().cap,
            r == (old(self).tasks@.len() > 0),
            final(out)@.len() >= old(out)@.len(),
            final(out)@.subrange(0, old(out)@.len() as int) == old(out)@,
            old(self).tasks@.len() == 0 ==> final(self).tasks@ == old(self).tasks@
                && final(stream).model() == old(stream).model() && final(out)@ == old(out)@,
            old(self).tasks@.len() > 0 && !(old(self).tasks@[0].program is Keyboard)
                ==> final(stream).model() == old(stream).model() && final(out)@ == old(out)@,
            old(self).tasks@.len() > 0 && old(self).tasks@[0].program is Keyboard
                ==> final(stream).model().bytes.len() == 0
                && final(stream).model().waker == Some(WakeHandle::NoOp),
            old(self).tasks@.len() > 0 ==> ({
                let first = old(self).tasks@[0];
                let rest = old(self).tasks@.skip(1);
                match crate::task::spec_poll_status(program_view(first.program)) {
                    PollStatus::Ready => final(self).tasks@ == rest,
                    PollStatus::Pending => final(self).tasks@.len() == rest.len() + 1
                        && final(self).tasks@.subrange(0, rest.len() as int) == rest
                        && final(self).tasks@.last().id == first.id
                        && program_view(final(self).tasks@.last().program)
                        == spec_poll_step(program_view(first.program)),
                }
            }),
    {
        proof {
            assert(out@.subrange(0, out@.len() as int) =~= out@);
        }
        let mut task = match self.tasks.pop_front() {
            Some(task) => task,
            None => {
                return false;
            },
        };
        let status = task.poll(WakeHandle::NoOp, stream, out);
        match status {
            PollStatus::Ready => {},
            PollStatus::Pending => {
                let ghost rest = self.tasks@;
                self.tasks.push_back(task);
                proof {
                    assert(self.tasks@.subrange(0, rest.len() as int) =~= rest);
                }
            },
        }
        true
    }

    /// Busy-polls until every task has finished.  Only programs with a
    /// finite poll bound may be queued: with no real waking, an unbounded
    /// program would be polled forever.  Such programs touch neither the
    /// stream nor the console output, and the contract says so.
    pub fn run(&mut self, stream: &mut ScancodeStream, out: &mut Vec<pc_keyboard::DecodedKey>)
        requires
            old(stream).wf(),
            all_bounded(old(self).tasks@),
        ensures
            final(self).tasks@.len() == 0,
            final(stream).wf(),
            final(stream).model() == old(stream).model(),
            final(out)@ == old(out)@,
    {
        loop
            invariant
                stream.wf(),
                all_bounded(self.tasks@),
                stream.model() == old(stream).model(),
                out@ == old(out)@,
            ensures
                self.tasks@.len() == 0,
                stream.wf(),
                stream.model() == old(stream).model(),
                out@ == old(out)@,
            decreases total_fuel(self.tasks@),
        {
            let ghost before = self.tasks@;
            let mut task = match self.tasks.pop_front() {
                Some(task) => task,
                None => {
                    break ;
                },
            };
            let status = task.poll(WakeHandle::NoOp, stream, out);
            proof {
                assert(program_fuel(program_view(before[0].program)) >= 1);
            }
            match status {
                PollStatus::Ready => {},
                PollStatus::Pending => {
                    self.tasks.push_back(task);
                    proof {
                        lemma_total_fuel_push(before.skip(1), task);
                    }
                },
            }
        }
    }
}

/// Appending a task adds exactly its fuel.
proof fn lemma_total_fuel_push(tasks: Seq<KernelTask>, task: KernelTask)
    ensures
        total_fuel(tasks.push(task)) == total_fuel(tasks) + program_fuel(
            program_view(task.program),
        ),
    decreases tasks.len(),
{
    if tasks.len() == 0 {
        assert(tasks.push(task).skip(1) =~= tasks);
    } else {
        lemma_total_fuel_push(tasks.skip(1), task);
        assert(tasks.push(task).skip(1) =~= tasks.skip(1).push(task));
    }
}

} // verus!
