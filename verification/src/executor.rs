//! The production scheduler: a ready queue of task identities, a task
//! map, and a cache of wakers.
//!
//! Wakers — from interrupt handlers or anywhere else — push a task's
//! identity onto the bounded ready queue; the executor drains the queue,
//! polls each named task, and drops completed tasks together with their
//! cached wakers.  An identity may linger in the queue after its task
//! completed; such stale entries are discarded.  The whole drain is
//! captured by one transition function, `spec_drain`, which the scheduling
//! laws are stated over.

use vstd::prelude::*;

verus! {

use crate::queues::{
    ready_ids, ready_cap, ready_queue_new, ready_queue_push, ready_queue_pop,
    ready_queue_is_empty, ready_queue_len,
};
use crate::task::{
    KernelTask, WakeHandle, PollStatus, ProgramView, program_view, spec_poll_status,
    spec_poll_step,
};
use crate::keyboard::ScancodeStream;
use crate::queues::{scan_bytes, scan_cap};

/// How many ready entries the queue can hold; enough for every task the
/// kernel is expected to run at once, since overflow is fatal.
pub const READY_QUEUE_SIZE: usize = 128;

/// The executor's state as the scheduling laws speak of it: the task map
/// (identity and program, in insertion order), the ready queue, and the
/// identities with a cached waker.
#[verifier::ext_equal]
pub struct ExecView {
    pub tasks: Seq<(u64, ProgramView)>,
    pub queue: Seq<u64>,
    pub cache: Seq<u64>,
}

/// The position of a task in the map, front first; `-1` where no task
/// carries the identity.
pub open spec fn find_task(tasks: Seq<(u64, ProgramView)>, id: u64) -> int
    decreases tasks.len(),
{
    if tasks.len() == 0 {
        -1
    } else if tasks[0].0 == id {
        0
    } else {
        let r = find_task(tasks.skip(1), id);
        if r == -1 {
            -1
        } else {
            r + 1
        }
    }
}

/// No identity occurs twice.
pub open spec fn distinct_ids(s: Seq<u64>) -> bool {
    forall|i: int, j: int| 0 <= i < s.len() && 0 <= j < s.len() && i != j ==> s[i] != s[j]
}

/// The first occurrence of `x` taken out; the sequence unchanged where
/// `x` does not occur.
pub open spec fn remove_first(s: Seq<u64>, x: u64) -> Seq<u64>
    decreases s.len(),
{
    if s.len() == 0 {
        s
    } else if s[0] == x {
        s.skip(1)
    } else {
        seq![s[0]] + remove_first(s.skip(1), x)
    }
}

/// One step of the drain: the front identity leaves the queue; a stale
/// identity does nothing more; otherwise the task is polled — its waker
/// is cached first if it was not — and on completion the task and its
/// cached waker are dropped.
pub open spec fn spec_drain_step(v: ExecView) -> ExecView {
    let id = v.queue[0];
    let rest = v.queue.skip(1);
    let t = find_task(v.tasks, id);
    if t == -1 {
        ExecView { queue: rest, ..v }
    } else {
        let pv = v.tasks[t].1;
        let cache1 = if v.cache.contains(id) {
            v.cache
        } else {
            v.cache.push(id)
        };
        if spec_poll_status(pv) is Ready {
            ExecView { tasks: v.tasks.remove(t), queue: rest, cache: remove_first(cache1, id) }
        } else {
            ExecView {
                tasks: v.tasks.update(t, (id, spec_poll_step(pv))),
                queue: rest,
                cache: cache1,
            }
        }
    }
}

/// One full drain of the ready queue, step by step until it is empty.
pub open spec fn spec_drain(v: ExecView) -> ExecView
    decreases v.queue.len(),
{
    if v.queue.len() == 0 {
        v
    } else {
        spec_drain(spec_drain_step(v))
    }
}

/// Whether no queued task touches the keyboard stream.
pub open spec fn no_keyboard_tasks(tasks: Seq<(u64, ProgramView)>) -> bool {
    forall|i: int| 0 <= i < tasks.len() ==> !((#[trigger] tasks[i]).1 is Keyboard)
}

/// Whether some ready identity names a registered keyboard task: such an
/// entry guarantees that the drain reaches the stream.
pub open spec fn queued_keyboard(v: ExecView) -> bool {
    exists|i: int, j: int|
        0 <= i < v.queue.len() && 0 <= j < v.tasks.len() && (#[trigger] v.queue[i]) == (
        #[trigger] v.tasks[j]).0 && v.tasks[j].1 is Keyboard
}

/// A wake: the identity joins the back of the ready queue.
pub open spec fn spec_wake(v: ExecView, id: u64) -> ExecView {
    ExecView { queue: v.queue.push(id), ..v }
}

/// The ready-queue-driven scheduler.
pub struct Executor {
    /// Every registered task, in insertion order.
    pub tasks: Vec<KernelTask>,
    /// The identities awaiting a poll; shared in spirit with every waker,
    /// which is why it is a bounded lock-free queue an interrupt handler
    /// can push into.
    pub queue: crossbeam_queue::ArrayQueue<u64>,
    /// The identities whose waker has been built and kept, so that waking
    /// allocates nothing and frees nothing in interrupt context.
    pub waker_cache: Vec<u64>,
}

impl Executor {
    pub open spec fn model(&self) -> ExecView {
        ExecView {
            tasks: Seq::new(
                self.tasks@.len(),
                |i: int| (self.tasks@[i].id.0, program_view(self.tasks@[i].program)),
            ),
            queue: ready_ids(self.queue),
            cache: self.waker_cache@,
        }
    }

    pub open spec fn wf(&self) -> bool {
        &&& ready_cap(self.queue) == READY_QUEUE_SIZE
        &&& (forall|i: int, j: int|
            0 <= i < self.tasks@.len() && 0 <= j < self.tasks@.len() && i != j ==> (
            #[trigger] self.tasks@[i].id.0) != (#[trigger] self.tasks@[j].id.0))
        &&& distinct_ids(self.waker_cache@)
    }

    /// An executor with no tasks, nothing ready, and no cached wakers.
    pub fn new() -> (r: Self)
        ensures
            r.wf(),
            r.model().tasks.len() == 0,
            r.model().queue.len() == 0,
            r.model().cache.len() == 0,
    {
        Executor {
            tasks: Vec::new(),
            queue: ready_queue_new(READY_QUEUE_SIZE),
            waker_cache: Vec::new(),
        }
    }

    /// Where the task with this identity stands in the map.
    fn task_index(&self, id: u64) -> (r: Option<usize>)
        ensures
            match r {
                Some(k) => {
                    &&& k < self.tasks@.len()
                    &&& self.tasks@[k as int].id.0 == id
                    &&& find_task(self.model().tasks, id) == k
                },
                None => {
                    &&& find_task(self.model().tasks, id) == -1
                    &&& forall|j: int|
                        0 <= j < self.tasks@.len() ==> (#[trigger] self.tasks@[j].id.0) != id
                },
            },
    {
        let mut i: usize = 0;
        while i < self.tasks.len()
            invariant
                i <= self.tasks@.len(),
                forall|j: int| 0 <= j < i ==> (#[trigger] self.tasks@[j].id.0) != id,
            decreases self.tasks@.len() - i,
        {
            if self.tasks[i].id.0 == id {
                proof {
                    lemma_find_task_at(self.model().tasks, id, i as int);
                }
                return Some(i);
            }
            i = i + 1;
        }
        proof {
            lemma_find_task_absent(self.model().tasks, id);
        }
        None
    }

    /// Whether this identity's waker is already cached.
    fn cache_contains(&self, id: u64) -> (r: bool)
        ensures
            r == self.waker_cache@.contains(id),
    {
        let mut i: usize = 0;
        while i < self.waker_cache.len()
            invariant
                i <= self.waker_cache@.len(),
                forall|j: int| 0 <= j < i ==> (#[trigger] self.waker_cache@[j]) != id,
            decreases self.waker_cache@.len() - i,
        {
            if self.waker_cache[i] == id {
                return true;
            }
            i = i + 1;
        }
        false
    }

    /// Drops the cached waker of this identity, if any.
    fn cache_remove(&mut self, id: u64)
        ensures
            final(self).tasks == old(self).tasks,
            final(self).queue == old(self).queue,
            final(self).waker_cache@ == remove_first(old(self).waker_cache@, id),
            distinct_ids(old(self).waker_cache@) ==> distinct_ids(final(self).waker_cache@),
    {
        let mut i: usize = 0;
        while i < self.waker_cache.len()
            invariant
                *self == *old(self),
                i <= self.waker_cache@.len(),
                forall|j: int| 0 <= j < i ==> (#[trigger] self.waker_cache@[j]) != id,
            decreases self.waker_cache@.len() - i,
        {
            if self.waker_cache[i] == id {
                let ghost before = self.waker_cache@;
                let ghost k = i as int;
                self.waker_cache.remove(i);
                proof {
                    lemma_remove_first_at(before, id, k);
                    if distinct_ids(before) {
                        assert forall|a: int, b: int|
                            0 <= a < self.waker_cache@.len() && 0 <= b
                                < self.waker_cache@.len() && a != b implies self.waker_cache@[a]
                            != self.waker_cache@[b] by {
                            let a0 = if a < k { a } else { a + 1 };
                            let b0 = if b < k { b } else { b + 1 };
                            assert(self.waker_cache@[a] == before[a0]);
                            assert(self.waker_cache@[b] == before[b0]);
                        }
                    }
                }
                return;
            }
            i = i + 1;
        }
        proof {
            lemma_remove_first_absent(self.waker_cache@, id);
        }
    }

    /// Registers a task and makes it immediately ready, so every freshly
    /// spawned task is polled at least once.  The identity must be new —
    /// a duplicate is a programming error (`try_spawn` screens for it) —
    /// and the ready queue must have room, since overflow is fatal.
    pub fn spawn(&mut self, task: KernelTask)
        requires
            old(self).wf(),
            forall|i: int|
                0 <= i < old(self).tasks@.len() ==> (#[trigger] old(self).tasks@[i].id.0)
                    != task.id.0,
            old(self).model().queue.len() < READY_QUEUE_SIZE,
        ensures
            final(self).wf(),
            final(self).model().tasks == old(self).model().tasks.push(
                (task.id.0, program_view(task.program)),
            ),
            final(self).model().queue == old(self).model().queue.push(task.id.0),
            final(self).model().cache == old(self).model().cache,
    {
        let id: u64 = task.id.0;
        self.tasks.push(task);
        let ok = ready_queue_push(&mut self.queue, id);
        proof {
            assert(self.model().tasks =~= old(self).model().tasks.push(
                (task.id.0, program_view(task.program)),
            ));
        }
    }

    /// Registers a task unless its identity is already taken: the checked
    /// door to `spawn`.  Reports whether the task was accepted.
    pub fn try_spawn(&mut self, task: KernelTask) -> (r: bool)
        requires
            old(self).wf(),
            old(self).model().queue.len() < READY_QUEUE_SIZE,
        ensures
            final(self).wf(),
            r == (find_task(old(self).model().tasks, task.id.0) == -1),
            r ==> final(self).model().tasks == old(self).model().tasks.push(
                (task.id.0, program_view(task.program)),
            ) && final(self).model().queue == old(self).model().queue.push(task.id.0)
                && final(self).model().cache == old(self).model().cache,
            !r ==> final(self).model() == old(self).model(),
    {
        match self.task_index(task.id.0) {
            Some(_) => false,
            None => {
                self.spawn(task);
                true
            },
        }
    }

    /// Marks a task ready.  This is all a waker does; interrupt handlers
    /// do it without blocking or allocating.  A full queue is fatal, so
    /// room is demanded up front.
    pub fn wake(&mut self, handle: WakeHandle)
        requires
            old(self).wf(),
            handle is Task ==> old(self).model().queue.len() < READY_QUEUE_SIZE,
        ensures
            final(self).wf(),
            final(self).model().tasks == old(self).model().tasks,
            final(self).model().cache == old(self).model().cache,
            match handle {
                WakeHandle::NoOp => final(self).model().queue == old(self).model().queue,
                WakeHandle::Task { id } => final(self).model().queue == old(
                    self,
                ).model().queue.push(id),
            },
    {
        match handle {
            WakeHandle::NoOp => {},
            WakeHandle::Task { id } => {
                let _ok = ready_queue_push(&mut self.queue, id);
            },
        }
    }

    /// How many identities are queued; callers check room before a wake
    /// or a spawn, since queue overflow is fatal.
    pub fn ready_len(&self) -> (r: usize)
        ensures
            r == self.model().queue.len(),
    {
        ready_queue_len(&self.queue)
    }

    /// Whether the executor may halt the processor until the next
    /// interrupt: nothing is ready.
    pub fn should_idle(&self) -> (r: bool)
        ensures
            r == (self.model().queue.len() == 0),
    {
        ready_queue_is_empty(&self.queue)
    }

    /// One drain of the ready queue: pops every queued identity, discards
    /// the stale ones, polls the rest — creating and caching a waker on a
    /// task's first poll — and retires completed tasks together with
    /// their cached wakers.  The result is exactly `spec_drain` of the
    /// starting state, and the queue ends empty.  A ready keyboard task
    /// is really polled: it leaves the scancode buffer drained and its
    /// waker registered, so the next interrupt wakes it again.
    pub fn run_ready_tasks(&mut self, stream: &mut ScancodeStream, out: &mut Vec<
        pc_keyboard::DecodedKey,
    >)
        requires
            old(self).wf(),
            old(stream).wf(),
        ensures
            final(self).wf(),
            final(stream).wf(),
            final(self).model() == spec_drain(old(self).model()),
            final(self).model().queue.len() == 0,
            final(stream).model().cap == old(stream).model().cap,
            final(out)@.subrange(0, old(out)@.len() as int) == old(out)@,
            no_keyboard_tasks(old(self).model().tasks) ==> final(stream).model() == old(
                stream,
            ).model() && final(out)@ == old(out)@,
            queued_keyboard(old(self).model()) ==> final(stream).model().bytes.len() == 0
                && final(stream).model().waker is Some,
    {
        proof {
            assert(out@.subrange(0, out@.len() as int) =~= out@);
        }
        loop
            invariant
                self.wf(),
                stream.wf(),
                spec_drain(self.model()) == spec_drain(old(self).model()),
                scan_cap(stream.queue) == old(stream).model().cap,
                out@.len() >= old(out)@.len(),
                out@.subrange(0, old(out)@.len() as int) == old(out)@,
                no_keyboard_tasks(old(self).model().tasks) ==> no_keyboard_tasks(
                    self.model().tasks,
                ) && stream.model() == old(stream).model() && out@ == old(out)@,
                queued_keyboard(old(self).model()) ==> queued_keyboard(self.model()) || (
                scan_cap(stream.queue) >= 1 && scan_bytes(stream.queue).len() == 0
                    && stream.waker is Some),
            ensures
                self.wf(),
                stream.wf(),
                spec_drain(self.model()) == spec_drain(old(self).model()),
                scan_cap(stream.queue) == old(stream).model().cap,
                out@.len() >= old(out)@.len(),
                out@.subrange(0, old(out)@.len() as int) == old(out)@,
                ready_ids(self.queue).len() == 0,
                no_keyboard_tasks(old(self).model().tasks) ==> stream.model() == old(
                    stream,
                ).model() && out@ == old(out)@,
                queued_keyboard(old(self).model()) ==> scan_bytes(stream.queue).len() == 0
                    && stream.waker is Some,
            decreases ready_ids(self.queue).len(),
        {
            let ghost pre = self.model();
            proof {
                // the map's identities, as the snapshot keeps them, are
                // pairwise distinct
                assert forall|a: int, b: int|
                    0 <= a < pre.tasks.len() && 0 <= b < pre.tasks.len() && a != b implies (
                #[trigger] pre.tasks[a]).0 != (#[trigger] pre.tasks[b]).0 by {
                    assert(pre.tasks[a].0 == self.tasks@[a].id.0);
                    assert(pre.tasks[b].0 == self.tasks@[b].id.0);
                }
            }
            let id: u64 = match ready_queue_pop(&mut self.queue) {
                Some(id) => id,
                None => {
                    break ;
                },
            };
            match self.task_index(id) {
                None => {
                    proof {
                        assert(self.model() =~~= spec_drain_step(pre));
                        // a stale identity: the keyboard witness, if any,
                        // sits deeper in the queue and survives the pop
                        if queued_keyboard(pre) {
                            let (wi, wj) = choose|wi: int, wj: int|
                                0 <= wi < pre.queue.len() && 0 <= wj < pre.tasks.len() && (
                                #[trigger] pre.queue[wi]) == (#[trigger] pre.tasks[wj]).0
                                    && pre.tasks[wj].1 is Keyboard;
                            assert(pre.tasks[wj].0 == self.tasks@[wj].id.0);
                            assert(wi != 0);
                            assert(self.model().queue[wi - 1] == pre.tasks[wj].0);
                            assert(self.model().tasks[wj] == pre.tasks[wj]);
                            assert(queued_keyboard(self.model()));
                        }
                    }
                },
                Some(k) => {
                    if !self.cache_contains(id) {
                        self.waker_cache.push(id);
                    }
                    let waker = WakeHandle::Task { id };
                    let ghost before_poll = self.tasks@;
                    let ghost out_pre = out@;
                    let t = &mut self.tasks[k];
                    let status = t.poll(waker, stream, out);
                    proof {
                        // the output written so far is kept
                        assert(out@.subrange(0, old(out)@.len() as int) =~= out@.subrange(
                            0,
                            out_pre.len() as int,
                        ).subrange(0, old(out)@.len() as int));
                        // the polled task kept its identity and stepped
                        // its program; every other task stands untouched
                        assert(self.tasks@ =~= before_poll.update(
                            k as int,
                            self.tasks@[k as int],
                        ));
                        assert(self.model().tasks =~= pre.tasks.update(
                            k as int,
                            (id, spec_poll_step(pre.tasks[k as int].1)),
                        ));
                    }
                    match status {
                        PollStatus::Ready => {
                            let ghost before_remove = self.tasks@;
                            let _done = self.tasks.remove(k);
                            proof {
                                assert forall|a: int, b: int|
                                    0 <= a < self.tasks@.len() && 0 <= b
                                        < self.tasks@.len() && a != b implies (
                                #[trigger] self.tasks@[a].id.0) != (
                                #[trigger] self.tasks@[b].id.0) by {
                                    let a0 = if a < k { a } else { a + 1 };
                                    let b0 = if b < k { b } else { b + 1 };
                                    assert(self.tasks@[a] == before_remove[a0]);
                                    assert(self.tasks@[b] == before_remove[b0]);
                                    assert(before_remove[a0].id.0 != before_remove[b0].id.0);
                                }
                            }
                            self.cache_remove(id);
                            proof {
                                assert(spec_poll_step(pre.tasks[k as int].1) == pre.tasks[
                                    k as int].1);
                                assert(pre.tasks.update(k as int, pre.tasks[k as int])
                                    =~= pre.tasks);
                                assert(self.model().tasks =~= pre.tasks.remove(k as int));
                                assert(self.model() =~~= spec_drain_step(pre));
                            }
                        },
                        PollStatus::Pending => {
                            proof {
                                assert(self.model() =~~= spec_drain_step(pre));
                            }
                        },
                    }
                    proof {
                        // a ready keyboard entry either was just polled —
                        // draining the stream and registering its waker —
                        // or waits further back in the queue
                        if queued_keyboard(pre) {
                            if pre.tasks[k as int].1 is Keyboard {
                                assert(scan_bytes(stream.queue).len() == 0);
                                assert(stream.waker is Some);
                            } else {
                                let (wi, wj) = choose|wi: int, wj: int|
                                    0 <= wi < pre.queue.len() && 0 <= wj < pre.tasks.len()
                                        && (#[trigger] pre.queue[wi]) == (
                                    #[trigger] pre.tasks[wj]).0 && pre.tasks[wj].1 is Keyboard;
                                assert(pre.tasks[k as int].0 == id);
                                assert(wj != k as int);
                                assert(pre.tasks[wj].0 != id);
                                assert(wi != 0);
                                match status {
                                    PollStatus::Ready => {
                                        let wj2 = if wj < k as int {
                                            wj
                                        } else {
                                            wj - 1
                                        };
                                        assert(self.model().tasks[wj2] == pre.tasks.remove(
                                            k as int,
                                        )[wj2]);
                                        assert(self.model().tasks[wj2] == pre.tasks[wj]);
                                        assert(self.model().queue[wi - 1] == pre.tasks[wj].0);
                                        assert(queued_keyboard(self.model()));
                                    },
                                    PollStatus::Pending => {
                                        assert(self.model().tasks[wj] == pre.tasks[wj]);
                                        assert(self.model().queue[wi - 1] == pre.tasks[wj].0);
                                        assert(queued_keyboard(self.model()));
                                    },
                                }
                            }
                        }
                    }
                },
            }
        }
        proof {
            assert(spec_drain(self.model()) == self.model());
        }
    }
}

/// Where a task provably stands: at the first index carrying its
/// identity.
proof fn lemma_find_task_at(tasks: Seq<(u64, ProgramView)>, id: u64, k: int)
    requires
        0 <= k < tasks.len(),
        tasks[k].0 == id,
        forall|j: int| 0 <= j < k ==> (#[trigger] tasks[j]).0 != id,
    ensures
        find_task(tasks, id) == k,
    decreases k,
{
    if k == 0 {
    } else {
        lemma_find_task_at(tasks.skip(1), id, k - 1);
    }
}

/// An identity no task carries is not found.
proof fn lemma_find_task_absent(tasks: Seq<(u64, ProgramView)>, id: u64)
    requires
        forall|j: int| 0 <= j < tasks.len() ==> (#[trigger] tasks[j]).0 != id,
    ensures
        find_task(tasks, id) == -1,
    decreases tasks.len(),
{
    if tasks.len() > 0 {
        lemma_find_task_absent(tasks.skip(1), id);
    }
}

/// Removing the first occurrence is removing at its index.
proof fn lemma_remove_first_at(s: Seq<u64>, x: u64, k: int)
    requires
        0 <= k < s.len(),
        s[k] == x,
        forall|j: int| 0 <= j < k ==> (#[trigger] s[j]) != x,
    ensures
        remove_first(s, x) == s.remove(k),
    decreases k,
{
    if k == 0 {
        assert(s.skip(1) =~= s.remove(0));
    } else {
        lemma_remove_first_at(s.skip(1), x, k - 1);
        assert(seq![s[0]] + s.skip(1).remove(k - 1) =~= s.remove(k));
    }
}

/// Where `x` does not occur, taking it out changes nothing.
proof fn lemma_remove_first_absent(s: Seq<u64>, x: u64)
    requires
        forall|j: int| 0 <= j < s.len() ==> (#[trigger] s[j]) != x,
    ensures
        remove_first(s, x) == s,
    decreases s.len(),
{
    if s.len() > 0 {
        lemma_remove_first_absent(s.skip(1), x);
        assert(seq![s[0]] + s.skip(1) =~= s);
    }
}

/// One wake followed by one drain.
pub open spec fn spec_wake_drain(v: ExecView, id: u64) -> ExecView {
    spec_drain(spec_wake(v, id))
}

/// `k` rounds of waking the task and draining the queue.
pub open spec fn spec_wake_drain_rounds(v: ExecView, id: u64, k: nat) -> ExecView
    decreases k,
{
    if k == 0 {
        v
    } else {
        spec_wake_drain_rounds(spec_wake_drain(v, id), id, (k - 1) as nat)
    }
}

/// A found task stands inside the map and carries the identity sought.
proof fn lemma_find_task_found(tasks: Seq<(u64, ProgramView)>, id: u64)
    requires
        find_task(tasks, id) >= 0,
    ensures
        find_task(tasks, id) < tasks.len(),
        tasks[find_task(tasks, id)].0 == id,
    decreases tasks.len(),
{
    if tasks.len() > 0 && tasks[0].0 != id {
        lemma_find_task_found(tasks.skip(1), id);
    }
}

/// `find_task` reads only the identities.
proof fn lemma_find_task_ids(t1: Seq<(u64, ProgramView)>, t2: Seq<(u64, ProgramView)>, id: u64)
    requires
        t1.len() == t2.len(),
        forall|j: int| 0 <= j < t1.len() ==> (#[trigger] t1[j]).0 == (#[trigger] t2[j]).0,
    ensures
        find_task(t1, id) == find_task(t2, id),
    decreases t1.len(),
{
    if t1.len() > 0 && t1[0].0 != id {
        assert forall|j: int|
            0 <= j < t1.skip(1).len() implies (#[trigger] t1.skip(1)[j]).0 == (
        #[trigger] t2.skip(1)[j]).0 by {
            assert(t1.skip(1)[j] == t1[j + 1]);
            assert(t2.skip(1)[j] == t2[j + 1]);
        }
        lemma_find_task_ids(t1.skip(1), t2.skip(1), id);
    }
}

/// An identity pushed onto a sequence free of it is the one `remove_first`
/// takes back out.
proof fn lemma_remove_first_pushed(s: Seq<u64>, x: u64)
    requires
        !s.contains(x),
    ensures
        remove_first(s.push(x), x) == s,
    decreases s.len(),
{
    if s.len() == 0 {
        assert(s.push(x)[0] == x);
        assert(s.push(x).skip(1) =~= s);
    } else {
        assert(s.push(x).skip(1) =~= s.skip(1).push(x));
        assert(!s.skip(1).contains(x)) by {
            if s.skip(1).contains(x) {
                let j = choose|j: int| 0 <= j < s.skip(1).len() && s.skip(1)[j] == x;
                assert(s[j + 1] == x);
            }
        }
        lemma_remove_first_pushed(s.skip(1), x);
        assert(seq![s[0]] + s.skip(1) =~= s);
    }
}

/// Draining always leaves the ready queue empty.
pub proof fn lemma_drain_empties_queue(v: ExecView)
    ensures
        spec_drain(v).queue.len() == 0,
    decreases v.queue.len(),
{
    if v.queue.len() > 0 {
        lemma_drain_empties_queue(spec_drain_step(v));
    }
}

/// Executor law, first part: spawning a task whose computation completes
/// on its first poll leaves, after one drain of the ready queue, an empty
/// task map and an empty waker cache.
pub proof fn lemma_immediate_task_completes(v: ExecView, id: u64)
    requires
        v.tasks =~= seq![(id, ProgramView::Immediate)],
        v.queue =~= seq![id],
        v.cache =~= Seq::<u64>::empty(),
    ensures
        spec_drain(v).tasks.len() == 0,
        spec_drain(v).cache.len() == 0,
        spec_drain(v).queue.len() == 0,
{
    assert(find_task(v.tasks, id) == 0);
    let w = spec_drain_step(v);
    assert(v.cache.push(id)[0] == id);
    assert(remove_first(v.cache.push(id), id) =~= Seq::<u64>::empty());
    assert(w.queue.len() == 0);
    assert(spec_drain(v) == spec_drain(w));
}

/// Executor law, second part: a suspended countdown task — however many
/// other tasks the executor holds besides it — is re-queued by every wake
/// (as an interrupt handler would issue) and re-polled on the next drain;
/// after `n + 1` wake-and-drain rounds it completes and leaves the task
/// map and the waker cache, while every other task stands exactly where
/// it stood and the rest of the cache is kept.
pub proof fn lemma_woken_countdown_completes(v: ExecView, id: u64, n: u64)
    requires
        v.queue.len() == 0,
        find_task(v.tasks, id) >= 0,
        v.tasks[find_task(v.tasks, id)].1 == (ProgramView::CountDown { remaining: n }),
    ensures
        ({
            let t = find_task(v.tasks, id);
            let w = spec_wake_drain_rounds(v, id, (n + 1) as nat);
            &&& w.tasks == v.tasks.remove(t)
            &&& w.queue.len() == 0
            &&& w.cache == if v.cache.contains(id) {
                remove_first(v.cache, id)
            } else {
                v.cache
            }
        }),
    decreases n,
{
    let t = find_task(v.tasks, id);
    lemma_find_task_found(v.tasks, id);
    let w0 = spec_wake(v, id);
    assert(w0.queue =~= seq![id]);
    assert(w0.queue[0] == id);
    let step = spec_drain_step(w0);
    assert(step.queue.len() == 0);
    assert(spec_drain(w0) == spec_drain(step));
    assert(spec_wake_drain(v, id) == step);
    let cache1 = if v.cache.contains(id) {
        v.cache
    } else {
        v.cache.push(id)
    };
    if n == 0 {
        // the woken poll reports ready: the task and its cached waker go
        assert(step.tasks == v.tasks.remove(t));
        assert(step.cache == remove_first(cache1, id));
        if !v.cache.contains(id) {
            lemma_remove_first_pushed(v.cache, id);
        }
        assert(spec_wake_drain_rounds(spec_wake_drain(v, id), id, 0) == spec_wake_drain(v, id));
        assert(spec_wake_drain_rounds(v, id, 1) == spec_wake_drain(v, id));
    } else {
        // the woken poll counts down by one and suspends again
        let stepped = (id, ProgramView::CountDown { remaining: (n - 1) as u64 });
        assert(step.tasks == v.tasks.update(t, stepped));
        assert(step.cache == cache1);
        assert(cache1.contains(id)) by {
            if !v.cache.contains(id) {
                assert(cache1[cache1.len() - 1] == id);
            }
        }
        assert forall|j: int|
            0 <= j < step.tasks.len() implies (#[trigger] step.tasks[j]).0 == (
        #[trigger] v.tasks[j]).0 by {
            if j == t {
                assert(step.tasks[j] == stepped);
            } else {
                assert(step.tasks[j] == v.tasks[j]);
            }
        }
        lemma_find_task_ids(step.tasks, v.tasks, id);
        assert(find_task(step.tasks, id) == t);
        lemma_woken_countdown_completes(step, id, (n - 1) as u64);
        let w = spec_wake_drain_rounds(step, id, n as nat);
        assert(w.tasks == step.tasks.remove(t));
        assert(step.tasks.remove(t) =~= v.tasks.remove(t));
        assert(w.cache == remove_first(cache1, id));
        if !v.cache.contains(id) {
            lemma_remove_first_pushed(v.cache, id);
        }
        assert(spec_wake_drain_rounds(v, id, (n + 1) as nat) == spec_wake_drain_rounds(
            step,
            id,
            n as nat,
        ));
    }
}

} // verus!
