//! The interrupt-safe keyboard event stream and the task that drains it.
//!
//! An interrupt handler pushes raw scancodes into a bounded lock-free
//! queue and wakes the registered consumer; the consumer task pulls bytes,
//! decodes them through the `pc-keyboard` crate, and collects the decoded
//! keys for the console.  The consumer re-checks the queue after
//! registering its waker, so a byte pushed between its first check and the
//! registration is still seen: no wake is missed.

use vstd::prelude::*;

verus! {

use crate::queues::{scan_bytes, scan_cap, scan_queue_new, scan_queue_push, scan_queue_pop};
use crate::task::{WakeHandle, PollStatus};

/// How many scancodes the stream can buffer before it drops input.
pub const SCANCODE_QUEUE_SIZE: usize = 128;

#[verifier::external_type_specification]
#[verifier::external_body]
pub struct ExDecodedKey(pc_keyboard::DecodedKey);

#[verifier::external_type_specification]
#[verifier::external_body]
pub struct ExKeyEvent(pc_keyboard::KeyEvent);

/// The PS/2 decoder for the US 104-key layout, scancode set 1.  The
/// decoder type's trait-bounded generics cannot be declared to the
/// verifier, so the value is held opaquely in this shell.
#[verifier::external_body]
pub struct KeyDecoder {
    inner: pc_keyboard::PS2Keyboard<pc_keyboard::layouts::Us104Key, pc_keyboard::ScancodeSet1>,
}

/// Relies on `PS2Keyboard::new`: a fresh decoder with no partial state.
#[verifier::external_body]
fn decoder_new() -> (r: KeyDecoder)
{
    KeyDecoder {
        inner: pc_keyboard::PS2Keyboard::new(
            pc_keyboard::ScancodeSet1::new(),
            pc_keyboard::layouts::Us104Key,
            pc_keyboard::HandleControl::Ignore,
        ),
    }
}

/// Relies on `PS2Keyboard::add_byte`: advances the decoder by one
/// scancode byte and yields at most one key event.  A protocol error is
/// treated as no event, as the decoding task discards errors.
#[verifier::external_body]
fn decoder_add_byte(kb: &mut KeyDecoder, code: u8) -> (r: Option<pc_keyboard::KeyEvent>)
{
    match kb.inner.add_byte(code) {
        Ok(ev) => ev,
        Err(_) => None,
    }
}

/// Relies on `PS2Keyboard::process_keyevent`: turns a key event into at
/// most one decoded key, according to the layout and held modifiers.
#[verifier::external_body]
fn decoder_process(kb: &mut KeyDecoder, ev: pc_keyboard::KeyEvent) -> (r: Option<
    pc_keyboard::DecodedKey,
>)
{
    kb.inner.process_keyevent(ev)
}

/// What the stream looks like to its contracts: the buffered bytes, the
/// buffer's capacity, and the registered consumer waker.
#[verifier::ext_equal]
pub struct StreamView {
    pub bytes: Seq<u8>,
    pub cap: nat,
    pub waker: Option<WakeHandle>,
}

/// The producer's report: the byte was buffered (and this waker, if any,
/// should be woken), or the buffer was full and the byte is lost.
#[derive(Clone, Copy, PartialEq, Eq, Structural, Debug)]
pub enum PushOutcome {
    Delivered { wake: Option<WakeHandle> },
    Dropped,
}

/// One pull from the stream: the next byte, or nothing yet — the waker is
/// then registered and the consumer should suspend.
#[derive(Clone, Copy, PartialEq, Eq, Structural, Debug)]
pub enum PollNext {
    Ready(u8),
    Pending,
}

/// The scancode stream: a bounded lock-free byte queue fed from interrupt
/// context, and the waker slot of the one consumer task.
pub struct ScancodeStream {
    pub queue: crossbeam_queue::ArrayQueue<u8>,
    pub waker: Option<WakeHandle>,
}

impl ScancodeStream {
    pub open spec fn model(&self) -> StreamView {
        StreamView { bytes: scan_bytes(self.queue), cap: scan_cap(self.queue), waker: self.waker }
    }

    pub open spec fn wf(&self) -> bool {
        scan_cap(self.queue) >= 1
    }

    /// A fresh stream with an empty buffer and no registered consumer.
    /// The kernel constructs exactly one and passes it both to the
    /// interrupt path and to the consumer task.
    pub fn new() -> (r: Self)
        ensures
            r.wf(),
            r.model().bytes == Seq::<u8>::empty(),
            r.model().cap == SCANCODE_QUEUE_SIZE,
            r.model().waker is None,
    {
        ScancodeStream { queue: scan_queue_new(SCANCODE_QUEUE_SIZE), waker: None }
    }

    /// The producer side, called from the keyboard interrupt handler: it
    /// must not block or allocate.  On success the registered waker (if
    /// any) is taken and handed back to be woken; on overflow the byte is
    /// dropped and reported, a non-fatal loss of one input sample.
    pub fn add_scancode(&mut self, code: u8) -> (r: PushOutcome)
        requires
            old(self).wf(),
        ensures
            final(self).wf(),
            final(self).model().cap == old(self).model().cap,
            old(self).model().bytes.len() < old(self).model().cap ==> {
                &&& r == (PushOutcome::Delivered {
                    wake: spec_add_scancode_wake(old(self).model(), code),
                })
                &&& final(self).model() == spec_add_scancode(old(self).model(), code)
                &&& final(self).model().bytes == old(self).model().bytes.push(code)
                &&& final(self).model().waker is None
            },
            old(self).model().bytes.len() >= old(self).model().cap ==> {
                &&& r == PushOutcome::Dropped
                &&& final(self).model() == old(self).model()
            },
    {
        if scan_queue_push(&mut self.queue, code) {
            let wake = self.waker.take();
            PushOutcome::Delivered { wake }
        } else {
            PushOutcome::Dropped
        }
    }

    /// The consumer side: the next buffered byte, first come first
    /// served; or, when the buffer is empty, the waker is registered and
    /// the consumer must suspend.  The queue is checked a second time
    /// after registration: a producer that pushed in between has then
    /// already seen no waker, and the re-check picks its byte up instead,
    /// so the byte is delivered either way.
    pub fn poll_next(&mut self, waker: WakeHandle) -> (r: PollNext)
        requires
            old(self).wf(),
        ensures
            final(self).wf(),
            final(self).model().cap == old(self).model().cap,
            old(self).model().bytes.len() > 0 ==> {
                &&& r == PollNext::Ready(old(self).model().bytes[0])
                &&& final(self).model().bytes == old(self).model().bytes.skip(1)
                &&& final(self).model().waker == old(self).model().waker
            },
            old(self).model().bytes.len() == 0 ==> {
                &&& r == PollNext::Pending
                &&& final(self).model().bytes == old(self).model().bytes
                &&& final(self).model().waker == Some(waker)
            },
    {
        match scan_queue_pop(&mut self.queue) {
            Some(code) => {
                return PollNext::Ready(code);
            },
            None => {},
        }
        self.waker = Some(waker);
        match scan_queue_pop(&mut self.queue) {
            Some(code) => {
                // only a concurrent producer could put this byte here;
                // its push saw the waker still unregistered
                self.waker = None;
                PollNext::Ready(code)
            },
            None => PollNext::Pending,
        }
    }
}

/// The task that prints key events: it drains every buffered scancode,
/// feeds each through the PS/2 decoder, and appends every decoded key to
/// the console output; with the buffer empty it registers its waker and
/// suspends.  It never completes.
pub struct KeyboardTask {
    pub decoder: KeyDecoder,
}

impl KeyboardTask {
    pub fn new() -> (r: Self) {
        KeyboardTask { decoder: decoder_new() }
    }

    /// One poll of the task: drains the stream, decodes, suspends.
    ///
    /// Always pending — the stream never ends.  Afterwards the buffer is
    /// empty, this poll's waker is registered, and the decoded keys have
    /// been appended to the output, at most one per drained byte.
    pub fn poll(&mut self, waker: WakeHandle, stream: &mut ScancodeStream, out: &mut Vec<
        pc_keyboard::DecodedKey,
    >) -> (r: PollStatus)
        requires
            old(stream).wf(),
        ensures
            final(stream).wf(),
            r is Pending,
            final(stream).model().cap == old(stream).model().cap,
            final(stream).model().bytes.len() == 0,
            final(stream).model().waker == Some(waker),
            final(out)@.len() >= old(out)@.len(),
            final(out)@.len() <= old(out)@.len() + old(stream).model().bytes.len(),
            final(out)@.subrange(0, old(out)@.len() as int) == old(out)@,
    {
        loop
            invariant
                stream.wf(),
                scan_cap(stream.queue) == old(stream).model().cap,
                scan_bytes(stream.queue).len() + out@.len() <= old(stream).model().bytes.len()
                    + old(out)@.len(),
                out@.len() >= old(out)@.len(),
                out@.subrange(0, old(out)@.len() as int) == old(out)@,
            decreases scan_bytes(stream.queue).len(),
        {
            match stream.poll_next(waker) {
                PollNext::Ready(code) => {
                    match decoder_add_byte(&mut self.decoder, code) {
                        Some(ev) => {
                            match decoder_process(&mut self.decoder, ev) {
                                Some(key) => {
                                    let ghost prev = out@;
                                    out.push(key);
                                    proof {
                                        assert(out@.subrange(0, old(out)@.len() as int)
                                            =~= prev.subrange(0, old(out)@.len() as int));
                                    }
                                },
                                None => {},
                            }
                        },
                        None => {},
                    }
                },
                PollNext::Pending => {
                    return PollStatus::Pending;
                },
            }
        }
    }
}

/// No missed event, first half: a byte buffered before any consumer
/// registers a waker is still observed by a subsequent pull — after the
/// push the buffer is non-empty, so the next pull (by `poll_next`'s
/// contract) returns its front, and on a previously empty buffer that
/// front is the pushed byte itself.
pub proof fn lemma_push_then_poll_delivers(s: StreamView, code: u8)
    requires
        s.waker is None,
        s.bytes.len() < s.cap,
    ensures
        spec_add_scancode(s, code).bytes.len() > 0,
        s.bytes.len() == 0 ==> spec_add_scancode(s, code).bytes[0] == code,
{
}

/// No missed wake, second half: when the producer buffers a byte while
/// the consumer's waker is registered — in particular in the window
/// between the consumer's first empty check and its re-check — the
/// producer takes exactly that waker home to wake, so the consumer is
/// polled again and (the buffer being non-empty) receives the byte.
pub proof fn lemma_race_wakes_consumer(s: StreamView, code: u8, w: WakeHandle)
    requires
        s.waker == Some(w),
        s.bytes.len() < s.cap,
    ensures
        spec_add_scancode_wake(s, code) == Some(w),
        spec_add_scancode(s, code).bytes.len() > 0,
        spec_add_scancode(s, code).bytes[0] == if s.bytes.len() == 0 {
            code
        } else {
            s.bytes[0]
        },
{
}

/// The producer's transition on a non-full buffer, as `add_scancode`
/// ensures it: the byte goes to the back and the waker slot is emptied.
pub open spec fn spec_add_scancode(s: StreamView, code: u8) -> StreamView {
    StreamView { bytes: s.bytes.push(code), cap: s.cap, waker: None }
}

/// Whom the producer wakes on a successful push: whoever was registered.
pub open spec fn spec_add_scancode_wake(s: StreamView, code: u8) -> Option<WakeHandle> {
    s.waker
}

} // verus!
