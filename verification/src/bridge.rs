//! The interrupt-to-task bridge: two bounded lock-free queues, each with a
//! waker slot. Interrupt handlers push without blocking; the cooperative
//! side polls, registering its waker before a second emptiness check so no
//! wakeup is missed. The scancode queue rejects new items when full; the
//! output queue evicts its oldest, preferring recency over completeness.

use vstd::prelude::*;

use core::task::Waker;

verus! {

/// The bounded lock-free queue the bridge is built on.
#[verifier::external_type_specification]
#[verifier::external_body]
#[verifier::reject_recursive_types(T)]
pub struct ExArrayQueue<T>(crossbeam_queue::ArrayQueue<T>);

/// The waker slot a consumer parks its waker in.
#[verifier::external_type_specification]
#[verifier::external_body]
pub struct ExAtomicWaker(futures_util::task::AtomicWaker);

/// The task-wakeup handle itself.
#[verifier::external_type_specification]
#[verifier::external_body]
pub struct ExWaker(Waker);

/// What a scancode queue holds, oldest first.
pub uninterp spec fn scancode_queue_contents(q: crossbeam_queue::ArrayQueue<u8>) -> Seq<u8>;

/// The bound a scancode queue was created with.
pub uninterp spec fn scancode_queue_capacity(q: crossbeam_queue::ArrayQueue<u8>) -> nat;

/// What an output queue holds, oldest first, each entry as its characters.
pub uninterp spec fn output_queue_contents(q: crossbeam_queue::ArrayQueue<String>) -> Seq<
    Seq<char>,
>;

/// The bound an output queue was created with.
pub uninterp spec fn output_queue_capacity(q: crossbeam_queue::ArrayQueue<String>) -> nat;

/// How many scancodes the bridge buffers by default.
pub const DEFAULT_SCANCODE_QUEUE_CAPACITY: usize = 100;

/// How many output strings the bridge buffers by default.
pub const DEFAULT_OUTPUT_QUEUE_CAPACITY: usize = 200;

/// What one bounded push leaves in a reject-when-full queue.
pub open spec fn bounded_push<T>(contents: Seq<T>, capacity: nat, value: T) -> Seq<T> {
    if contents.len() < capacity {
        contents.push(value)
    } else {
        contents
    }
}

/// What one forced push leaves in an evict-oldest queue.
pub open spec fn forced_push<T>(contents: Seq<T>, capacity: nat, value: T) -> Seq<T> {
    if contents.len() < capacity {
        contents.push(value)
    } else {
        contents.skip(1).push(value)
    }
}

/// The scancode byte queue with its waker slot, fed by the keyboard
/// interrupt handler and drained by the keyboard task.
pub struct ScancodeStream {
    queue: crossbeam_queue::ArrayQueue<u8>,
    waker: futures_util::task::AtomicWaker,
}

/// The output string queue with its waker slot, fed by anything that
/// prints and drained by the output task.
pub struct OutputStream {
    queue: crossbeam_queue::ArrayQueue<String>,
    waker: futures_util::task::AtomicWaker,
}

/// Relies on crossbeam's `ArrayQueue::new`: an empty queue with exactly the
/// requested capacity (zero or absurdly large capacities panic there, so
/// they are excluded here).
#[verifier::external_body]
fn raw_scancode_queue(capacity: usize) -> (q: crossbeam_queue::ArrayQueue<u8>)
    requires
        1 <= capacity <= 0x1000_0000,
    ensures
        scancode_queue_contents(q) == Seq::<u8>::empty(),
        scancode_queue_capacity(q) == capacity,
{
    crossbeam_queue::ArrayQueue::new(capacity)
}

/// Relies on crossbeam's `ArrayQueue::new`, as `raw_scancode_queue` does.
#[verifier::external_body]
fn raw_output_queue(capacity: usize) -> (q: crossbeam_queue::ArrayQueue<String>)
    requires
        1 <= capacity <= 0x1000_0000,
    ensures
        output_queue_contents(q) == Seq::<Seq<char>>::empty(),
        output_queue_capacity(q) == capacity,
{
    crossbeam_queue::ArrayQueue::new(capacity)
}

/// Relies on futures' `AtomicWaker::new`: a fresh empty waker slot.
#[verifier::external_body]
fn raw_atomic_waker() -> futures_util::task::AtomicWaker {
    futures_util::task::AtomicWaker::new()
}

impl ScancodeStream {
    /// The buffered scancodes, oldest first.
    pub closed spec fn contents(&self) -> Seq<u8> {
        scancode_queue_contents(self.queue)
    }

    /// The queue's bound.
    pub closed spec fn capacity(&self) -> nat {
        scancode_queue_capacity(self.queue)
    }

    /// Relies on crossbeam's `ArrayQueue::push`: appends at the back when
    /// there is room and reports success; hands the value back untouched
    /// when the queue is full.
    #[verifier::external_body]
    fn raw_push(&mut self, value: u8) -> (accepted: bool)
        ensures
            scancode_queue_capacity(final(self).queue) == scancode_queue_capacity(
                old(self).queue,
            ),
            accepted == (scancode_queue_contents(old(self).queue).len()
                < scancode_queue_capacity(old(self).queue)),
            scancode_queue_contents(final(self).queue) == bounded_push(
                scancode_queue_contents(old(self).queue),
                scancode_queue_capacity(old(self).queue),
                value,
            ),
    {
        self.queue.push(value).is_ok()
    }

    /// Relies on crossbeam's `ArrayQueue::pop`: removes and returns the
    /// oldest element, or nothing from an empty queue.
    #[verifier::external_body]
    fn raw_pop(&mut self) -> (r: Option<u8>)
        ensures
            scancode_queue_capacity(final(self).queue) == scancode_queue_capacity(
                old(self).queue,
            ),
            if scancode_queue_contents(old(self).queue).len() == 0 {
                r is None && scancode_queue_contents(final(self).queue)
                    == scancode_queue_contents(old(self).queue)
            } else {
                r == Some(scancode_queue_contents(old(self).queue)[0])
                    && scancode_queue_contents(final(self).queue) == scancode_queue_contents(
                    old(self).queue,
                ).skip(1)
            },
    {
        self.queue.pop()
    }

    /// Relies on futures' `AtomicWaker::register`: parks the waker in the
    /// slot; the queue itself is untouched.
    #[verifier::external_body]
    fn raw_register(&mut self, waker: &Waker)
        ensures
            scancode_queue_capacity(final(self).queue) == scancode_queue_capacity(
                old(self).queue,
            ),
            scancode_queue_contents(final(self).queue) == scancode_queue_contents(
                old(self).queue,
            ),
    {
        self.waker.register(waker);
    }

    /// Relies on futures' `AtomicWaker::take`: clears the slot; the queue
    /// itself is untouched.
    #[verifier::external_body]
    fn raw_take_waker(&mut self) -> (r: Option<Waker>)
        ensures
            scancode_queue_capacity(final(self).queue) == scancode_queue_capacity(
                old(self).queue,
            ),
            scancode_queue_contents(final(self).queue) == scancode_queue_contents(
                old(self).queue,
            ),
    {
        self.waker.take()
    }

    /// Relies on futures' `AtomicWaker::wake`: wakes whatever waker is
    /// parked, if any; waking with nothing parked is a harmless no-op.
    #[verifier::external_body]
    fn raw_wake(&self) {
        self.waker.wake();
    }

    /// An empty stream with the default capacity.
    pub fn new() -> (r: Self)
        ensures
            r.contents() == Seq::<u8>::empty(),
            r.capacity() == DEFAULT_SCANCODE_QUEUE_CAPACITY as nat,
    {
        ScancodeStream {
            queue: raw_scancode_queue(DEFAULT_SCANCODE_QUEUE_CAPACITY),
            waker: raw_atomic_waker(),
        }
    }

    /// An empty stream with a chosen capacity.
    pub fn with_capacity(capacity: usize) -> (r: Self)
        requires
            1 <= capacity <= 0x1000_0000,
        ensures
            r.contents() == Seq::<u8>::empty(),
            r.capacity() == capacity as nat,
    {
        ScancodeStream { queue: raw_scancode_queue(capacity), waker: raw_atomic_waker() }
    }

    /// The interrupt handler's push: never blocks. A full queue rejects the
    /// new scancode and reports it (the caller surfaces a warning); every
    /// accepted scancode wakes the consumer.
    pub fn add_scancode(&mut self, scancode: u8) -> (accepted: bool)
        ensures
            final(self).capacity() == old(self).capacity(),
            accepted == (old(self).contents().len() < old(self).capacity()),
            final(self).contents() == bounded_push(
                old(self).contents(),
                old(self).capacity(),
                scancode,
            ),
    {
        let accepted = self.raw_push(scancode);
        if accepted {
            self.raw_wake();
        }
        accepted
    }

    /// Takes the oldest buffered scancode, if any.
    pub fn pop(&mut self) -> (r: Option<u8>)
        ensures
            final(self).capacity() == old(self).capacity(),
            if old(self).contents().len() == 0 {
                r is None && final(self).contents() == old(self).contents()
            } else {
                r == Some(old(self).contents()[0]) && final(self).contents() == old(
                    self,
                ).contents().skip(1)
            },
    {
        self.raw_pop()
    }

    /// The consumer's poll: drain an item if one is already there;
    /// otherwise park the waker and check once more, so a push between the
    /// first check and the registration cannot be missed. `None` asks the
    /// task to suspend.
    pub fn poll_pop(&mut self, waker: &Waker) -> (r: Option<u8>)
        ensures
            final(self).capacity() == old(self).capacity(),
            if old(self).contents().len() == 0 {
                r is None && final(self).contents() == old(self).contents()
            } else {
                r == Some(old(self).contents()[0]) && final(self).contents() == old(
                    self,
                ).contents().skip(1)
            },
    {
        match self.raw_pop() {
            Some(code) => {
                return Some(code);
            },
            None => {},
        }

        self.raw_register(waker);

        match self.raw_pop() {
            Some(code) => {
                let _parked = self.raw_take_waker();
                Some(code)
            },
            None => None,
        }
    }
}

impl OutputStream {
    /// The buffered output strings, oldest first.
    pub closed spec fn contents(&self) -> Seq<Seq<char>> {
        output_queue_contents(self.queue)
    }

    /// The queue's bound.
    pub closed spec fn capacity(&self) -> nat {
        output_queue_capacity(self.queue)
    }

    /// Relies on crossbeam's `ArrayQueue::force_push`: appends at the back,
    /// evicting and returning the oldest element when the queue was full.
    #[verifier::external_body]
    fn raw_force_push(&mut self, value: String) -> (evicted: Option<String>)
        ensures
            output_queue_capacity(final(self).queue) == output_queue_capacity(old(self).queue),
            if output_queue_contents(old(self).queue).len() < output_queue_capacity(
                old(self).queue,
            ) {
                evicted is None && output_queue_contents(final(self).queue)
                    == output_queue_contents(old(self).queue).push(value@)
            } else {
                output_queue_contents(old(self).queue).len() > 0 && (evicted matches Some(e)
                    && e@ == output_queue_contents(old(self).queue)[0])
                    && output_queue_contents(final(self).queue) == output_queue_contents(
                    old(self).queue,
                ).skip(1).push(value@)
            },
    {
        self.queue.force_push(value)
    }

    /// Relies on crossbeam's `ArrayQueue::pop`, as the scancode side does.
    #[verifier::external_body]
    fn raw_pop(&mut self) -> (r: Option<String>)
        ensures
            output_queue_capacity(final(self).queue) == output_queue_capacity(old(self).queue),
            if output_queue_contents(old(self).queue).len() == 0 {
                r is None && output_queue_contents(final(self).queue) == output_queue_contents(
                    old(self).queue,
                )
            } else {
                (r matches Some(v) && v@ == output_queue_contents(old(self).queue)[0])
                    && output_queue_contents(final(self).queue) == output_queue_contents(
                    old(self).queue,
                ).skip(1)
            },
    {
        self.queue.pop()
    }

    /// Relies on futures' `AtomicWaker::register`, as the scancode side
    /// does.
    #[verifier::external_body]
    fn raw_register(&mut self, waker: &Waker)
        ensures
            output_queue_capacity(final(self).queue) == output_queue_capacity(old(self).queue),
            output_queue_contents(final(self).queue) == output_queue_contents(old(self).queue),
    {
        self.waker.register(waker);
    }

    /// Relies on futures' `AtomicWaker::take`, as the scancode side does.
    #[verifier::external_body]
    fn raw_take_waker(&mut self) -> (r: Option<Waker>)
        ensures
            output_queue_capacity(final(self).queue) == output_queue_capacity(old(self).queue),
            output_queue_contents(final(self).queue) == output_queue_contents(old(self).queue),
    {
        self.waker.take()
    }

    /// Relies on futures' `AtomicWaker::wake`, as the scancode side does.
    #[verifier::external_body]
    fn raw_wake(&self) {
        self.waker.wake();
    }

    /// An empty stream with the default capacity.
    pub fn new() -> (r: Self)
        ensures
            r.contents() == Seq::<Seq<char>>::empty(),
            r.capacity() == DEFAULT_OUTPUT_QUEUE_CAPACITY as nat,
    {
        OutputStream {
            queue: raw_output_queue(DEFAULT_OUTPUT_QUEUE_CAPACITY),
            waker: raw_atomic_waker(),
        }
    }

    /// An empty stream with a chosen capacity.
    pub fn with_capacity(capacity: usize) -> (r: Self)
        requires
            1 <= capacity <= 0x1000_0000,
        ensures
            r.contents() == Seq::<Seq<char>>::empty(),
            r.capacity() == capacity as nat,
    {
        OutputStream { queue: raw_output_queue(capacity), waker: raw_atomic_waker() }
    }

    /// A producer's push: never blocks. A full queue evicts its oldest
    /// entry, which is returned so the caller can surface a warning; the
    /// push itself always lands, so the consumer is woken in every case,
    /// eviction or not.
    pub fn add_output(&mut self, value: String) -> (evicted: Option<String>)
        ensures
            final(self).capacity() == old(self).capacity(),
            final(self).contents() == forced_push(
                old(self).contents(),
                old(self).capacity(),
                value@,
            ),
            (evicted is None) == (old(self).contents().len() < old(self).capacity()),
            evicted matches Some(e) ==> old(self).contents().len() > 0 && e@ == old(
                self,
            ).contents()[0],
    {
        let evicted = self.raw_force_push(value);
        self.raw_wake();
        evicted
    }

    /// Takes the oldest buffered string, if any.
    pub fn pop(&mut self) -> (r: Option<String>)
        ensures
            final(self).capacity() == old(self).capacity(),
            if old(self).contents().len() == 0 {
                r is None && final(self).contents() == old(self).contents()
            } else {
                (r matches Some(v) && v@ == old(self).contents()[0]) && final(self).contents()
                    == old(self).contents().skip(1)
            },
    {
        self.raw_pop()
    }

    /// The consumer's poll with the missed-wakeup double check, as on the
    /// scancode side.
    pub fn poll_pop(&mut self, waker: &Waker) -> (r: Option<String>)
        ensures
            final(self).capacity() == old(self).capacity(),
            if old(self).contents().len() == 0 {
                r is None && final(self).contents() == old(self).contents()
            } else {
                (r matches Some(v) && v@ == old(self).contents()[0]) && final(self).contents()
                    == old(self).contents().skip(1)
            },
    {
        match self.raw_pop() {
            Some(value) => {
                return Some(value);
            },
            None => {},
        }

        self.raw_register(waker);

        match self.raw_pop() {
            Some(value) => {
                let _parked = self.raw_take_waker();
                Some(value)
            },
            None => None,
        }
    }
}

/// What a whole burst of bounded pushes leaves behind.
pub open spec fn bounded_push_all<T>(contents: Seq<T>, capacity: nat, values: Seq<T>) -> Seq<T>
    decreases values.len(),
{
    if values.len() == 0 {
        contents
    } else {
        bounded_push_all(bounded_push(contents, capacity, values[0]), capacity, values.skip(1))
    }
}

/// What a whole burst of forced pushes leaves behind.
pub open spec fn forced_push_all<T>(contents: Seq<T>, capacity: nat, values: Seq<T>) -> Seq<T>
    decreases values.len(),
{
    if values.len() == 0 {
        contents
    } else {
        forced_push_all(forced_push(contents, capacity, values[0]), capacity, values.skip(1))
    }
}

proof fn lemma_bounded_push_all_general<T>(contents: Seq<T>, capacity: nat, values: Seq<T>)
    requires
        contents.len() <= capacity,
    ensures
        bounded_push_all(contents, capacity, values) =~= contents + values.take(
            if capacity - contents.len() < values.len() {
                capacity - contents.len()
            } else {
                values.len() as int
            },
        ),
    decreases values.len(),
{
    if values.len() != 0 {
        lemma_bounded_push_all_general(
            bounded_push(contents, capacity, values[0]),
            capacity,
            values.skip(1),
        );
    }
}

/// Law: pushing a burst of scancodes into an empty bounded queue keeps
/// exactly the oldest ones that fit, in arrival order; only the newest
/// excess is rejected.
pub proof fn lemma_bounded_queue_keeps_oldest<T>(capacity: nat, values: Seq<T>)
    ensures
        bounded_push_all(Seq::<T>::empty(), capacity, values) =~= values.take(
            if capacity < values.len() {
                capacity as int
            } else {
                values.len() as int
            },
        ),
{
    lemma_bounded_push_all_general(Seq::<T>::empty(), capacity, values);
}

proof fn lemma_forced_push_all_general<T>(contents: Seq<T>, capacity: nat, values: Seq<T>)
    requires
        capacity >= 1,
        contents.len() <= capacity,
    ensures
        forced_push_all(contents, capacity, values) =~= (contents + values).skip(
            if contents.len() + values.len() > capacity {
                contents.len() + values.len() - capacity
            } else {
                0
            },
        ),
    decreases values.len(),
{
    if values.len() != 0 {
        lemma_forced_push_all_general(
            forced_push(contents, capacity, values[0]),
            capacity,
            values.skip(1),
        );
        assert(forced_push(contents, capacity, values[0]) + values.skip(1) =~= (contents
            + values).skip(
            if contents.len() >= capacity {
                1int
            } else {
                0int
            },
        ));
    }
}

/// Law: pushing a burst of output strings into an empty evict-oldest queue
/// leaves exactly the most recent ones that fit, in order: the oldest
/// entries are evicted, and once the burst exceeds the capacity the queue
/// holds exactly its capacity's worth of the newest entries.
pub proof fn lemma_forced_queue_keeps_newest<T>(capacity: nat, values: Seq<T>)
    requires
        capacity >= 1,
    ensures
        forced_push_all(Seq::<T>::empty(), capacity, values) =~= values.skip(
            if values.len() > capacity {
                values.len() - capacity
            } else {
                0
            },
        ),
        values.len() >= capacity ==> forced_push_all(Seq::<T>::empty(), capacity, values).len()
            == capacity,
{
    lemma_forced_push_all_general(Seq::<T>::empty(), capacity, values);
}

/// The interrupt vectors the local interrupt controller is programmed
/// with.
#[derive(Debug, Clone, Copy, PartialEq, Eq, Structural)]
pub enum ApicInterruptIndex {
    Timer,
    Keyboard,
    Error,
    Spurious,
}

impl ApicInterruptIndex {
    /// The vector number each source is assigned.
    pub fn vector(self) -> (r: usize)
        ensures
            r == match self {
                ApicInterruptIndex::Timer => 32int,
                ApicInterruptIndex::Keyboard => 33int,
                ApicInterruptIndex::Error => 60int,
                ApicInterruptIndex::Spurious => 61int,
            },
    {
        match self {
            ApicInterruptIndex::Timer => 32,
            ApicInterruptIndex::Keyboard => 33,
            ApicInterruptIndex::Error => 60,
            ApicInterruptIndex::Spurious => 61,
        }
    }
}

/// The hardware interrupt-request lines routed through the I/O controller.
#[derive(Debug, Clone, Copy, PartialEq, Eq, Structural)]
pub enum IrqVector {
    Keyboard,
}

impl IrqVector {
    /// The request line's number.
    pub fn number(self) -> (r: u8)
        ensures
            r == 1,
    {
        match self {
            IrqVector::Keyboard => 1,
        }
    }
}

} // verus!
