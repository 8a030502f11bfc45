use std::sync::atomic::{AtomicUsize, Ordering};
use std::sync::Arc;
use std::task::{Wake, Waker};

use fbcon::bridge::{ApicInterruptIndex, IrqVector, OutputStream, ScancodeStream};

struct CountingWake {
    count: AtomicUsize,
}

impl Wake for CountingWake {
    fn wake(self: Arc<Self>) {
        self.count.fetch_add(1, Ordering::SeqCst);
    }
}

fn counting_waker() -> (Arc<CountingWake>, Waker) {
    let inner = Arc::new(CountingWake { count: AtomicUsize::new(0) });
    let waker = Waker::from(inner.clone());
    (inner, waker)
}

#[test]
fn scancode_overflow_rejects_the_newest() {
    let mut stream = ScancodeStream::with_capacity(5);

    for code in 0u8..8 {
        let accepted = stream.add_scancode(code);
        assert_eq!(accepted, code < 5);
    }

    // FIFO preserved for everything that fit; the excess is gone.
    for expected in 0u8..5 {
        assert_eq!(stream.pop(), Some(expected));
    }
    assert_eq!(stream.pop(), None);
}

#[test]
fn output_overflow_evicts_the_oldest() {
    let mut stream = OutputStream::with_capacity(3);

    assert!(stream.add_output("one".to_string()).is_none());
    assert!(stream.add_output("two".to_string()).is_none());
    assert!(stream.add_output("three".to_string()).is_none());

    let evicted = stream.add_output("four".to_string());
    assert_eq!(evicted, Some("one".to_string()));
    let evicted = stream.add_output("five".to_string());
    assert_eq!(evicted, Some("two".to_string()));

    // Exactly the capacity's worth of the most recent entries remain.
    assert_eq!(stream.pop(), Some("three".to_string()));
    assert_eq!(stream.pop(), Some("four".to_string()));
    assert_eq!(stream.pop(), Some("five".to_string()));
    assert_eq!(stream.pop(), None);
}

#[test]
fn accepted_scancode_wakes_the_consumer() {
    let mut stream = ScancodeStream::with_capacity(2);
    let (counter, waker) = counting_waker();

    // Parking the waker on an empty queue suspends.
    assert_eq!(stream.poll_pop(&waker), None);
    assert_eq!(counter.count.load(Ordering::SeqCst), 0);

    assert!(stream.add_scancode(42));
    assert_eq!(counter.count.load(Ordering::SeqCst), 1);

    assert_eq!(stream.poll_pop(&waker), Some(42));
}

#[test]
fn rejected_scancode_does_not_wake() {
    let mut stream = ScancodeStream::with_capacity(1);
    let (counter, waker) = counting_waker();

    assert_eq!(stream.poll_pop(&waker), None);
    assert!(stream.add_scancode(1));
    assert_eq!(counter.count.load(Ordering::SeqCst), 1);

    // The queue is full now: the push is rejected and nobody is woken.
    assert!(!stream.add_scancode(2));
    assert_eq!(counter.count.load(Ordering::SeqCst), 1);
}

#[test]
fn evicting_output_push_lands_and_wakes() {
    let mut stream = OutputStream::with_capacity(1);
    let (counter, waker) = counting_waker();

    assert_eq!(stream.poll_pop(&waker), None);
    assert!(stream.add_output("first".to_string()).is_none());
    assert_eq!(counter.count.load(Ordering::SeqCst), 1);

    // The queue is full. The next push lands by evicting the oldest; it is
    // a successful push and the wake runs too, though the slot was already
    // drained by the first wake, so there is nobody left to notify (a
    // redundant wake is a harmless no-op).
    assert_eq!(stream.add_output("second".to_string()), Some("first".to_string()));
    assert_eq!(counter.count.load(Ordering::SeqCst), 1);
    assert_eq!(stream.poll_pop(&waker), Some("second".to_string()));

    // With a waker parked again, the next push wakes again.
    assert_eq!(stream.poll_pop(&waker), None);
    assert!(stream.add_output("third".to_string()).is_none());
    assert_eq!(counter.count.load(Ordering::SeqCst), 2);
}

#[test]
fn output_poll_drains_in_order() {
    let mut stream = OutputStream::new();
    let (_counter, waker) = counting_waker();

    assert_eq!(stream.poll_pop(&waker), None);
    stream.add_output("a".to_string());
    stream.add_output("b".to_string());
    assert_eq!(stream.poll_pop(&waker), Some("a".to_string()));
    assert_eq!(stream.poll_pop(&waker), Some("b".to_string()));
    assert_eq!(stream.poll_pop(&waker), None);
}

#[test]
fn default_capacities_hold() {
    let mut scancodes = ScancodeStream::new();
    for code in 0u8..110 {
        let accepted = scancodes.add_scancode(code);
        assert_eq!(accepted, (code as usize) < 100);
    }

    let mut output = OutputStream::new();
    for i in 0..200 {
        assert!(output.add_output(format!("{i}")).is_none());
    }
    assert_eq!(output.add_output("extra".to_string()), Some("0".to_string()));
}

#[test]
fn interrupt_vector_numbers() {
    assert_eq!(ApicInterruptIndex::Timer.vector(), 32);
    assert_eq!(ApicInterruptIndex::Keyboard.vector(), 33);
    assert_eq!(ApicInterruptIndex::Error.vector(), 60);
    assert_eq!(ApicInterruptIndex::Spurious.vector(), 61);
    assert_eq!(IrqVector::Keyboard.number(), 1);
}
