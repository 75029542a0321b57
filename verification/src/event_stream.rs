//! A stream of events that ends with a result.

use vstd::prelude::*;

verus! {

/// A stream of events of which one may carry the result. `W` is one who waits for the result.
pub struct EventStream<T, R, W> {
    /// Events that were pushed and not read.
    queue: Vec<T>,
    /// Whether events are still taken.
    open: bool,
    value: Option<R>,
    waiter: Option<W>,
}

/// What an `EventStream` is.
#[verifier::ext_equal]
pub struct EventStreamView<T, R, W> {
    pub queue: Seq<T>,
    pub open: bool,
    pub value: Option<R>,
    pub waiter: Option<W>,
}

impl<T, R, W> View for EventStream<T, R, W> {
    type V = EventStreamView<T, R, W>;

    closed spec fn view(&self) -> EventStreamView<T, R, W> {
        EventStreamView {
            queue: self.queue@,
            open: self.open,
            value: self.value,
            waiter: self.waiter,
        }
    }
}

impl<T, R, W> EventStreamView<T, R, W> {
    /// With a result: it goes to the one who waits for it, or is kept.
    pub open spec fn resolved(self, value: R) -> (Self, Option<(W, R)>) {
        match self.waiter {
            Some(waiter) => (EventStreamView { waiter: None, ..self }, Some((waiter, value))),
            None => (EventStreamView { value: Some(value), ..self }, None),
        }
    }

    /// With one who waits for the result.
    pub open spec fn awaited(self, waiter: W) -> Self {
        EventStreamView { waiter: Some(waiter), ..self }
    }

    /// After someone asks for the result, and who is to get it at once.
    pub open spec fn asked(self, waiter: W) -> (Self, Option<(W, R)>) {
        match self.value {
            Some(value) => (EventStreamView { value: None, ..self }, Some((waiter, value))),
            None => (self.awaited(waiter), None),
        }
    }

    /// After a reader asks for the next event, and what the reader gets.
    pub open spec fn polled(self) -> (Self, Polled<T>) {
        if self.queue.len() > 0 {
            (EventStreamView { queue: self.queue.skip(1), ..self }, Polled::Item(self.queue[0]))
        } else if self.open {
            (self, Polled::Pending)
        } else {
            (self, Polled::Ended)
        }
    }

    /// After an event that has a result or none. An event with a result is the last.
    pub open spec fn pushed(self, event: T, result: Option<R>) -> (Self, Option<(W, R)>) {
        let (next, handed) = match result {
            Some(value) => self.resolved(value),
            None => (self, None),
        };
        (
            EventStreamView {
                queue: if self.open {
                    self.queue.push(event)
                } else {
                    self.queue
                },
                open: self.open && result is None,
                ..next
            },
            handed,
        )
    }

    /// After the end, with a result or without one.
    pub open spec fn ended(self, result: Option<R>) -> (Self, Option<(W, R)>) {
        let (next, handed) = match result {
            Some(value) => self.resolved(value),
            None => (self, None),
        };
        (EventStreamView { open: false, ..next }, handed)
    }
}

/// What a reader of the stream gets.
#[derive(Debug, PartialEq)]
pub enum Polled<T> {
    Item(T),
    /// There will be no more events.
    Ended,
    /// There is no event yet.
    Pending,
}

impl<T, R, W> EventStream<T, R, W> {
    pub fn new() -> (r: Self)
        ensures
            r@ == (EventStreamView::<T, R, W> {
                queue: Seq::empty(),
                open: true,
                value: None,
                waiter: None,
            }),
    {
        EventStream { queue: Vec::new(), open: true, value: None, waiter: None }
    }

    /// Gives the one who waits for the result, and the result, where someone waits.
    fn resolve(&mut self, value: R) -> (r: Option<(W, R)>)
        ensures
            (final(self)@, r) == old(self)@.resolved(value),
    {
        match self.waiter.take() {
            Some(waiter) => Some((waiter, value)),
            None => {
                self.value = Some(value);
                None
            },
        }
    }

    /// Adds an event; `result` is the result where the event completes the stream. Gives the one
    /// to hand the result to, if there is one.
    pub fn push(&mut self, event: T, result: Option<R>) -> (r: Option<(W, R)>)
        ensures
            (final(self)@, r) == old(self)@.pushed(event, result),
    {
        let complete = result.is_some();
        let handed = match result {
            Some(value) => self.resolve(value),
            None => None,
        };
        if self.open {
            self.queue.push(event);
        }
        if complete {
            self.open = false;
        }
        handed
    }

    /// Ends the stream.
    pub fn end(&mut self, result: Option<R>) -> (r: Option<(W, R)>)
        ensures
            (final(self)@, r) == old(self)@.ended(result),
    {
        let handed = match result {
            Some(value) => self.resolve(value),
            None => None,
        };
        self.open = false;
        handed
    }

    /// Waits for the result: a result that is kept is handed out at once; else the waiter takes
    /// the place of any other.
    pub fn result_handle(&mut self, waiter: W) -> (r: Option<(W, R)>)
        ensures
            match old(self)@.value {
                Some(value) => r == Some((waiter, value)) && final(self)@ == (EventStreamView {
                    value: None,
                    ..old(self)@
                }),
                None => r is None && final(self)@ == old(self)@.awaited(waiter),
            },
            (final(self)@, r) == old(self)@.asked(waiter),
    {
        match self.value.take() {
            Some(value) => Some((waiter, value)),
            None => {
                self.waiter = Some(waiter);
                None
            },
        }
    }

    /// The next event.
    pub fn poll_next(&mut self) -> (r: Polled<T>)
        ensures
            if old(self)@.queue.len() > 0 {
                r == Polled::Item(old(self)@.queue[0]) && final(self)@ == (EventStreamView {
                    queue: old(self)@.queue.skip(1),
                    ..old(self)@
                })
            } else {
                &&& old(self)@.open ==> r is Pending
                &&& !old(self)@.open ==> r is Ended
                &&& final(self)@ == old(self)@
            },
            (final(self)@, r) == old(self)@.polled(),
    {
        if self.queue.len() > 0 {
            let item = self.queue.remove(0);
            assert(self.queue@ =~= old(self)@.queue.skip(1));
            Polled::Item(item)
        } else if self.open {
            Polled::Pending
        } else {
            Polled::Ended
        }
    }
}

/// The result of the event that completes the stream reaches the one who waits for it, whether the
/// wait began before the event or after it.
pub proof fn law_result_reaches_its_waiter<T, R, W>(
    stream: EventStreamView<T, R, W>,
    event: T,
    value: R,
    waiter: W,
)
    requires
        stream.value is None,
        stream.waiter is None,
    ensures
        stream.awaited(waiter).pushed(event, Some(value)).1 == Some((waiter, value)),
        stream.pushed(event, Some(value)).0.value == Some(value),
{
}

/// After the event that completes the stream, nothing is added; the events before it and that
/// event itself are still read, in order.
pub proof fn law_completed_stream_takes_no_more<T, R, W>(
    stream: EventStreamView<T, R, W>,
    event: T,
    value: R,
    late: T,
    result: Option<R>,
)
    requires
        stream.open,
    ensures
        stream.pushed(event, Some(value)).0.queue == stream.queue.push(event),
        stream.pushed(event, Some(value)).0.pushed(late, result).0.queue == stream.queue.push(
            event,
        ),
        !stream.pushed(event, Some(value)).0.pushed(late, result).0.open,
{
}

} // verus!
