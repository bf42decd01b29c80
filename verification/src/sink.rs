//! Event sinks: the capabilities the bridge invokes to deliver events.
//!
//! A sink is bound to one channel name or one session id at a time. When a
//! sink is replaced it first receives a terminal close notification, and the
//! bridge never invokes a closed sink again. Sinks are implemented by the
//! host runtime; [`RecordingSink`] is a verified implementation that records
//! what it is handed.
use vstd::prelude::*;

verus! {

/// A registered callback capability that delivers events to one external
/// consumer.
///
/// `delivered` abstracts the events handed to the sink so far, in order;
/// `outcomes` whether the far side accepted each of them, so a caller's
/// report of an invocation failure can be held to what the sink answered;
/// `is_closed` whether the sink has received its terminal close
/// notification. A sink records every event it is handed, whether or not the
/// far side accepted it.
pub trait EventSink: Sized {
    /// The events handed to this sink so far, oldest first.
    spec fn delivered(&self) -> Seq<Seq<char>>;

    /// For each delivered event, whether the far side accepted it.
    spec fn outcomes(&self) -> Seq<bool>;

    /// Whether this sink has received its terminal close notification.
    spec fn is_closed(&self) -> bool;

    /// Delivers one event. Must not be called once the sink is closed.
    /// Returns whether the far side accepted the event; the recorded outcome
    /// is exactly that answer.
    fn on_event(&mut self, event: String) -> (accepted: bool)
        requires
            !old(self).is_closed(),
        ensures
            final(self).delivered() == old(self).delivered().push(event@),
            final(self).outcomes() == old(self).outcomes().push(accepted),
            !final(self).is_closed(),
    ;

    /// Delivers the terminal close notification, after which the sink is
    /// never invoked again.
    fn on_close(&mut self)
        ensures
            final(self).is_closed(),
            final(self).delivered() == old(self).delivered(),
            final(self).outcomes() == old(self).outcomes(),
    ;
}

/// A sink that records the events it is handed; its acceptance answer is
/// fixed at construction, so a far side that has gone away can be played
/// out as well as one that accepts everything.
pub struct RecordingSink {
    events: Vec<String>,
    answers: Vec<bool>,
    accepting: bool,
    closed: bool,
}

impl RecordingSink {
    /// Creates an open sink with nothing delivered that accepts every event.
    pub fn new() -> (sink: Self)
        ensures
            sink.delivered() == Seq::<Seq<char>>::empty(),
            sink.outcomes() == Seq::<bool>::empty(),
            !sink.is_closed(),
            sink.accepts(),
    {
        RecordingSink { events: Vec::new(), answers: Vec::new(), accepting: true, closed: false }
    }

    /// Creates an open sink with nothing delivered that reports every event
    /// as not accepted, standing for a far side that has gone away.
    pub fn new_rejecting() -> (sink: Self)
        ensures
            sink.delivered() == Seq::<Seq<char>>::empty(),
            sink.outcomes() == Seq::<bool>::empty(),
            !sink.is_closed(),
            !sink.accepts(),
    {
        RecordingSink { events: Vec::new(), answers: Vec::new(), accepting: false, closed: false }
    }

    /// Whether this sink reports events as accepted.
    pub closed spec fn accepts(&self) -> bool {
        self.accepting
    }

    /// How many events have been handed to this sink.
    pub fn delivered_len(&self) -> (n: usize)
        ensures
            n == self.delivered().len(),
    {
        self.events.len()
    }

    /// The `i`-th event handed to this sink, oldest first.
    pub fn delivered_at(&self, i: usize) -> (event: &String)
        requires
            i < self.delivered().len(),
        ensures
            event@ == self.delivered()[i as int],
    {
        &self.events[i]
    }

    /// Whether this sink has received its terminal close notification.
    pub fn was_closed(&self) -> (closed: bool)
        ensures
            closed == self.is_closed(),
    {
        self.closed
    }
}

impl EventSink for RecordingSink {
    closed spec fn delivered(&self) -> Seq<Seq<char>> {
        self.events.deep_view()
    }

    closed spec fn outcomes(&self) -> Seq<bool> {
        self.answers@
    }

    closed spec fn is_closed(&self) -> bool {
        self.closed
    }

    fn on_event(&mut self, event: String) -> (accepted: bool) {
        self.events.push(event);
        self.answers.push(self.accepting);
        proof {
            assert(self.events.deep_view() =~= old(self).events.deep_view().push(
                self.events@.last()@,
            ));
        }
        self.accepting
    }

    fn on_close(&mut self) {
        self.closed = true;
    }
}

} // verus!
