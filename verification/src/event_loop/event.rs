//! Events, and what is read of them from the events file.
use crate::text::opt_text;
use vstd::prelude::*;

verus! {

/// An event on the bus.
#[derive(Debug)]
pub struct Event {
    pub topic: String,
    pub payload: String,
    /// The hat that published the event.
    pub source: Option<String>,
    /// The hat that the event is directed at.
    pub target: Option<String>,
}

/// The plain values of an [`Event`].
#[verifier::ext_equal]
pub struct EventView {
    pub topic: Seq<char>,
    pub payload: Seq<char>,
    pub source: Option<Seq<char>>,
    pub target: Option<Seq<char>>,
}

impl View for Event {
    type V = EventView;

    open spec fn view(&self) -> EventView {
        EventView {
            topic: self.topic@,
            payload: self.payload@,
            source: opt_text(self.source),
            target: opt_text(self.target),
        }
    }
}

/// An event of a topic and a payload alone.
pub open spec fn plain_event(topic: Seq<char>, payload: Seq<char>) -> EventView {
    EventView { topic, payload, source: None, target: None }
}

/// The plain values of events.
pub open spec fn event_views(events: Seq<Event>) -> Seq<EventView> {
    Seq::new(events.len(), |i: int| events[i]@)
}

impl Event {
    /// An event of a topic and a payload.
    pub fn new(topic: &str, payload: &str) -> (r: Event)
        ensures
            r@ == plain_event(topic@, payload@),
    {
        Event { topic: topic.to_owned(), payload: payload.to_owned(), source: None, target: None }
    }

    /// Names the hat that published the event.
    pub fn with_source(self, source: &str) -> (r: Event)
        ensures
            r@ == (EventView { source: Some(source@), ..self@ }),
    {
        Event {
            topic: self.topic,
            payload: self.payload,
            source: Some(source.to_owned()),
            target: self.target,
        }
    }

    /// Directs the event at a hat.
    pub fn with_target(self, target: &str) -> (r: Event)
        ensures
            r@ == (EventView { target: Some(target@), ..self@ }),
    {
        Event {
            topic: self.topic,
            payload: self.payload,
            source: self.source,
            target: Some(target.to_owned()),
        }
    }
}

fn clone_opt(o: &Option<String>) -> (r: Option<String>)
    ensures
        r == *o,
{
    match o {
        Some(s) => Some(s.clone()),
        None => None,
    }
}

impl Clone for Event {
    fn clone(&self) -> (r: Self)
        ensures
            r == *self,
    {
        Event {
            topic: self.topic.clone(),
            payload: self.payload.clone(),
            source: clone_opt(&self.source),
            target: clone_opt(&self.target),
        }
    }
}

/// Puts an event behind others.
pub fn push_event(events: &mut Vec<Event>, event: Event)
    ensures
        event_views(final(events)@) == event_views(old(events)@).push(event@),
        final(events)@ == old(events)@.push(event),
{
    events.push(event);
    assert(event_views(events@) == event_views(old(events)@).push(event@));
}

/// Puts events behind others.
pub fn append_events(events: &mut Vec<Event>, more: &Vec<Event>)
    ensures
        event_views(final(events)@) == event_views(old(events)@) + event_views(more@),
{
    let mut i: usize = 0;
    let ghost start = event_views(events@);
    let ghost all = event_views(more@);
    assert(start + all.take(0) == start);
    while i < more.len()
        invariant
            i <= more.len(),
            all == event_views(more@),
            event_views(events@) == start + all.take(i as int),
        decreases more.len() - i,
    {
        push_event(events, more[i].clone());
        assert(all.take(i + 1) == all.take(i as int).push(all[i as int]));
        assert(start + all.take(i + 1) == (start + all.take(i as int)).push(all[i as int]));
        i = i + 1;
    }
    assert(all.take(i as int) == all);
}

/// What the payload of an event shows of the checks that it reports.
#[derive(Debug, Clone, Copy, PartialEq, Eq, Structural)]
pub enum Evidence {
    /// The payload reports no checks.
    Missing,
    /// The payload reports checks, and not all of them passed.
    Failed,
    /// The payload reports checks, and all of them passed.
    Passed,
}

/// An event as it is read from the events file.
#[derive(Debug)]
pub struct IncomingEvent {
    pub topic: String,
    pub payload: Option<String>,
    /// The wave that the event belongs to.
    pub wave_id: Option<String>,
    /// What the payload shows of the checks that events of the topic report.
    pub evidence: Evidence,
}

/// The plain values of an [`IncomingEvent`].
pub struct IncomingView {
    pub topic: Seq<char>,
    pub payload: Option<Seq<char>>,
    pub wave_id: Option<Seq<char>>,
    pub evidence: Evidence,
}

impl View for IncomingEvent {
    type V = IncomingView;

    open spec fn view(&self) -> IncomingView {
        IncomingView {
            topic: self.topic@,
            payload: opt_text(self.payload),
            wave_id: opt_text(self.wave_id),
            evidence: self.evidence,
        }
    }
}

impl Clone for IncomingEvent {
    fn clone(&self) -> (r: Self)
        ensures
            r == *self,
    {
        IncomingEvent {
            topic: self.topic.clone(),
            payload: clone_opt(&self.payload),
            wave_id: clone_opt(&self.wave_id),
            evidence: self.evidence,
        }
    }
}

/// The plain values of incoming events.
pub open spec fn incoming_views(events: Seq<IncomingEvent>) -> Seq<IncomingView> {
    Seq::new(events.len(), |i: int| events[i]@)
}

/// A line of the events file that is no event.
#[derive(Debug)]
pub struct MalformedLine {
    pub line_number: u64,
    pub error: String,
    pub content: String,
}

/// What was read from the events file.
#[derive(Debug)]
pub struct ParseResult {
    pub events: Vec<IncomingEvent>,
    pub malformed: Vec<MalformedLine>,
}

/// The plain values of a [`ParseResult`].
pub struct ReadView {
    pub events: Seq<IncomingView>,
    pub malformed: Seq<MalformedLine>,
}

impl View for ParseResult {
    type V = ReadView;

    open spec fn view(&self) -> ReadView {
        ReadView { events: incoming_views(self.events@), malformed: self.malformed@ }
    }
}

} // verus!
