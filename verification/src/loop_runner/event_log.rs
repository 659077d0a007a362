//! Records for the history of events.
use crate::debug::{debug_list, debug_texts};
use crate::event_loop::event::{event_views, plain_event, Event, EventView};
use crate::event_loop::registry::{Hat, HatRegistry};
use crate::text::{opt_text, str_eq, texts, unique, without_repeats};
use vstd::prelude::*;

verus! {

/// A record for the history of events.
#[derive(Debug)]
pub struct LogRecord {
    pub iteration: u32,
    /// The hat that published the event, or `loop`.
    pub hat: String,
    pub event: Event,
    /// The hat that the event triggers.
    pub triggered: Option<String>,
}

/// The plain values of a [`LogRecord`].
pub struct RecordView {
    pub iteration: u32,
    pub hat: Seq<char>,
    pub event: EventView,
    pub triggered: Option<Seq<char>>,
}

impl View for LogRecord {
    type V = RecordView;

    open spec fn view(&self) -> RecordView {
        RecordView {
            iteration: self.iteration,
            hat: self.hat@,
            event: self.event@,
            triggered: opt_text(self.triggered),
        }
    }
}

/// The plain values of records.
pub open spec fn record_views(records: Seq<LogRecord>) -> Seq<RecordView> {
    records.map_values(|record: LogRecord| record@)
}

/// The topics that hats subscribe to, hat by hat, without the wildcard.
pub open spec fn subscribed_topics(hats: Seq<Hat>) -> Seq<Seq<char>>
    decreases hats.len(),
{
    if hats.len() == 0 {
        Seq::empty()
    } else {
        subscribed_topics(hats.drop_last()) + texts(hats.last().subscriptions@).filter(
            |topic: Seq<char>| topic != "*"@,
        )
    }
}

fn without_wildcard(topics: &Vec<String>) -> (r: Vec<String>)
    ensures
        texts(r@) == texts(topics@).filter(|topic: Seq<char>| topic != "*"@),
{
    let ghost pred = |topic: Seq<char>| topic != "*"@;
    let ghost all = texts(topics@);
    let mut r: Vec<String> = Vec::new();
    let mut i: usize = 0;
    assert(all.take(0).filter(pred) == texts(r@)) by {
        reveal(Seq::filter);
    }
    while i < topics.len()
        invariant
            i <= topics.len(),
            all == texts(topics@),
            pred == (|topic: Seq<char>| topic != "*"@),
            texts(r@) == all.take(i as int).filter(pred),
        decreases topics.len() - i,
    {
        let ghost kept = r@;
        proof {
            reveal(Seq::filter);
            assert(all.take(i + 1).drop_last() == all.take(i as int));
            assert(all.take(i + 1).last() == topics@[i as int]@);
        }
        if !str_eq(topics[i].as_str(), "*") {
            r.push(topics[i].clone());
            assert(texts(r@) == texts(kept).push(topics@[i as int]@));
        }
        i = i + 1;
    }
    assert(all.take(i as int) == all);
    r
}

/// Lists the topics that lead anywhere, each once.
pub fn valid_topics(registry: &HatRegistry) -> (r: Vec<String>)
    ensures
        texts(r@) == without_repeats(subscribed_topics(registry.hats@)),
{
    let mut topics: Vec<String> = Vec::new();
    let mut i: usize = 0;
    assert(texts(topics@) == subscribed_topics(registry.hats@.take(0)));
    while i < registry.hats.len()
        invariant
            i <= registry.hats.len(),
            texts(topics@) == subscribed_topics(registry.hats@.take(i as int)),
        decreases registry.hats.len() - i,
    {
        proof {
            assert(registry.hats@.take(i + 1).drop_last() == registry.hats@.take(i as int));
            assert(registry.hats@.take(i + 1).last() == registry.hats@[i as int]);
        }
        let ghost before = topics@;
        let mut more = without_wildcard(&registry.hats[i].subscriptions);
        let ghost added = more@;
        topics.append(&mut more);
        assert(texts(topics@) == texts(before) + texts(added));
        i = i + 1;
    }
    assert(registry.hats@.take(i as int) == registry.hats@);
    unique(&topics)
}

/// The report of an event that triggers no hat.
pub open spec fn orphan_event(
    registry: HatRegistry,
    hat: Seq<char>,
    topic: Seq<char>,
) -> EventView {
    EventView {
        source: Some(hat),
        ..plain_event(
            "event.orphaned"@,
            "Event '"@ + topic + "' has no subscriber hat. Valid events to publish: "@ + debug_list(
                without_repeats(subscribed_topics(registry.hats@)),
            ),
        )
    }
}

/// The records of one event of an output: an event that triggers no hat is reported before it.
pub open spec fn records_of(
    registry: HatRegistry,
    iteration: u32,
    hat: Seq<char>,
    event: EventView,
) -> Seq<RecordView> {
    let record = RecordView {
        iteration,
        hat,
        event,
        triggered: registry.triggered(event.topic),
    };
    if registry.triggered(event.topic) is Some {
        seq![record]
    } else {
        seq![
            RecordView {
                iteration,
                hat: "loop"@,
                event: orphan_event(registry, hat, event.topic),
                triggered: None,
            },
            record,
        ]
    }
}

/// The records of the events of an output.
pub open spec fn records_of_output(
    registry: HatRegistry,
    iteration: u32,
    hat: Seq<char>,
    events: Seq<EventView>,
) -> Seq<RecordView>
    decreases events.len(),
{
    if events.len() == 0 {
        Seq::empty()
    } else {
        records_of_output(registry, iteration, hat, events.drop_last()) + records_of(
            registry,
            iteration,
            hat,
            events.last(),
        )
    }
}

fn make_orphan(registry: &HatRegistry, hat_id: &str, topic: &str) -> (r: Event)
    ensures
        r@ == orphan_event(*registry, hat_id@, topic@),
{
    let topics = valid_topics(registry);
    let mut payload = "Event '".to_owned();
    payload.append(topic);
    payload.append("' has no subscriber hat. Valid events to publish: ");
    payload.append(debug_texts(&topics).as_str());
    Event::new("event.orphaned", payload.as_str()).with_source(hat_id)
}

/// Makes the records of the events of an output.
pub fn log_events_from_output(
    registry: &HatRegistry,
    iteration: u32,
    hat_id: &str,
    events: &Vec<Event>,
) -> (r: Vec<LogRecord>)
    ensures
        record_views(r@) == records_of_output(
            *registry,
            iteration,
            hat_id@,
            event_views(events@),
        ),
{
    let ghost all = event_views(events@);
    let mut r: Vec<LogRecord> = Vec::new();
    let mut i: usize = 0;
    assert(record_views(r@) == records_of_output(*registry, iteration, hat_id@, all.take(0)));
    while i < events.len()
        invariant
            i <= events.len(),
            all == event_views(events@),
            record_views(r@) == records_of_output(
                *registry,
                iteration,
                hat_id@,
                all.take(i as int),
            ),
        decreases events.len() - i,
    {
        proof {
            assert(all.take(i + 1).drop_last() == all.take(i as int));
            assert(all.take(i + 1).last() == events@[i as int]@);
        }
        let ghost before = record_views(r@);
        let topic = events[i].topic.as_str();
        let triggered = match registry.find_by_trigger(topic) {
            Some(hat) => Some(hat.to_owned()),
            None => {
                let event = make_orphan(registry, hat_id, topic);
                r.push(LogRecord { iteration, hat: "loop".to_owned(), event, triggered: None });
                None
            },
        };
        r.push(
            LogRecord { iteration, hat: hat_id.to_owned(), event: events[i].clone(), triggered },
        );
        assert(record_views(r@) == before + records_of(
            *registry,
            iteration,
            hat_id@,
            events@[i as int]@,
        ));
        i = i + 1;
    }
    assert(all.take(i as int) == all);
    r
}

/// Makes the record of the end of a loop.
pub fn log_terminate_event(iteration: u32, event: Event) -> (r: LogRecord)
    ensures
        r@ == (RecordView { iteration, hat: "loop"@, event: event@, triggered: None }),
{
    LogRecord { iteration, hat: "loop".to_owned(), event, triggered: None }
}

/// Makes the record of the start of a loop.
pub fn log_start_event(topic: &str, prompt: &str) -> (r: LogRecord)
    ensures
        r@ == (RecordView {
            iteration: 0,
            hat: "loop"@,
            event: plain_event(topic@, prompt@),
            triggered: Some("planner"@),
        }),
{
    LogRecord {
        iteration: 0,
        hat: "loop".to_owned(),
        event: Event::new(topic, prompt),
        triggered: Some("planner".to_owned()),
    }
}

} // verus!
