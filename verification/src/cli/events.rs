//! The history of events.
use crate::cli::args::EventsArgs;
use crate::cli::types::OutputFormat;
use crate::cli::workspace::resolve_marker_target;
use crate::path::{join_path, path_below};
use crate::text::{str_eq, trimmed};
use vstd::prelude::*;

verus! {

/// A record of the history.
#[derive(Debug)]
pub struct HistoryRecord {
    pub iteration: u32,
    pub topic: String,
    /// The place of the record in the history.
    pub place: usize,
}

/// The file that holds the history: the given one, the one that the marker file names, or the
/// default one.
pub fn history_path(file: Option<&str>, marker: Option<&str>, workspace_root: &str) -> (r: String)
    ensures
        r@ == (match file {
            Some(path) => path@,
            None => match marker {
                Some(value) => path_below(workspace_root@, trimmed(value@)),
                None => path_below(workspace_root@, ".ralph/events.jsonl"@),
            },
        }),
{
    match file {
        Some(path) => path.to_owned(),
        None => match marker {
            Some(value) => resolve_marker_target(workspace_root, value),
            None => join_path(workspace_root, ".ralph/events.jsonl"),
        },
    }
}

/// Whether a record is asked for.
pub open spec fn matches_args(args: EventsArgs, record: HistoryRecord) -> bool {
    &&& args.topic matches Some(topic) ==> record.topic@ == topic@
    &&& args.iteration matches Some(iteration) ==> record.iteration == iteration
}

/// The last items of a sequence, this many.
pub open spec fn last_items<T>(s: Seq<T>, count: Option<usize>) -> Seq<T> {
    match count {
        Some(n) if s.len() > n => s.skip(s.len() - n),
        _ => s,
    }
}

fn asked_for(args: &EventsArgs, record: &HistoryRecord) -> (r: bool)
    ensures
        r == matches_args(*args, *record),
{
    if let Some(topic) = &args.topic {
        if !str_eq(record.topic.as_str(), topic.as_str()) {
            return false;
        }
    }
    if let Some(iteration) = args.iteration {
        if record.iteration != iteration {
            return false;
        }
    }
    true
}

/// The places of the records that are shown: of those that are asked for, the last ones.
pub open spec fn shown_places(args: EventsArgs, records: Seq<HistoryRecord>) -> Seq<usize> {
    last_items(
        records.filter(|record: HistoryRecord| matches_args(args, record)).map_values(
            |record: HistoryRecord| record.place,
        ),
        args.last,
    )
}

/// Selects the records that are shown.
pub fn select_records(args: &EventsArgs, records: &Vec<HistoryRecord>) -> (r: Vec<usize>)
    ensures
        r@ == shown_places(*args, records@),
{
    let ghost pred = |record: HistoryRecord| matches_args(*args, record);
    let ghost at = |record: HistoryRecord| record.place;
    let mut places: Vec<usize> = Vec::new();
    let mut i: usize = 0;
    assert(places@ == records@.take(0).filter(pred).map_values(at)) by {
        reveal(Seq::filter);
    }
    while i < records.len()
        invariant
            i <= records.len(),
            pred == (|record: HistoryRecord| matches_args(*args, record)),
            at == (|record: HistoryRecord| record.place),
            places@ == records@.take(i as int).filter(pred).map_values(at),
        decreases records.len() - i,
    {
        proof {
            reveal(Seq::filter);
            assert(records@.take(i + 1).drop_last() == records@.take(i as int));
            assert(records@.take(i + 1).last() == records@[i as int]);
            let kept = records@.take(i as int).filter(pred);
            assert(kept.push(records@[i as int]).map_values(at) == kept.map_values(at).push(
                records@[i as int].place,
            ));
        }
        if asked_for(args, &records[i]) {
            places.push(records[i].place);
        }
        i = i + 1;
    }
    assert(records@.take(i as int) == records@);
    match args.last {
        Some(n) => if places.len() > n {
            let from: usize = places.len() - n;
            let ghost all = places@;
            let rest = places.split_off(from);
            assert(rest@ == all.skip(from as int));
            rest
        } else {
            places
        },
        None => places,
    }
}

/// What is told of the history.
#[derive(Debug)]
pub enum EventsOutput {
    /// The history is to be removed.
    Clear,
    /// There is no history.
    NoHistory,
    /// No record is asked for.
    NoMatch,
    /// The records at some places.
    Json(Vec<usize>),
    Table(Vec<usize>),
}

/// Decides what is told of the history. `records` is the history, where there is one.
pub fn run(args: &EventsArgs, records: Option<&Vec<HistoryRecord>>) -> (r: EventsOutput)
    ensures
        if args.clear {
            r is Clear
        } else {
            match records {
                None => r is NoHistory,
                Some(records) => {
                    let shown = shown_places(*args, records@);
                    if shown.len() == 0 {
                        r is NoMatch
                    } else {
                        match args.format {
                            OutputFormat::Json => r matches EventsOutput::Json(places) && places@
                                == shown,
                            OutputFormat::Table => r matches EventsOutput::Table(places) && places@
                                == shown,
                        }
                    }
                },
            }
        },
{
    if args.clear {
        return EventsOutput::Clear;
    }
    match records {
        None => EventsOutput::NoHistory,
        Some(records) => {
            let places = select_records(args, records);
            if places.len() == 0 {
                return EventsOutput::NoMatch;
            }
            match args.format {
                OutputFormat::Json => EventsOutput::Json(places),
                OutputFormat::Table => EventsOutput::Table(places),
            }
        },
    }
}

} // verus!
