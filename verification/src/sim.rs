//! Running a simulation: the record stream and where its records go.

pub mod consumer;
pub mod endpoints;
pub mod lines;
pub mod problem;
pub mod sink;

use crate::sim::consumer::StreamConsumer;
use crate::sim::sink::{SimulationSink, SinkAction};
use vstd::prelude::*;

verus! {

/// A JSON value, held as its compact text.
#[derive(Clone, Debug)]
pub struct JsonValue {
    pub text: String,
}

/// The string that the JSON text `text` stands for; `None` where `text` is
/// not one JSON string and nothing else.
pub uninterp spec fn json_string_value(text: Seq<char>) -> Option<Seq<char>>;

/// `serde_json::from_str::<String>`, its error dropped: the string that `text`
/// encodes. Whether there is one, and which, depends on `text` alone.
#[verifier::external_body]
pub(crate) fn decode_json_string(text: &str) -> (r: Option<String>)
    ensures
        match r {
            Some(string) => json_string_value(text@) == Some(string@),
            None => json_string_value(text@) is None,
        },
{
    serde_json::from_str::<String>(text).ok()
}

/// One event of a run's stream.
///
/// `id` numbers the events of a run in increasing order and is the cursor
/// from which a dropped stream is resumed.
#[derive(Clone, Debug)]
#[allow(inconsistent_fields)]
pub enum EventData {
    /// A generated record of `entity`, the `offset`-th of its stream.
    Create { id: u64, entity: String, offset: i64, value: JsonValue },
    /// A problem that the service met while generating, tied to a record where
    /// `entity`, `offset` and `path` are given.
    Error {
        id: u64,
        entity: Option<String>,
        offset: Option<i64>,
        path: Option<Vec<String>>,
        message: String,
    },
}

impl EventData {
    /// The event's sequence number.
    pub open spec fn event_id(&self) -> u64 {
        match self {
            EventData::Create { id, .. } => *id,
            EventData::Error { id, .. } => *id,
        }
    }

    /// The event's sequence number.
    pub fn id(&self) -> (r: u64)
        ensures
            r == self.event_id(),
    {
        match self {
            EventData::Create { id, .. } => *id,
            EventData::Error { id, .. } => *id,
        }
    }
}

/// Takes an event that was decoded from the stream: the cursor moves to the
/// event's id, and the sink decides what is to be done with the event. The
/// cursor moves whatever the sink decides.
pub fn deliver(consumer: &mut StreamConsumer, sink: &SimulationSink, event: EventData) -> (r:
    SinkAction)
    ensures
        final(consumer)@ == old(consumer)@.after_event(event.event_id()),
        final(consumer)@.wf(),
        r@ == sink@.action_for(event),
        r matches SinkAction::Write { sink: position, .. } ==> position < sink@.sinks.len(),
{
    consumer.on_event(&event);
    sink.write_event(event)
}

} // verus!
