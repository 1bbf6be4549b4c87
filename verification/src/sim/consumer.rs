//! The consumer of a run's record stream, as a state machine.
//!
//! The consumer owns what has to survive a dropped connection: the cursor and
//! the phase of the exchange. Whoever drives it sends the request that it
//! asks for, and hands it the status, the chunks of the body and the events
//! decoded from the records that it frames.

use crate::sim::lines::{
    complete_lines, lines_of_chunks, partial_line, records, records_of, lemma_chunking_is_invisible,
    LineBuffer, NEWLINE,
};
use crate::sim::EventData;
use crate::util::text::{decimal, decimal_u64, string_views};
use vstd::prelude::*;

verus! {

/// Where the exchange with the stream endpoint stands.
#[derive(Clone, Copy, Debug, PartialEq, Eq, Structural)]
pub enum Phase {
    /// No connection is open: the next request has to be sent.
    Connecting,
    /// A response body is being received.
    Receiving,
    /// The endpoint answered that the run is exhausted.
    Finished,
    /// The endpoint refused the request; the run has failed.
    Failed,
}

/// What a response status means for the stream.
#[derive(Clone, Copy, Debug, PartialEq, Eq, Structural)]
pub enum ResponseClass {
    /// 204: no more data, the run is complete.
    Complete,
    /// Another success status: the body is a stream of records.
    Records,
    /// Any other status: the body describes a problem, which is fatal.
    Rejected,
}

/// The status that signals the end of the run.
pub const NO_CONTENT: u16 = 204;

/// Whether `status` is a success status: one from 200 to 299.
pub open spec fn is_success_status(status: u16) -> bool {
    200 <= status < 300
}

/// Whether `status` is a success status.
pub fn is_success(status: u16) -> (r: bool)
    ensures
        r == is_success_status(status),
{
    200 <= status && status < 300
}

/// The class of a response with status `status`.
pub open spec fn response_class(status: u16) -> ResponseClass {
    if status == NO_CONTENT {
        ResponseClass::Complete
    } else if is_success_status(status) {
        ResponseClass::Records
    } else {
        ResponseClass::Rejected
    }
}

/// Classifies a response by its status.
pub fn classify(status: u16) -> (r: ResponseClass)
    ensures
        r == response_class(status),
{
    if status == NO_CONTENT {
        ResponseClass::Complete
    } else if is_success(status) {
        ResponseClass::Records
    } else {
        ResponseClass::Rejected
    }
}

/// A request to the stream endpoint.
#[derive(Clone, Debug)]
pub struct StreamRequest {
    /// The request method.
    pub method: String,
    /// The stream's address.
    pub url: String,
    /// The value of the `Authorization` header.
    pub authorization: String,
    /// The value of the `Accept` header.
    pub accept: String,
    /// The id of the last event that was decoded, sent as the query parameter
    /// `lastEventId` when the stream is resumed.
    pub last_event_id: Option<u64>,
}

/// The name of the query parameter that carries the cursor.
pub open spec fn cursor_parameter() -> Seq<char> {
    "lastEventId"@
}

impl StreamRequest {
    /// The query parameters of the request: the cursor, where there is one.
    pub open spec fn query_pairs(&self) -> Seq<(Seq<char>, Seq<char>)> {
        match self.last_event_id {
            Some(id) => seq![(cursor_parameter(), decimal(id as int))],
            None => Seq::empty(),
        }
    }

    /// The query parameters of the request, as names and values.
    pub fn query(&self) -> (r: Vec<(String, String)>)
        ensures
            r@.map_values(|p: (String, String)| (p.0@, p.1@)) == self.query_pairs(),
    {
        let mut out: Vec<(String, String)> = Vec::new();
        if let Some(id) = self.last_event_id {
            out.push((String::from_str("lastEventId"), decimal_u64(id)));
        }
        out
    }
}

/// The state of a consumer, as contracts see it.
pub struct ConsumerState {
    pub url: Seq<char>,
    pub token: Seq<char>,
    /// The id of the last event that was decoded, if any.
    pub cursor: Option<u64>,
    pub phase: Phase,
    /// The bytes of the line that is still incomplete.
    pub pending: Seq<u8>,
}

/// What can happen to a consumer.
pub enum StreamInput {
    /// The response to the request arrived, with this status.
    Status(u16),
    /// A chunk of the response body arrived.
    Chunk(Seq<u8>),
    /// A record was decoded into an event with this id.
    Event(u64),
    /// The body ended or the connection was lost.
    Disconnect,
}

impl ConsumerState {
    /// No newline is held back: complete lines are handed out at once.
    pub open spec fn wf(self) -> bool {
        !self.pending.contains(NEWLINE)
    }

    /// Whether a request has to be sent next.
    pub open spec fn wants_request(self) -> bool {
        self.phase == Phase::Connecting
    }

    /// The state after a response with status `status` arrived.
    pub open spec fn after_status(self, status: u16) -> ConsumerState {
        if self.phase == Phase::Connecting {
            match response_class(status) {
                ResponseClass::Complete => ConsumerState { phase: Phase::Finished, ..self },
                ResponseClass::Records => ConsumerState {
                    phase: Phase::Receiving,
                    pending: Seq::empty(),
                    ..self
                },
                ResponseClass::Rejected => ConsumerState { phase: Phase::Failed, ..self },
            }
        } else {
            self
        }
    }

    /// The state after a chunk of the body arrived.
    pub open spec fn after_chunk(self, chunk: Seq<u8>) -> ConsumerState {
        if self.phase == Phase::Receiving {
            ConsumerState { pending: partial_line(self.pending + chunk), ..self }
        } else {
            self
        }
    }

    /// The records that a chunk of the body completes.
    pub open spec fn records_of_chunk(self, chunk: Seq<u8>) -> Seq<Seq<char>> {
        if self.phase == Phase::Receiving {
            records(complete_lines(self.pending + chunk))
        } else {
            Seq::empty()
        }
    }

    /// The state after an event with id `id` was decoded.
    pub open spec fn after_event(self, id: u64) -> ConsumerState {
        ConsumerState { cursor: Some(id), ..self }
    }

    /// The state after the body ended or the connection dropped.
    pub open spec fn after_disconnect(self) -> ConsumerState {
        if self.phase == Phase::Receiving {
            ConsumerState { phase: Phase::Connecting, pending: Seq::empty(), ..self }
        } else {
            self
        }
    }

    /// The state after `input`.
    pub open spec fn step(self, input: StreamInput) -> ConsumerState {
        match input {
            StreamInput::Status(status) => self.after_status(status),
            StreamInput::Chunk(chunk) => self.after_chunk(chunk),
            StreamInput::Event(id) => self.after_event(id),
            StreamInput::Disconnect => self.after_disconnect(),
        }
    }

    /// The state after `inputs`, taken in order.
    pub open spec fn run(self, inputs: Seq<StreamInput>) -> ConsumerState
        decreases inputs.len(),
    {
        if inputs.len() == 0 {
            self
        } else {
            self.step(inputs[0]).run(inputs.drop_first())
        }
    }

    /// The records handed out while `chunks` of one body arrive, one after the
    /// other.
    pub open spec fn records_of_chunks(self, chunks: Seq<Seq<u8>>) -> Seq<Seq<char>>
        decreases chunks.len(),
    {
        if chunks.len() == 0 {
            Seq::empty()
        } else {
            self.records_of_chunk(chunks[0]) + self.after_chunk(chunks[0]).records_of_chunks(
                chunks.drop_first(),
            )
        }
    }
}

/// Whether `id` lies above `cursor`; every id lies above no cursor.
pub open spec fn above(cursor: Option<u64>, id: u64) -> bool {
    cursor matches Some(k) ==> id > k
}

/// The ids of the events among `inputs`, in order: what is delivered.
pub open spec fn delivered(inputs: Seq<StreamInput>) -> Seq<u64>
    decreases inputs.len(),
{
    if inputs.len() == 0 {
        Seq::empty()
    } else {
        match inputs[0] {
            StreamInput::Event(id) => seq![id] + delivered(inputs.drop_first()),
            _ => delivered(inputs.drop_first()),
        }
    }
}

/// Whether the endpoint serves `inputs` from the cursor: each event arrives
/// with an id above the cursor that the consumer holds at that moment. This
/// is what an endpoint does that numbers the events of a connection in
/// increasing order and, when asked to resume after `lastEventId`, sends
/// nothing up to it.
pub open spec fn served_from_cursor(state: ConsumerState, inputs: Seq<StreamInput>) -> bool
    decreases inputs.len(),
{
    inputs.len() == 0 || {
        &&& inputs[0] matches StreamInput::Event(id) ==> above(state.cursor, id)
        &&& served_from_cursor(state.step(inputs[0]), inputs.drop_first())
    }
}

/// The events that `decode` makes of `records`, in order: a record that it
/// cannot decode gives none.
pub open spec fn decoded<E>(records: Seq<Seq<char>>, decode: spec_fn(Seq<char>) -> Option<E>) -> Seq<
    E,
>
    decreases records.len(),
{
    if records.len() == 0 {
        Seq::empty()
    } else {
        let before = decoded(records.drop_last(), decode);
        match decode(records.last()) {
            Some(event) => before.push(event),
            None => before,
        }
    }
}

/// Chunk boundaries cannot be seen in what a consumer hands out: the records
/// of a body that arrives in chunks are the records of its complete lines,
/// wherever the chunks end.
pub proof fn lemma_records_ignore_chunking(state: ConsumerState, chunks: Seq<Seq<u8>>)
    requires
        state.wf(),
        state.phase == Phase::Receiving,
    ensures
        state.records_of_chunks(chunks) == records(
            complete_lines(state.pending + crate::sim::lines::joined(chunks)),
        ),
    decreases chunks.len(),
{
    lemma_chunking_is_invisible(state.pending, chunks);
    lemma_records_follow_lines(state, chunks);
}

/// The records handed out chunk by chunk are the records of the lines framed
/// chunk by chunk.
proof fn lemma_records_follow_lines(state: ConsumerState, chunks: Seq<Seq<u8>>)
    requires
        state.phase == Phase::Receiving,
    ensures
        state.records_of_chunks(chunks) == records(lines_of_chunks(state.pending, chunks)),
    decreases chunks.len(),
{
    if chunks.len() > 0 {
        let next = state.after_chunk(chunks[0]);
        lemma_records_follow_lines(next, chunks.drop_first());
        crate::sim::lines::lemma_records_of_concat(
            complete_lines(state.pending + chunks[0]),
            lines_of_chunks(next.pending, chunks.drop_first()),
        );
    }
}

/// Two ways of cutting one body into chunks, down to single bytes and through
/// the middle of a character, give the same events, whatever the decoder: the
/// events decoded from the records of the whole body.
pub proof fn lemma_events_ignore_chunking<E>(
    state: ConsumerState,
    first: Seq<Seq<u8>>,
    second: Seq<Seq<u8>>,
    decode: spec_fn(Seq<char>) -> Option<E>,
)
    requires
        state.wf(),
        state.phase == Phase::Receiving,
        crate::sim::lines::joined(first) == crate::sim::lines::joined(second),
    ensures
        decoded(state.records_of_chunks(first), decode) == decoded(
            state.records_of_chunks(second),
            decode,
        ),
        decoded(state.records_of_chunks(first), decode) == decoded(
            records(complete_lines(state.pending + crate::sim::lines::joined(first))),
            decode,
        ),
{
    lemma_records_ignore_chunking(state, first);
    lemma_records_ignore_chunking(state, second);
}

/// A consumer that was served from its cursor has delivered each id once and
/// in increasing order, all of them above the cursor that it started from,
/// whatever disconnects and reconnects lay between; and its cursor is the
/// last id that it delivered.
pub proof fn lemma_resume_never_redelivers(state: ConsumerState, inputs: Seq<StreamInput>)
    requires
        served_from_cursor(state, inputs),
    ensures
        forall|i: int, j: int|
            0 <= i < j < delivered(inputs).len() ==> delivered(inputs)[i] < delivered(inputs)[j],
        forall|i: int| 0 <= i < delivered(inputs).len() ==> above(state.cursor, delivered(inputs)[i]),
        state.run(inputs).cursor == if delivered(inputs).len() == 0 {
            state.cursor
        } else {
            Some(delivered(inputs).last())
        },
    decreases inputs.len(),
{
    if inputs.len() > 0 {
        lemma_resume_never_redelivers(state.step(inputs[0]), inputs.drop_first());
    }
}

/// Whether the run is over: complete, or refused by the endpoint.
pub open spec fn is_final(phase: Phase) -> bool {
    phase == Phase::Finished || phase == Phase::Failed
}

/// Once the run is over, it stays so: whatever arrives afterwards, the
/// consumer asks for no further request and hands out no further record.
pub proof fn lemma_final_is_final(state: ConsumerState, inputs: Seq<StreamInput>)
    requires
        is_final(state.phase),
    ensures
        state.run(inputs).phase == state.phase,
        !state.run(inputs).wants_request(),
        forall|chunk: Seq<u8>| #[trigger]
            state.run(inputs).records_of_chunk(chunk) == Seq::<Seq<char>>::empty(),
    decreases inputs.len(),
{
    if inputs.len() > 0 {
        lemma_final_is_final(state.step(inputs[0]), inputs.drop_first());
    }
}

/// A response with status 204 ends the run: from then on no request is asked
/// for and no record is handed out.
pub proof fn lemma_no_content_ends_the_run(state: ConsumerState, inputs: Seq<StreamInput>)
    requires
        state.wants_request(),
    ensures
        state.after_status(NO_CONTENT).phase == Phase::Finished,
        !state.after_status(NO_CONTENT).run(inputs).wants_request(),
        forall|chunk: Seq<u8>| #[trigger]
            state.after_status(NO_CONTENT).run(inputs).records_of_chunk(chunk) == Seq::<
                Seq<char>,
            >::empty(),
{
    lemma_final_is_final(state.after_status(NO_CONTENT), inputs);
}

/// The consumer of one run's stream.
pub struct StreamConsumer {
    url: String,
    token: String,
    cursor: Option<u64>,
    phase: Phase,
    buffer: LineBuffer,
}

impl View for StreamConsumer {
    type V = ConsumerState;

    closed spec fn view(&self) -> ConsumerState {
        ConsumerState {
            url: self.url@,
            token: self.token@,
            cursor: self.cursor,
            phase: self.phase,
            pending: self.buffer@,
        }
    }
}

impl StreamConsumer {
    /// A consumer of the stream at `url`, which resumes after the event
    /// `cursor` where one is given.
    pub fn new(url: String, token: String, cursor: Option<u64>) -> (r: StreamConsumer)
        ensures
            r@ == (ConsumerState {
                url: url@,
                token: token@,
                cursor,
                phase: Phase::Connecting,
                pending: Seq::empty(),
            }),
            r@.wf(),
    {
        StreamConsumer { url, token, cursor, phase: Phase::Connecting, buffer: LineBuffer::new() }
    }

    /// Where the exchange stands.
    pub fn phase(&self) -> (r: Phase)
        ensures
            r == self@.phase,
    {
        self.phase
    }

    /// The id of the last event that was decoded.
    pub fn cursor(&self) -> (r: Option<u64>)
        ensures
            r == self@.cursor,
    {
        self.cursor
    }

    /// The request to send next: one while no connection is open, none while
    /// a body is being received and none once the run is complete or has
    /// failed.
    pub fn request(&self) -> (r: Option<StreamRequest>)
        ensures
            r is Some <==> self@.wants_request(),
            r matches Some(request) ==> {
                &&& request.method@ == "GET"@
                &&& request.url@ == self@.url
                &&& request.authorization@ == "Bearer "@ + self@.token
                &&& request.accept@ == "application/x-ndjson"@
                &&& request.last_event_id == self@.cursor
            },
    {
        match self.phase {
            Phase::Connecting => {
                let authorization = String::from_str("Bearer ").concat(self.token.as_str());
                Some(
                    StreamRequest {
                        method: String::from_str("GET"),
                        url: self.url.clone(),
                        authorization,
                        accept: String::from_str("application/x-ndjson"),
                        last_event_id: self.cursor,
                    },
                )
            },
            _ => None,
        }
    }

    /// Takes the status of the response to the request that was sent.
    pub fn on_status(&mut self, status: u16) -> (r: ResponseClass)
        ensures
            r == response_class(status),
            final(self)@ == old(self)@.after_status(status),
            final(self)@.wf(),
    {
        let class = classify(status);
        match self.phase {
            Phase::Connecting => {
                match class {
                    ResponseClass::Complete => {
                        self.phase = Phase::Finished;
                    },
                    ResponseClass::Records => {
                        self.phase = Phase::Receiving;
                        self.buffer.clear();
                    },
                    ResponseClass::Rejected => {
                        self.phase = Phase::Failed;
                    },
                }
            },
            _ => {},
        }
        proof {
            use_type_invariant(&self.buffer);
            self.buffer.lemma_holds_no_newline();
        }
        class
    }

    /// Takes a chunk of the body and hands out the records that it
    /// completes: the text of each complete line that is not blank, which for
    /// a line of well-formed UTF-8 is the trimmed decoding of the line.
    pub fn on_chunk(&mut self, chunk: &[u8]) -> (r: Vec<String>)
        ensures
            string_views(r@) == old(self)@.records_of_chunk(chunk@),
            final(self)@ == old(self)@.after_chunk(chunk@),
            final(self)@.wf(),
    {
        proof {
            use_type_invariant(&self.buffer);
            self.buffer.lemma_holds_no_newline();
        }
        match self.phase {
            Phase::Receiving => {
                let lines = self.buffer.push(chunk);
                records_of(&lines)
            },
            _ => {
                let none: Vec<String> = Vec::new();
                none
            },
        }
    }

    /// Takes an event that was decoded from a record: the cursor moves to its
    /// id, whatever becomes of the event afterwards.
    pub fn on_event(&mut self, event: &EventData)
        ensures
            final(self)@ == old(self)@.after_event(event.event_id()),
            final(self)@.wf(),
    {
        self.cursor = Some(event.id());
        proof {
            use_type_invariant(&self.buffer);
            self.buffer.lemma_holds_no_newline();
        }
    }

    /// Takes the end of the body, or the loss of the connection: the line
    /// that was not complete is dropped, and the stream is to be reopened
    /// from the cursor.
    pub fn on_disconnect(&mut self)
        ensures
            final(self)@ == old(self)@.after_disconnect(),
            final(self)@.wf(),
    {
        match self.phase {
            Phase::Receiving => {
                self.phase = Phase::Connecting;
                self.buffer.clear();
            },
            _ => {},
        }
        proof {
            use_type_invariant(&self.buffer);
            self.buffer.lemma_holds_no_newline();
        }
    }
}

/// What is reported for a record that cannot be decoded, which is then
/// skipped: the record and the decoder's reason.
pub fn malformed_line_report(line: &str, reason: &str) -> (r: String)
    ensures
        r@ == "Failed to parse NDJSON line: "@ + line@ + " - Error: "@ + reason@,
{
    "Failed to parse NDJSON line: ".to_owned().concat(line).concat(" - Error: ").concat(reason)
}

/// What is reported when the connection drops while a body is received.
pub fn stream_error_report(reason: &str) -> (r: String)
    ensures
        r@ == "Stream error: "@ + reason@ + ", reconnecting..."@,
{
    "Stream error: ".to_owned().concat(reason).concat(", reconnecting...")
}

} // verus!
