use rngo::sim::consumer::{
    classify, malformed_line_report, stream_error_report, Phase, ResponseClass, StreamConsumer,
};
use rngo::sim::sink::{SimulationSink, SinkAction};
use rngo::sim::{deliver, EventData, JsonValue};

fn consumer(cursor: Option<u64>) -> StreamConsumer {
    StreamConsumer::new(
        "https://api.rngo.dev/simulationRuns/r1/stream".to_string(),
        "secret".to_string(),
        cursor,
    )
}

fn create(id: u64) -> EventData {
    EventData::Create {
        id,
        entity: "users".to_string(),
        offset: id as i64,
        value: JsonValue { text: "{}".to_string() },
    }
}

fn error(id: u64) -> EventData {
    EventData::Error { id, entity: None, offset: None, path: None, message: "bad".to_string() }
}

/// What the driver of a consumer does with a record: decode it.
fn decode(record: &str) -> Result<EventData, String> {
    let value: serde_json::Value = serde_json::from_str(record).map_err(|e| e.to_string())?;
    let id = value.get("id").and_then(|v| v.as_u64()).ok_or("no id")?;
    match value.get("type").and_then(|v| v.as_str()) {
        Some("create") => Ok(EventData::Create {
            id,
            entity: value.get("entity").and_then(|v| v.as_str()).ok_or("no entity")?.to_string(),
            offset: value.get("offset").and_then(|v| v.as_i64()).ok_or("no offset")?,
            value: JsonValue { text: value.get("value").ok_or("no value")?.to_string() },
        }),
        Some("error") => Ok(EventData::Error {
            id,
            entity: value.get("entity").and_then(|v| v.as_str()).map(|s| s.to_string()),
            offset: value.get("offset").and_then(|v| v.as_i64()),
            path: None,
            message: value.get("message").and_then(|v| v.as_str()).ok_or("no message")?.to_string(),
        }),
        _ => Err("unknown type".to_string()),
    }
}

fn line(id: u64) -> String {
    format!("{{\"type\":\"create\",\"id\":{},\"entity\":\"users\",\"offset\":{},\"value\":{{\"name\":\"zoë {}\"}}}}\n", id, id, id)
}

/// Feeds one body in the given chunks and returns the ids decoded and the
/// records that could not be decoded.
fn drain(consumer: &mut StreamConsumer, chunks: &[&[u8]]) -> (Vec<u64>, Vec<String>) {
    let mut ids = Vec::new();
    let mut malformed = Vec::new();
    for chunk in chunks {
        for record in consumer.on_chunk(chunk) {
            match decode(&record) {
                Ok(event) => {
                    consumer.on_event(&event);
                    ids.push(event.id());
                }
                Err(_) => malformed.push(record),
            }
        }
    }
    (ids, malformed)
}

#[test]
fn first_request_has_no_cursor() {
    let consumer = consumer(None);
    assert_eq!(consumer.phase(), Phase::Connecting);
    let request = consumer.request().expect("a request");
    assert_eq!(request.method, "GET");
    assert_eq!(request.url, "https://api.rngo.dev/simulationRuns/r1/stream");
    assert_eq!(request.authorization, "Bearer secret");
    assert_eq!(request.accept, "application/x-ndjson");
    assert_eq!(request.last_event_id, None);
    assert!(request.query().is_empty());
}

#[test]
fn resumed_request_carries_the_cursor() {
    let consumer = consumer(Some(41));
    let request = consumer.request().expect("a request");
    assert_eq!(request.last_event_id, Some(41));
    assert_eq!(request.query(), vec![("lastEventId".to_string(), "41".to_string())]);
}

#[test]
fn statuses_are_classified() {
    assert_eq!(classify(204), ResponseClass::Complete);
    assert_eq!(classify(200), ResponseClass::Records);
    assert_eq!(classify(201), ResponseClass::Records);
    assert_eq!(classify(299), ResponseClass::Records);
    assert_eq!(classify(199), ResponseClass::Rejected);
    assert_eq!(classify(300), ResponseClass::Rejected);
    assert_eq!(classify(404), ResponseClass::Rejected);
    assert_eq!(classify(422), ResponseClass::Rejected);
    assert_eq!(classify(500), ResponseClass::Rejected);
    assert_eq!(classify(0), ResponseClass::Rejected);
}

#[test]
fn no_content_ends_the_run_without_further_requests() {
    let mut consumer = consumer(None);
    assert_eq!(consumer.on_status(204), ResponseClass::Complete);
    assert_eq!(consumer.phase(), Phase::Finished);
    assert!(consumer.request().is_none());
    assert!(consumer.on_chunk(b"{\"type\":\"create\"}\n").is_empty());
    consumer.on_disconnect();
    assert_eq!(consumer.on_status(200), ResponseClass::Records);
    assert_eq!(consumer.phase(), Phase::Finished);
    assert!(consumer.request().is_none());
}

#[test]
fn refused_request_is_fatal() {
    let mut consumer = consumer(Some(3));
    assert_eq!(consumer.on_status(422), ResponseClass::Rejected);
    assert_eq!(consumer.phase(), Phase::Failed);
    assert!(consumer.request().is_none());
    consumer.on_disconnect();
    assert_eq!(consumer.phase(), Phase::Failed);
    assert!(consumer.request().is_none());
    assert_eq!(consumer.cursor(), Some(3));
}

#[test]
fn success_opens_the_body_and_no_request_is_due_meanwhile() {
    let mut consumer = consumer(None);
    assert_eq!(consumer.on_status(200), ResponseClass::Records);
    assert_eq!(consumer.phase(), Phase::Receiving);
    assert!(consumer.request().is_none());
}

#[test]
fn chunks_before_a_response_give_no_records() {
    let mut consumer = consumer(None);
    assert!(consumer.on_chunk(b"{\"id\":1}\n").is_empty());
    consumer.on_status(200);
    assert_eq!(consumer.on_chunk(b"{\"id\":2}\n"), vec!["{\"id\":2}".to_string()]);
}

#[test]
fn records_are_reassembled_across_chunks() {
    let mut consumer = consumer(None);
    consumer.on_status(200);
    assert!(consumer.on_chunk(b"{\"type\":\"cre").is_empty());
    assert_eq!(
        consumer.on_chunk(b"ate\"}\n\n  \r\n{\"type\":\"error\"}\n{\"ty"),
        vec!["{\"type\":\"create\"}".to_string(), "{\"type\":\"error\"}".to_string()]
    );
    assert_eq!(consumer.on_chunk(b"pe\":1}\r\n"), vec!["{\"type\":1}".to_string()]);
}

#[test]
fn any_split_decodes_to_the_events_of_the_whole_body() {
    let body: String = (1..=4).map(line).collect();
    let bytes = body.as_bytes();
    let mut whole = consumer(None);
    whole.on_status(200);
    let (expected, malformed) = drain(&mut whole, &[bytes]);
    assert_eq!(expected, vec![1, 2, 3, 4]);
    assert!(malformed.is_empty());
    for cut in 0..=bytes.len() {
        let mut split = consumer(None);
        split.on_status(200);
        let (ids, malformed) = drain(&mut split, &[&bytes[..cut], &bytes[cut..]]);
        assert_eq!(ids, expected, "cut at {}", cut);
        assert!(malformed.is_empty(), "cut at {}", cut);
    }
    let singles: Vec<&[u8]> = bytes.chunks(1).collect();
    let mut single = consumer(None);
    single.on_status(200);
    let (ids, malformed) = drain(&mut single, &singles);
    assert_eq!(ids, expected);
    assert!(malformed.is_empty());
}

#[test]
fn malformed_line_is_reported_once_and_its_neighbours_are_delivered() {
    let body = format!("{}{{not json\n{}", line(1), line(2));
    let mut consumer = consumer(None);
    consumer.on_status(200);
    let (ids, malformed) = drain(&mut consumer, &[body.as_bytes()]);
    assert_eq!(ids, vec![1, 2]);
    assert_eq!(malformed, vec!["{not json".to_string()]);
    assert_eq!(consumer.cursor(), Some(2));
    assert_eq!(consumer.phase(), Phase::Receiving);
}

#[test]
fn cursor_follows_every_decoded_event() {
    let mut consumer = consumer(None);
    consumer.on_status(200);
    consumer.on_event(&create(5));
    assert_eq!(consumer.cursor(), Some(5));
    consumer.on_event(&error(6));
    assert_eq!(consumer.cursor(), Some(6));
}

#[test]
fn disconnect_drops_the_partial_line_and_resumes_from_the_cursor() {
    let mut consumer = consumer(None);
    consumer.on_status(200);
    let first = format!("{}{}{{\"type\":\"create\",\"id\":3,", line(1), line(2));
    let (ids, _) = drain(&mut consumer, &[first.as_bytes()]);
    assert_eq!(ids, vec![1, 2]);
    consumer.on_disconnect();
    assert_eq!(consumer.phase(), Phase::Connecting);
    let request = consumer.request().expect("a request");
    assert_eq!(request.last_event_id, Some(2));
    consumer.on_status(200);
    let (ids, malformed) = drain(&mut consumer, &[line(3).as_bytes()]);
    assert_eq!(ids, vec![3]);
    assert!(malformed.is_empty());
}

#[test]
fn resumed_stream_delivers_every_event_once() {
    // A server that holds five events and replays from the cursor it is given;
    // the connection drops after every 130 bytes, in the middle of a line.
    let events: Vec<(u64, String)> = (1..=5).map(|id| (id, line(id))).collect();
    let mut consumer = consumer(None);
    let mut delivered = Vec::new();
    let mut requests = 0;
    while let Some(request) = consumer.request() {
        requests += 1;
        assert!(requests < 50);
        let body: String = events
            .iter()
            .filter(|(id, _)| request.last_event_id.map_or(true, |k| *id > k))
            .map(|(_, text)| text.clone())
            .collect();
        if body.is_empty() {
            consumer.on_status(204);
            continue;
        }
        consumer.on_status(200);
        let sent = &body.as_bytes()[..body.len().min(130)];
        for chunk in sent.chunks(16) {
            for record in consumer.on_chunk(chunk) {
                let event = decode(&record).expect("a valid record");
                consumer.on_event(&event);
                delivered.push(event.id());
            }
        }
        consumer.on_disconnect();
    }
    assert_eq!(delivered, vec![1, 2, 3, 4, 5]);
    assert_eq!(consumer.phase(), Phase::Finished);
}

#[test]
fn delivering_moves_the_cursor_whatever_the_sink_decides() {
    let mut consumer = consumer(None);
    consumer.on_status(200);
    let sink = SimulationSink::stream();
    assert!(matches!(deliver(&mut consumer, &sink, create(9)), SinkAction::Echo));
    assert_eq!(consumer.cursor(), Some(9));
    assert!(matches!(deliver(&mut consumer, &sink, error(10)), SinkAction::Echo));
    assert_eq!(consumer.cursor(), Some(10));
}

#[test]
fn reports_name_the_line_and_the_reason() {
    assert_eq!(
        malformed_line_report("{not json", "key must be a string at line 1 column 2"),
        "Failed to parse NDJSON line: {not json - Error: key must be a string at line 1 column 2"
    );
    assert_eq!(stream_error_report("connection reset"), "Stream error: connection reset, reconnecting...");
}
