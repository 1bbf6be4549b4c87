use rngo::sim::lines::{record_of, records_of, LineBuffer};

fn feed(chunks: &[&[u8]]) -> (Vec<Vec<u8>>, usize) {
    let mut buffer = LineBuffer::new();
    let mut lines = Vec::new();
    for chunk in chunks {
        lines.extend(buffer.push(chunk));
    }
    (lines, buffer.len())
}

#[test]
fn complete_lines_come_out_and_the_rest_is_held_back() {
    let mut buffer = LineBuffer::new();
    let lines = buffer.push(b"one\ntwo\nthr");
    assert_eq!(lines, vec![b"one".to_vec(), b"two".to_vec()]);
    assert_eq!(buffer.len(), 3);
    let lines = buffer.push(b"ee\n");
    assert_eq!(lines, vec![b"three".to_vec()]);
    assert_eq!(buffer.len(), 0);
}

#[test]
fn chunk_without_newline_completes_nothing() {
    let mut buffer = LineBuffer::new();
    assert!(buffer.push(b"abc").is_empty());
    assert!(buffer.push(b"").is_empty());
    assert!(buffer.push(b"def").is_empty());
    assert_eq!(buffer.len(), 6);
    assert_eq!(buffer.push(b"\n"), vec![b"abcdef".to_vec()]);
}

#[test]
fn empty_lines_are_lines() {
    let (lines, held) = feed(&[b"\n\na\n\n"]);
    assert_eq!(lines, vec![b"".to_vec(), b"".to_vec(), b"a".to_vec(), b"".to_vec()]);
    assert_eq!(held, 0);
}

#[test]
fn clear_drops_the_partial_line() {
    let mut buffer = LineBuffer::new();
    buffer.push(b"{\"type\":\"cre");
    assert_eq!(buffer.len(), 12);
    buffer.clear();
    assert_eq!(buffer.len(), 0);
    assert_eq!(buffer.push(b"ate\"}\n"), vec![b"ate\"}".to_vec()]);
}

#[test]
fn every_split_in_two_gives_the_lines_of_the_whole() {
    let body = "{\"id\":1,\"name\":\"zoë\"}\n\n{\"id\":2,\"name\":\"日本\"}\r\n{\"id\":3}\npartial";
    let bytes = body.as_bytes();
    let (whole, whole_held) = feed(&[bytes]);
    assert_eq!(whole.len(), 4);
    for cut in 0..=bytes.len() {
        let (lines, held) = feed(&[&bytes[..cut], &bytes[cut..]]);
        assert_eq!(lines, whole, "cut at {}", cut);
        assert_eq!(held, whole_held, "cut at {}", cut);
    }
}

#[test]
fn one_byte_at_a_time_gives_the_lines_of_the_whole() {
    let body = "{\"id\":1,\"name\":\"zoë\"}\n{\"id\":2,\"name\":\"日本\"}\n";
    let bytes = body.as_bytes();
    let (whole, _) = feed(&[bytes]);
    let singles: Vec<&[u8]> = bytes.chunks(1).collect();
    let (lines, held) = feed(&singles);
    assert_eq!(lines, whole);
    assert_eq!(held, 0);
    assert_eq!(lines[0], "{\"id\":1,\"name\":\"zoë\"}".as_bytes());
    assert_eq!(lines[1], "{\"id\":2,\"name\":\"日本\"}".as_bytes());
}

#[test]
fn record_is_the_trimmed_text_of_a_line() {
    assert_eq!(record_of(b"  {\"a\":1}\r"), Some("{\"a\":1}".to_string()));
    assert_eq!(record_of("zoë".as_bytes()), Some("zoë".to_string()));
}

#[test]
fn blank_lines_are_no_records() {
    assert_eq!(record_of(b""), None);
    assert_eq!(record_of(b" \t\r"), None);
    assert_eq!(record_of("\u{a0}".as_bytes()), None);
}

#[test]
fn ill_formed_bytes_become_replacement_characters() {
    assert_eq!(record_of(b"a\xffb"), Some("a\u{fffd}b".to_string()));
    assert_eq!(record_of(b"\xe6\x97"), Some("\u{fffd}".to_string()));
}

#[test]
fn records_skip_blank_lines_and_keep_the_order() {
    let lines = vec![b"first".to_vec(), b"".to_vec(), b"  ".to_vec(), b" second ".to_vec()];
    assert_eq!(records_of(&lines), vec!["first".to_string(), "second".to_string()]);
    assert_eq!(records_of(&vec![]), Vec::<String>::new());
}
