use trotter::error::ActorError;
use trotter::header::{parse_header, HeaderReader, HEADER_LIMIT};

fn feed(reader: &mut HeaderReader, bytes: &[u8]) -> usize {
    let mut taken = 0;
    for b in bytes {
        if reader.is_done() {
            break;
        }
        reader.push(*b);
        taken += 1;
    }
    taken
}

#[test]
fn header_is_read_up_to_its_end() {
    let mut reader = HeaderReader::new();
    assert!(!reader.is_done());
    let taken = feed(&mut reader, b"20 text/gemini\r\nbody\r\n");
    assert_eq!(taken, 16);
    assert!(reader.is_done());
    assert_eq!(reader.header(), b"20 text/gemini");
    assert_eq!(reader.len(), 16);
}

#[test]
fn header_reader_takes_nothing_when_done() {
    let mut reader = HeaderReader::new();
    assert!(!reader.push(b'\r'));
    assert!(reader.push(b'\n'));
    assert!(reader.push(b'x'));
    assert_eq!(reader.len(), 2);
    assert_eq!(reader.header(), b"");
}

#[test]
fn header_reader_never_takes_more_than_the_limit() {
    assert_eq!(HEADER_LIMIT, 1027);
    let mut reader = HeaderReader::new();
    let endless = vec![b'a'; 5000];
    let taken = feed(&mut reader, &endless);
    assert_eq!(taken, 1027);
    assert!(reader.is_done());
    assert_eq!(reader.len(), 1027);
    assert_eq!(reader.header().len(), 1027);
    assert!(reader.push(b'\n'));
    assert_eq!(reader.len(), 1027);
}

#[test]
fn header_end_at_the_limit() {
    let mut bytes = vec![b'a'; 1025];
    bytes.extend_from_slice(b"\r\nrest");
    let mut reader = HeaderReader::new();
    assert_eq!(feed(&mut reader, &bytes), 1027);
    assert_eq!(reader.header().len(), 1025);
    let mut bytes = vec![b'a'; 1026];
    bytes.extend_from_slice(b"\r\nrest");
    let mut reader = HeaderReader::new();
    assert_eq!(feed(&mut reader, &bytes), 1027);
    assert_eq!(reader.header().len(), 1027);
    assert_eq!(reader.header()[1026], b'\r');
}

#[test]
fn header_lone_line_feed_and_carriage_return_do_not_end_it() {
    let mut reader = HeaderReader::new();
    feed(&mut reader, b"\n\ra\n\r\r\nx");
    assert!(reader.is_done());
    assert_eq!(reader.header(), b"\n\ra\n\r");
    let mut reader = HeaderReader::new();
    feed(&mut reader, b"20 a");
    assert!(!reader.is_done());
    assert_eq!(reader.header(), b"20 a");
}

#[test]
fn header_is_taken_apart() {
    assert_eq!(parse_header(b"20 text/gemini; charset=utf-8").unwrap(), (20, "text/gemini; charset=utf-8".to_string()));
    assert_eq!(parse_header(b"51 ").unwrap(), (51, String::new()));
    assert_eq!(parse_header(b"+7  two spaces").unwrap(), (7, " two spaces".to_string()));
    assert_eq!(parse_header("10 Wie heißt du?".as_bytes()).unwrap(), (10, "Wie heißt du?".to_string()));
    assert_eq!(parse_header(b"255 x").unwrap(), (255, "x".to_string()));
}

#[test]
fn header_that_is_not_utf8() {
    assert!(matches!(parse_header(&[b'2', b'0', b' ', 0xff]), Err(ActorError::Utf8Header(_))));
}

#[test]
fn header_without_space() {
    assert!(matches!(parse_header(b"20"), Err(ActorError::MalformedHeader)));
    assert!(matches!(parse_header(b""), Err(ActorError::MalformedHeader)));
    assert!(matches!(parse_header(b"20\ttext/gemini"), Err(ActorError::MalformedHeader)));
}

#[test]
fn header_with_a_bad_status() {
    match parse_header(b"256 x") {
        Err(ActorError::MalformedStatus(token)) => assert_eq!(token, "256"),
        other => panic!("{:?}", other),
    }
    match parse_header(b" 20 x") {
        Err(ActorError::MalformedStatus(token)) => assert_eq!(token, ""),
        other => panic!("{:?}", other),
    }
    assert!(matches!(parse_header(b"2x ok"), Err(ActorError::MalformedStatus(_))));
    assert!(matches!(parse_header(b"-1 ok"), Err(ActorError::MalformedStatus(_))));
}
