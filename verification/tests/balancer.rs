use road_balancer::balancer;
use road_balancer::balancer::MemoryStream;
use road_balancer::balancer::ReadError;

#[test]
fn test_read_next_line() {
    let request = b"TEST\r\nTWO\r\n";
    let mut request_buffer = vec![0u8; request.len()];
    request_buffer[..request.len()].clone_from_slice(request);
    let stream = &mut MemoryStream::new(request_buffer);
    // We cut off CRLF in read_next_line
    let line = balancer::read_next_line(stream, true).unwrap();
    assert_eq!("TEST".as_bytes(), line.as_slice());
    let line = balancer::read_next_line(stream, true).unwrap();
    assert_eq!("TWO".as_bytes(), line.as_slice());
}

#[test]
fn test_read_next_line_no_chop() {
    let request = b"TEST\r\nTWO\r\n";
    let mut request_buffer = vec![0u8; request.len()];
    request_buffer[..request.len()].clone_from_slice(request);
    let stream = &mut MemoryStream::new(request_buffer);
    // We cut off CRLF in read_next_line
    let line = balancer::read_next_line(stream, false).unwrap();
    assert_eq!("TEST\r\n".as_bytes(), line.as_slice());
    let line = balancer::read_next_line(stream, false).unwrap();
    assert_eq!("TWO\r\n".as_bytes(), line.as_slice());
}

#[test]
fn test_read_header() {
    let request = b"GET / HTTP/1.1\r\n\r\n\r\n";
    let request_buffer = request.to_vec();
    let stream = &mut MemoryStream::new(request_buffer);
    match balancer::read_header(stream) {
        Ok((header, _)) => {
            assert_eq!("GET".as_bytes(), header.start_line().request_method());
            assert_eq!("/".as_bytes(), header.start_line().request_target());
            assert_eq!("HTTP/1.1".as_bytes(), header.start_line().response_reason());
        },
        Err(_) => panic!("Error"),
    }
}

#[test]
fn read_header_leaves_no_data_behind() {
    // The header block ends at its empty line, so the parser has nothing
    // left over; a later line stays unread in the stream.
    let request = b"GET /x HTTP/1.0\r\nhost: a\r\n\r\nrest\r\n";
    let stream = &mut MemoryStream::new(request.to_vec());
    let (header, data) = balancer::read_header(stream).unwrap();
    assert_eq!("/x".as_bytes(), header.start_line().request_target());
    assert!(data.is_empty());
    let line = balancer::read_next_line(stream, true).unwrap();
    assert_eq!("rest".as_bytes(), line.as_slice());
}

#[test]
fn read_header_rejects_malformed_block() {
    // A complete block whose start line has no spaces does not parse.
    let request = b"NOSPACES\r\n\r\n";
    let stream = &mut MemoryStream::new(request.to_vec());
    match balancer::read_header(stream) {
        Ok(_) => panic!("parsed a malformed header"),
        Err(e) => assert_eq!(ReadError::MalformedHeader, e),
    }
}

#[test]
fn read_next_line_without_line_ending_fails() {
    let stream = &mut MemoryStream::new(b"NO LINE ENDING".to_vec());
    match balancer::read_next_line(stream, true) {
        Ok(_) => panic!("found a line where none ends"),
        Err(e) => assert_eq!(ReadError::ConnectionAborted, e),
    }
    // The failing read consumed everything.
    match balancer::read_next_line(stream, true) {
        Ok(_) => panic!("found a line in exhausted data"),
        Err(e) => assert_eq!(ReadError::ConnectionAborted, e),
    }
}

#[test]
fn read_next_line_empty_data_fails() {
    let stream = &mut MemoryStream::new(Vec::new());
    assert!(balancer::read_next_line(stream, true).is_err());
}

#[test]
fn read_next_line_keeps_lone_carriage_returns() {
    // A carriage return not followed by a line feed is ordinary data.
    let stream = &mut MemoryStream::new(b"A\rB\r\r\nC\r\n".to_vec());
    let line = balancer::read_next_line(stream, true).unwrap();
    assert_eq!("A\rB\r".as_bytes(), line.as_slice());
    let line = balancer::read_next_line(stream, true).unwrap();
    assert_eq!("C".as_bytes(), line.as_slice());
}

#[test]
fn handle_client_returns_every_complete_line() {
    let stream = &mut MemoryStream::new(b"one\r\ntwo\r\ntail without end".to_vec());
    let lines = balancer::handle_client(stream);
    assert_eq!(2, lines.len());
    assert_eq!("one".as_bytes(), lines[0].as_slice());
    assert_eq!("two".as_bytes(), lines[1].as_slice());
}

#[test]
fn handle_client_empty_data_reads_nothing() {
    let stream = &mut MemoryStream::new(Vec::new());
    let lines = balancer::handle_client(stream);
    assert!(lines.is_empty());
}
