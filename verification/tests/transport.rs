use simplecc::json::Json;
use simplecc::lsp::transport::{
    frame, frame_body, FrameError, FrameReader, LspTransport, ReadStep, MAX_CONTENT_LENGTH,
    MAX_HEADER_LINE_BYTES,
};

fn read_all(input: &[u8]) -> Result<Vec<Json>, String> {
    let mut reader = FrameReader::new();
    reader.feed(input);
    let mut out = vec![];
    loop {
        match reader.read_message(true) {
            ReadStep::Message(message) => out.push(message),
            ReadStep::End => return Ok(out),
            ReadStep::Failed(error) => return Err(error),
            ReadStep::More => panic!("waits for more after the end"),
        }
    }
}

#[test]
fn read_loop_accepts_case_insensitive_content_length() {
    let body = br#"{"jsonrpc":"2.0","method":"test"}"#;
    let mut input = format!("content-length: {}\r\n\r\n", body.len()).into_bytes();
    input.extend_from_slice(body);

    let messages = read_all(&input).unwrap();
    assert_eq!(messages[0].str_at("method"), Some("test"));
}

#[test]
fn read_loop_rejects_oversized_content_before_allocating_body() {
    let input = format!("Content-Length: {}\r\n\r\n", MAX_CONTENT_LENGTH + 1);
    let error = read_all(input.as_bytes()).err().unwrap();
    assert!(error.contains("exceeds"));
    assert_eq!(error, "Content-Length 67108865 exceeds 67108864 bytes");
}

#[test]
fn read_loop_rejects_unbounded_header_line() {
    let input = vec![b'x'; MAX_HEADER_LINE_BYTES + 1];
    let error = read_all(&input).err().unwrap();
    assert!(error.contains("header line exceeds"));
}

#[test]
fn terminate_closes_the_input_and_ends_once() {
    let mut transport = LspTransport::new();
    assert!(transport.begin_terminate());
    assert!(!transport.open);
    transport.finish_terminate();
    assert!(transport.terminated);
    assert!(!transport.begin_terminate());
}

#[test]
fn nothing_is_sent_once_the_server_is_stopped() {
    let message = Json::Null;
    let mut transport = LspTransport::new();
    assert_eq!(transport.send(&message).unwrap(), b"Content-Length: 4\r\n\r\nnull");
    transport.begin_terminate();
    assert_eq!(transport.send(&message).unwrap_err(), "language server stdin is closed");
    transport.finish_terminate();
    assert_eq!(transport.send(&message).unwrap_err(), "language server transport is terminated");
}

#[test]
fn messages_are_framed_by_their_length_in_bytes() {
    let message = Json::string("é");
    assert_eq!(frame(&message), "Content-Length: 4\r\n\r\n\"é\"".as_bytes());
    assert_eq!(frame_body(b""), b"Content-Length: 0\r\n\r\n");
}

#[test]
fn a_frame_reads_back_however_the_stream_is_cut() {
    let first = Json::parse("{\"id\":1,\"result\":[\"a\",\"ü\"]}".as_bytes()).unwrap();
    let second = Json::parse(b"[]").unwrap();
    let mut stream = frame(&first);
    stream.extend(frame(&second));
    let mut reader = FrameReader::new();
    let mut seen = vec![];
    for byte in &stream {
        reader.feed(&[*byte]);
        match reader.read_message(false) {
            ReadStep::Message(message) => seen.push(message.render()),
            ReadStep::More => {}
            _ => panic!("the stream was refused"),
        }
    }
    assert_eq!(seen, [first.render(), second.render()]);
    assert!(matches!(reader.read_message(true), ReadStep::End));
    assert!(matches!(reader.read_message(false), ReadStep::More));
}

#[test]
fn other_headers_are_passed_over() {
    let input = b"Content-Type: x; charset=utf-8\r\nContent-Length:  2 \r\nnonsense\r\n\r\n{}";
    assert_eq!(read_all(input).unwrap()[0].render(), "{}");
    let input = b"Content-Length: 2\n\n{}";
    assert_eq!(read_all(input).unwrap()[0].render(), "{}");
}

#[test]
fn every_fault_of_a_stream_is_named() {
    let fault = |input: &[u8]| read_all(input).err().unwrap();
    assert_eq!(fault(b"Content-Length: 2\r\nContent-Length: 2\r\n\r\n{}"),
        "duplicate Content-Length header");
    assert_eq!(fault(b"Content-Length: two\r\n\r\n{}"), "bad Content-Length");
    assert_eq!(fault(b"Content-Length: -2\r\n\r\n{}"), "bad Content-Length");
    assert_eq!(fault(b"X: 1\r\n\r\n{}"), "missing Content-Length");
    assert_eq!(fault(b"X: \xff\r\n\r\n{}"), "LSP header is not UTF-8");
    assert_eq!(fault(b"Content-Length: 3\r\n\r\n{}"), "early eof");
    let mut many = vec![];
    for _ in 0..40 {
        many.extend(vec![b'h'; 1000]);
        many.extend_from_slice(b"\r\n");
    }
    assert_eq!(fault(&many), "LSP headers exceed 32768 bytes");
    assert!(fault(b"Content-Length: 1\r\n\r\n{").contains("EOF"));
    assert_eq!(FrameError::LineTooLong.message(), "LSP header line exceeds 8192 bytes");
}

#[test]
fn bodies_of_the_largest_size_are_waited_for() {
    let mut reader = FrameReader::new();
    reader.feed(format!("Content-Length: {MAX_CONTENT_LENGTH}\r\n\r\n").as_bytes());
    assert!(matches!(reader.read_message(false), ReadStep::More));
}

#[test]
fn messages_are_read_back_as_they_were_written() {
    let text = r#"{"big":18446744073709551615,"list":[null,true,-9223372036854775808],"s":"\u0001\"é\n"}"#;
    let msg = Json::parse(text.as_bytes()).unwrap();
    let mut reader = FrameReader::new();
    reader.feed(&frame(&msg));
    reader.feed(b"Content-");
    match reader.read_message(false) {
        ReadStep::Message(read) => assert_eq!(read.render(), msg.render()),
        _ => panic!("no message"),
    }
    assert!(matches!(reader.read_message(false), ReadStep::More));
}

#[test]
fn values_are_read_only_so_deep() {
    let nested = |levels: usize| {
        let mut value = Json::Null;
        for _ in 0..levels {
            value = Json::array1(value);
        }
        value
    };
    assert!(Json::parse(nested(127).render().as_bytes()).is_ok());
    assert!(Json::parse(nested(128).render().as_bytes()).is_err());
}

#[test]
fn sent_messages_are_received_in_order() {
    let texts = [r#"{"id":1}"#, "[]", r#""x\r\n\r\n""#, "2.5", r#"{"id":1}"#];
    let transport = LspTransport::new();
    let mut reader = FrameReader::new();
    for text in texts {
        reader.feed(&transport.send(&Json::parse(text.as_bytes()).unwrap()).unwrap());
    }
    let (messages, error) = reader.read_rest();
    let rendered: Vec<String> = messages.iter().map(|message| message.render()).collect();
    assert_eq!(rendered, texts);
    assert!(error.is_none());

    reader = FrameReader::new();
    reader.feed(b"Content-Length: 1\r\n\r\n7Content-Length: 2\r\n\r\n7");
    let (messages, error) = reader.read_rest();
    assert_eq!(messages.len(), 1);
    assert_eq!(error.unwrap(), "early eof");
    assert_eq!(FrameReader::new().read_rest().0.len(), 0);
}

#[test]
fn short_fractions_are_read_back() {
    let mut shown = 0;
    for digits in ["1", "12", "9007199254", "123456789012345", "999999999999999", "100000000000001"]
    {
        for point in 1..digits.len() {
            for sign in ["", "-"] {
                let text = format!("{sign}{}.{}", &digits[..point], &digits[point..]);
                let value = Json::parse(text.as_bytes()).unwrap();
                let written = value.render();
                let read = Json::parse(written.as_bytes()).unwrap();
                assert_eq!(read.render(), written, "{text}");
                assert_eq!(written.parse::<f64>().unwrap(), text.parse::<f64>().unwrap());
                shown += 1;
            }
        }
    }
    assert!(shown > 50);
    for text in ["0.1", "-0.0", "0.5", "3.0", "1.5", "99999999999999.9", "0.00001"] {
        assert_eq!(Json::parse(text.as_bytes()).unwrap().render(), text);
    }
}
