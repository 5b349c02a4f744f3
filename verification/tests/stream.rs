use createos::error::Error;
use createos::json::JsonValue;
use createos::stream::{
    decode_command_line, decode_process_frame, decode_process_line, decode_stream_line, event, CommandReader,
    JsonLineReader, LineBuffer, StreamStep, MAX_STREAM_EVENT,
};
use createos::wire::ExecStreamEventType;

#[test]
fn line_buffer_splits_on_line_feeds_and_flushes_at_the_end() {
    let mut buffer = LineBuffer::new();
    buffer.push_chunk(b"{\"a\":1}\n{\"b\"").unwrap();
    assert_eq!(buffer.next_line(), Some(b"{\"a\":1}\n".to_vec()));
    assert_eq!(buffer.next_line(), None);
    buffer.push_chunk(b":2}").unwrap();
    assert_eq!(buffer.next_line(), None);
    buffer.finish().unwrap();
    assert_eq!(buffer.next_line(), Some(b"{\"b\":2}".to_vec()));
    assert!(buffer.exhausted());
}

#[test]
fn oversized_events_are_refused() {
    let mut buffer = LineBuffer::new();
    let chunk = vec![b'x'; MAX_STREAM_EVENT + 1];
    assert!(matches!(
        buffer.push_chunk(&chunk),
        Err(Error::Protocol(m)) if m == "stream event exceeds the 16 MiB limit"
    ));
}

#[test]
fn control_lines_carry_no_event() {
    for line in [&b"\n"[..], b"  \r\n", b": keep-alive\n", b"event: output\n", b"id: 7\n", b"retry: 10\n", b"data:   \n"] {
        assert!(matches!(decode_stream_line(line), Ok(None)), "{line:?}");
    }
    assert!(matches!(decode_stream_line(b"data: {\"x\":1}\n"), Ok(Some(_))));
    assert!(matches!(
        decode_stream_line(b"{oops}\n"),
        Err(Error::Protocol(m)) if m.starts_with("decode stream event: ")
    ));
    assert!(matches!(
        decode_stream_line(&[0xff, 0x0a]),
        Err(Error::Protocol(m)) if m.starts_with("stream is not UTF-8: ")
    ));
}

#[test]
fn command_frames_become_ordered_events() {
    let frame = decode_command_line(br#"{"stdout":"out","stderr":"err","error":"boom","exit_code":3,"hb":true}"#)
        .unwrap()
        .unwrap();
    let events = frame.into_events();
    let kinds: Vec<&str> = events.iter().map(|e| e.kind.as_str()).collect();
    assert_eq!(kinds, vec!["heartbeat", "stdout", "stderr", "error", "exit"]);
    assert_eq!(events[1].data, "out");
    assert_eq!(events[2].data, "err");
    assert_eq!(events[3].message, "boom");
    assert_eq!(events[4].exit_code, Some(3));
    let quiet = decode_command_line(br#"{"stdout":""}"#).unwrap().unwrap().into_events();
    assert!(quiet.is_empty());
    assert!(matches!(
        decode_command_line(br#"{"stdout":5}"#),
        Err(Error::Protocol(m)) if m == "decode stream event: invalid type for field `stdout`"
    ));
    assert!(matches!(
        decode_command_line(b"[1]"),
        Err(Error::Protocol(m)) if m == "decode stream event: invalid type for field `stdout`"
    ));
    assert!(matches!(
        decode_command_line(b"7"),
        Err(Error::Protocol(m)) if m == "decode stream event: invalid type: expected a stream frame object"
    ));
    let e = event(ExecStreamEventType::STDOUT);
    assert_eq!(e.kind.as_str(), "stdout");
    assert!(e.data.is_empty() && e.exit_code.is_none() && e.message.is_empty());
}

#[test]
fn process_frames_decode_base64_output() {
    let event = decode_process_line(
        br#"{"type":"data","seq":4,"stream":"stdout","data_base64":"aGk=","oldest_available_seq":1}"#,
    )
    .unwrap()
    .unwrap();
    assert_eq!(event.kind.as_str(), "data");
    assert_eq!(event.sequence, 4);
    assert_eq!(event.stream.as_str(), "stdout");
    assert_eq!(event.data, b"hi".to_vec());
    assert_eq!(event.oldest_available_sequence, 1);
    let exit = decode_process_line(br#"{"type":"exit","exit_code":0,"signal":null}"#).unwrap().unwrap();
    assert_eq!(exit.exit_code, Some(0));
    assert!(exit.data.is_empty() && exit.signal.is_none());
    assert!(matches!(decode_process_line(br#"{"type":"data","data_base64":"***"}"#), Err(Error::Base64(_))));
    assert!(matches!(
        decode_process_line(br#"{"seq":1}"#),
        Err(Error::Protocol(m)) if m == "decode stream event: missing field `type`"
    ));
}

fn kinds(reader: &mut CommandReader) -> Vec<String> {
    let mut out = Vec::new();
    loop {
        match reader.next().unwrap() {
            StreamStep::Item(e) => out.push(format!("{}:{}{}", e.kind.as_str(), e.data, e.exit_code.map(|c| c.to_string()).unwrap_or_default())),
            StreamStep::Line => out.push("line".into()),
            StreamStep::NeedMore => {
                out.push("more".into());
                return out;
            }
            StreamStep::Ended => {
                out.push("end".into());
                return out;
            }
        }
    }
}

#[test]
fn command_reader_hands_out_events_in_frame_order() {
    let mut reader = CommandReader::new();
    reader.push_chunk(b"{\"stdout\":\"a\"}\n: ping\n{\"stderr\":\"b\",\"exit_code\":1}\n{\"stdout\":\"c").unwrap();
    assert_eq!(kinds(&mut reader), vec!["line", "stdout:a", "line", "line", "stderr:b", "exit:1", "more"]);
    reader.push_chunk(b"\"}").unwrap();
    assert_eq!(kinds(&mut reader), vec!["more"]);
    reader.finish().unwrap();
    assert_eq!(kinds(&mut reader), vec!["line", "stdout:c", "end"]);
}

#[test]
fn command_reader_reports_bad_frames() {
    let mut reader = CommandReader::new();
    reader.push_chunk(b"not json\n").unwrap();
    assert!(matches!(reader.next(), Err(Error::Protocol(m)) if m.starts_with("decode stream event: ")));
}

#[test]
fn json_line_reader_skips_control_lines() {
    let mut reader = JsonLineReader::new();
    reader.push_chunk(b"event: log\ndata: {\"line\":\"x\"}\n").unwrap();
    assert!(matches!(reader.next(), Ok(StreamStep::Line)));
    match reader.next() {
        Ok(StreamStep::Item(value)) => assert_eq!(value.get("line").and_then(|v| v.as_str()), Some("x")),
        other => panic!("{other:?}"),
    }
    assert!(matches!(reader.next(), Ok(StreamStep::NeedMore)));
    reader.finish().unwrap();
    assert!(matches!(reader.next(), Ok(StreamStep::Ended)));
}

#[test]
fn process_frames_decode_from_documents() {
    let value = decode_stream_line(br#"{"type":"exit","seq":9,"exit_code":137,"signal":"SIGKILL"}"#).unwrap().unwrap();
    let event = decode_process_frame(&value).unwrap();
    assert_eq!(event.sequence, 9);
    assert_eq!(event.exit_code, Some(137));
    assert_eq!(event.signal.as_deref(), Some("SIGKILL"));
    assert!(matches!(
        decode_process_frame(&JsonValue::Null),
        Err(Error::Protocol(m)) if m == "decode stream event: invalid type: expected a stream frame object"
    ));
}

#[test]
fn frames_may_be_arrays_of_their_members() {
    let events = createos::stream::decode_command_line(br#"["out","",0]"#).unwrap().unwrap().into_events();
    let kinds: Vec<&str> = events.iter().map(|e| e.kind.as_str()).collect();
    assert_eq!(kinds, vec!["stdout", "exit"]);
    assert!(matches!(
        createos::stream::decode_command_line(br#"["out"]"#),
        Err(Error::Protocol(m)) if m == "decode stream event: invalid length 1, expected struct CommandStreamFrame with 5 elements"
    ));
    assert!(matches!(
        createos::stream::decode_command_line(br#"["","",null,"",false,1]"#),
        Err(Error::Protocol(m)) if m == "decode stream event: trailing characters"
    ));
}

#[test]
fn process_frames_may_be_arrays_of_their_members() {
    let event = decode_process_line(br#"["exit",3,"stdout","",0,null]"#).unwrap().unwrap();
    assert_eq!(event.kind.as_str(), "exit");
    assert_eq!(event.sequence, 3);
    assert_eq!(event.exit_code, Some(0));
    assert!(event.data.is_empty());
    assert!(matches!(
        decode_process_line(br#"["exit",3,"stdout","",0]"#),
        Err(Error::Protocol(m)) if m == "decode stream event: invalid length 5, expected struct ManagedProcessConnectFrame with 8 elements"
    ));
}

#[test]
fn process_output_decodes_only_canonical_base64() {
    let event = decode_process_line(br#"{"type":"stdout","data_base64":"aGk="}"#).unwrap().unwrap();
    assert_eq!(event.data, b"hi".to_vec());
    let event = decode_process_line(br#"{"type":"stdout","data_base64":"aGVsbG8gd29ybGQ="}"#).unwrap().unwrap();
    assert_eq!(event.data, b"hello world".to_vec());
    for text in ["aGk", "aGl=", "a===", "aGk=aGk="] {
        let line = format!(r#"{{"type":"stdout","data_base64":"{text}"}}"#);
        assert!(matches!(decode_process_line(line.as_bytes()), Err(Error::Base64(_))), "{text}");
    }
}
