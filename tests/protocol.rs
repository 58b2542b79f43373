use simple_nats_client::connect_option::ConnectOption;
use simple_nats_client::frame::{parse_header, Header};
use simple_nats_client::grammar::{find_crlf, join_tokens, parse_number, push_decimal, push_signed_decimal, split_tokens};
use simple_nats_client::nats_client::{NatsError, NatsMessage, NatsResponse};
use simple_nats_client::receive_buffer::{ReceiveBuffer, Taken};
use simple_nats_client::server_info::ServerInfo;
use simple_nats_client::session::{
    connect_command_bytes, handshake_plan, publish_command, server_info_record, subscribe_command, unsubscribe_command,
    Session, WaitBudget, WaitStep,
};

/// Runs one wait, serving each read from `reads` in turn; an exhausted script
/// reads nothing, as a silent server would.
fn run_wait(session: &mut Session, reads: &mut Vec<Vec<u8>>) -> (WaitStep, usize) {
    let mut budget = WaitBudget::new();
    let mut n_reads = 0;
    loop {
        match session.wait_step(&budget) {
            WaitStep::Read(max) => {
                assert!(max > 0);
                let chunk = if reads.is_empty() { Vec::new() } else { reads.remove(0) };
                session.received(&mut budget, &chunk);
                n_reads += 1;
            }
            other => return (other, n_reads),
        }
    }
}

fn expect_message(step: WaitStep) -> NatsMessage {
    match step {
        WaitStep::Ready(Ok(NatsResponse::Msg(m))) => m,
        WaitStep::Ready(Err(e)) => panic!("unexpected error {:?}", e),
        _ => panic!("expected a message"),
    }
}

fn session() -> Session {
    Session::new(false, ServerInfo::default())
}

#[test]
fn crlf_is_found_first() {
    assert_eq!(find_crlf(b"ab\r\ncd\r\n"), Some(2));
    assert_eq!(find_crlf(b"\r\n"), Some(0));
    assert_eq!(find_crlf(b"abc\r"), None);
    assert_eq!(find_crlf(b""), None);
    assert_eq!(find_crlf(b"\n\r"), None);
}

#[test]
fn decimal_text() {
    let mut out = b"x".to_vec();
    push_decimal(&mut out, 0);
    push_decimal(&mut out, 4096);
    assert_eq!(out, b"x04096".to_vec());
    let mut out = Vec::new();
    push_signed_decimal(&mut out, -2147483648);
    assert_eq!(out, b"-2147483648".to_vec());
    let mut out = Vec::new();
    push_decimal(&mut out, u64::MAX);
    assert_eq!(out, b"18446744073709551615".to_vec());
}

#[test]
fn number_tokens() {
    assert_eq!(parse_number(b"123", u64::MAX), Some(123));
    assert_eq!(parse_number(b"+7", u64::MAX), Some(7));
    assert_eq!(parse_number(b"", u64::MAX), None);
    assert_eq!(parse_number(b"+", u64::MAX), None);
    assert_eq!(parse_number(b"1x", u64::MAX), None);
    assert_eq!(parse_number(b"-1", u64::MAX), None);
    assert_eq!(parse_number(b"18446744073709551615", u64::MAX), Some(u64::MAX));
    assert_eq!(parse_number(b"18446744073709551616", u64::MAX), None);
    assert_eq!(parse_number(b"11", 10), None);
    assert_eq!(parse_number(b"10", 10), Some(10));
}

#[test]
fn tokens_split_on_single_spaces_and_join_back() {
    let toks = split_tokens(b"MSG a  b");
    assert_eq!(toks, vec![b"MSG".to_vec(), b"a".to_vec(), Vec::new(), b"b".to_vec()]);
    assert_eq!(join_tokens(&toks, 1), b"a  b".to_vec());
    assert_eq!(split_tokens(b""), vec![Vec::<u8>::new()]);
    assert_eq!(join_tokens(&toks, 4), Vec::<u8>::new());
}

#[test]
fn publish_command_bytes() {
    assert_eq!(publish_command("foo", None, &[0, 1, 2, 3]), b"PUB foo 4\r\n\x00\x01\x02\x03\r\n".to_vec());
    assert_eq!(publish_command("foo", Some("bar"), b"hi"), b"PUB foo bar 2\r\nhi\r\n".to_vec());
    assert_eq!(publish_command("s", None, b""), b"PUB s 0\r\n\r\n".to_vec());
}

#[test]
fn subscribe_and_unsubscribe_command_bytes() {
    assert_eq!(subscribe_command("foo", None, 12), b"SUB foo 12\r\n".to_vec());
    assert_eq!(subscribe_command("foo", Some("q"), 0), b"SUB foo q 0\r\n".to_vec());
    assert_eq!(unsubscribe_command(3, None), b"UNSUB 3\r\n".to_vec());
    assert_eq!(unsubscribe_command(3, Some(1)), b"UNSUB 3 1\r\n".to_vec());
    assert_eq!(unsubscribe_command(3, Some(-5)), b"UNSUB 3 -5\r\n".to_vec());
}

#[test]
fn connect_command_frames_the_record() {
    assert_eq!(connect_command_bytes("{\"verbose\":false}"), b"CONNECT {\"verbose\":false}\r\n".to_vec());
}

#[test]
fn subscription_ids_strictly_increase() {
    let mut s = session();
    let mut last = None;
    for i in 0..50u64 {
        assert!(s.can_subscribe());
        let (sid, cmd) = s.subscribe("subject", None);
        assert_eq!(sid, i);
        assert_eq!(cmd, format!("SUB subject {}\r\n", i).into_bytes());
        if let Some(prev) = last {
            assert!(sid > prev);
        }
        last = Some(sid);
    }
    let mut other = session();
    assert_eq!(other.subscribe("subject", Some("q")).0, 0);
}

#[test]
fn published_bytes_come_back_as_message_without_reply() {
    let mut s = session();
    let (sid, _) = s.subscribe("foo", None);
    let sent = publish_command("foo", None, &[0, 1, 2, 3]);
    assert_eq!(sent, b"PUB foo 4\r\n\x00\x01\x02\x03\r\n".to_vec());
    let mut reads = vec![b"+OK\r\nMSG foo 0 4\r\n\x00\x01\x02\x03\r\n".to_vec()];
    let mut first_msg = None;
    for _ in 0..3 {
        match run_wait(&mut s, &mut reads).0 {
            WaitStep::Ready(Ok(NatsResponse::Msg(m))) => {
                first_msg = Some(m);
                break;
            }
            WaitStep::Ready(Ok(NatsResponse::Acknowledged)) => {}
            _ => panic!("unexpected step"),
        }
    }
    let m = first_msg.expect("no message");
    assert_eq!(m.subject, "foo");
    assert_eq!(m.sid, sid);
    assert_eq!(m.data, vec![0, 1, 2, 3]);
    assert_eq!(m.reply, None);
}

#[test]
fn reply_subject_reaches_the_subscriber() {
    let mut s = session();
    assert_eq!(publish_command("foo", Some("bar"), b"ping"), b"PUB foo bar 4\r\nping\r\n".to_vec());
    let mut reads = vec![b"MSG foo 0 bar 4\r\nping\r\n".to_vec()];
    let m = expect_message(run_wait(&mut s, &mut reads).0);
    assert_eq!(m.reply, Some("bar".to_string()));
    assert_eq!(m.data, b"ping".to_vec());
}

#[test]
fn five_token_message_header_is_an_argument_error() {
    // Four arguments: subject, sid, reply subject, and a size that is no number.
    match parse_header(b"MSG foo 1 2 xyz") {
        Err(NatsError::MessageParseError(field, text)) => {
            assert_eq!(field, "msgsize");
            assert_eq!(text, "xyz");
        }
        _ => panic!("expected an argument error"),
    }
    match parse_header(b"MSG foo 1 2 3 4") {
        Err(NatsError::InvalidMessageArgument(args)) => {
            assert_eq!(args, vec!["foo".to_string(), "1".to_string(), "2".to_string(), "3".to_string(), "4".to_string()]);
        }
        _ => panic!("expected an argument error"),
    }
    match parse_header(b"MSG foo") {
        Err(NatsError::InvalidMessageArgument(args)) => assert_eq!(args, vec!["foo".to_string()]),
        _ => panic!("expected an argument error"),
    }
}

#[test]
fn unsubscribe_after_one_then_server_goes_quiet() {
    let mut s = session();
    let (sid, _) = s.subscribe("foo", None);
    assert_eq!(unsubscribe_command(sid, Some(1)), b"UNSUB 0 1\r\n".to_vec());
    // The server delivers one message, then nothing more for that id.
    let mut reads = vec![b"MSG foo 0 1\r\na\r\n".to_vec()];
    let m = expect_message(run_wait(&mut s, &mut reads).0);
    assert_eq!(m.data, b"a".to_vec());
    let (step, n_reads) = run_wait(&mut s, &mut reads);
    assert!(matches!(step, WaitStep::Ready(Err(NatsError::WaitInfiniteLoop))));
    assert_eq!(n_reads, 1000);
}

#[test]
fn payload_split_into_single_bytes_matches_one_read() {
    let wire = b"MSG a.b 7 reply 5\r\nhello\r\n".to_vec();
    let mut whole = session();
    let one = expect_message(run_wait(&mut whole, &mut vec![wire.clone()]).0);
    let mut split = session();
    let mut reads: Vec<Vec<u8>> = wire.iter().map(|b| vec![*b]).collect();
    let (step, n_reads) = run_wait(&mut split, &mut reads);
    let many = expect_message(step);
    assert_eq!(n_reads, wire.len());
    assert_eq!(one.subject, many.subject);
    assert_eq!(one.sid, many.sid);
    assert_eq!(one.reply, many.reply);
    assert_eq!(one.data, many.data);
    assert_eq!(many.data, b"hello".to_vec());
    assert_eq!(many.sid, 7);
}

#[test]
fn payload_split_at_every_point_matches_one_read() {
    let wire = b"MSG s 1 3\r\n\r\nx\r\nPING\r\n".to_vec();
    for cut in 0..wire.len() {
        let mut s = session();
        let mut reads = vec![wire[..cut].to_vec(), wire[cut..].to_vec()];
        let m = expect_message(run_wait(&mut s, &mut reads).0);
        assert_eq!(m.data, b"\r\nx".to_vec());
        assert!(matches!(run_wait(&mut s, &mut reads).0, WaitStep::Ready(Ok(NatsResponse::Ping))));
    }
}

#[test]
fn keepalives_and_acknowledgements() {
    let mut b = ReceiveBuffer::new();
    b.append(b"PING\r\nPONG\r\n+OK\r\nPI");
    assert!(matches!(b.try_take_frame(), Taken::Event(NatsResponse::Ping)));
    assert!(matches!(b.try_take_frame(), Taken::Event(NatsResponse::Pong)));
    assert!(matches!(b.try_take_frame(), Taken::Event(NatsResponse::Acknowledged)));
    assert!(matches!(b.try_take_frame(), Taken::NeedHeader));
    b.append(b"NG\r\n");
    assert!(matches!(b.try_take_frame(), Taken::Event(NatsResponse::Ping)));
}

#[test]
fn server_error_line_keeps_its_text() {
    match parse_header(b"-ERR 'Unknown Protocol Operation'") {
        Err(NatsError::ServerError(e)) => assert_eq!(e.error_message, "'Unknown Protocol Operation'"),
        _ => panic!("expected a server error"),
    }
}

#[test]
fn unknown_tag_carries_the_line() {
    match parse_header(b"HELLO there") {
        Err(NatsError::UnknownResponse(line)) => assert_eq!(line, "HELLO there"),
        _ => panic!("expected an unknown response"),
    }
}

#[test]
fn bad_numbers_in_message_header() {
    match parse_header(b"MSG foo x 2") {
        Err(NatsError::MessageParseError(field, text)) => {
            assert_eq!(field, "sid");
            assert_eq!(text, "x");
        }
        _ => panic!("expected a parse error"),
    }
    match parse_header(b"MSG foo 1 -2") {
        Err(NatsError::MessageParseError(field, text)) => {
            assert_eq!(field, "msgsize");
            assert_eq!(text, "-2");
        }
        _ => panic!("expected a parse error"),
    }
    match parse_header(b"MSG foo 1 9223372036854775808") {
        Err(NatsError::MessageParseError(field, _)) => assert_eq!(field, "msgsize"),
        _ => panic!("expected a parse error"),
    }
}

#[test]
fn invalid_utf8_is_an_encoding_error() {
    assert!(matches!(parse_header(b"MSG \xff 1 2"), Err(NatsError::EncodingError(_))));
    assert!(matches!(parse_header(b"-ERR \xc3"), Err(NatsError::EncodingError(_))));
}

#[test]
fn message_header_fields() {
    match parse_header(b"MSG sub.j 42 inbox 10") {
        Ok(Header::Msg(h)) => {
            assert_eq!(h.subject, "sub.j");
            assert_eq!(h.sid, 42);
            assert_eq!(h.reply, Some("inbox".to_string()));
            assert_eq!(h.size, 10);
        }
        _ => panic!("expected a message header"),
    }
}

#[test]
fn failed_frame_is_removed_and_decoding_goes_on() {
    let mut s = session();
    let mut reads = vec![b"BOGUS\r\nPONG\r\n".to_vec()];
    assert!(matches!(run_wait(&mut s, &mut reads).0, WaitStep::Ready(Err(NatsError::UnknownResponse(_)))));
    assert!(matches!(run_wait(&mut s, &mut reads).0, WaitStep::Ready(Ok(NatsResponse::Pong))));
}

#[test]
fn silent_server_ends_wait_with_loop_guard() {
    let mut s = session();
    let (step, n_reads) = run_wait(&mut s, &mut Vec::new());
    assert!(matches!(step, WaitStep::Ready(Err(NatsError::WaitInfiniteLoop))));
    assert_eq!(n_reads, 1000);
}

#[test]
fn stalled_payload_ends_wait_with_message_loop_guard() {
    let mut s = session();
    let mut reads = vec![b"MSG foo 0 0\r\n".to_vec()];
    let (step, n_reads) = run_wait(&mut s, &mut reads);
    assert!(matches!(step, WaitStep::Ready(Err(NatsError::MessageInfiniteLoop))));
    assert_eq!(n_reads, 1 + 100);
}

#[test]
fn payload_reads_are_bounded_by_what_is_missing() {
    let mut s = session();
    let mut budget = WaitBudget::new();
    assert!(matches!(s.wait_step(&budget), WaitStep::Read(512)));
    s.received(&mut budget, b"MSG foo 0 3\r\nab");
    assert!(matches!(s.wait_step(&budget), WaitStep::Read(3)));
    s.received(&mut budget, b"c\r\n+OK\r\n");
    let m = expect_message(s.wait_step(&budget));
    assert_eq!(m.data, b"abc".to_vec());
    assert!(matches!(s.wait_step(&WaitBudget::new()), WaitStep::Ready(Ok(NatsResponse::Acknowledged))));
}

#[test]
fn info_line_asks_for_record_decoding() {
    let mut s = session();
    let mut reads = vec![b"INFO {\"server_id\":\"x\", \"port\":4222}\r\n".to_vec()];
    match run_wait(&mut s, &mut reads).0 {
        WaitStep::DecodeInfo(record) => assert_eq!(record, "{\"server_id\":\"x\", \"port\":4222}"),
        _ => panic!("expected a metadata record"),
    }
}

#[test]
fn first_line_must_be_info() {
    assert_eq!(server_info_record(b"INFO {\"go\":\"hogehoge\"}\r\n").unwrap(), "{\"go\":\"hogehoge\"}");
    match server_info_record(b"PING\r\n") {
        Err(NatsError::UnknownResponse(t)) => assert_eq!(t, "PING\r\n"),
        _ => panic!("expected an unknown response"),
    }
    assert!(matches!(server_info_record(b"INFO {}"), Err(NatsError::UnknownResponse(_))));
    assert!(matches!(server_info_record(b"-ERR no\r\n"), Err(NatsError::ServerError(_))));
}

#[test]
fn verbose_session_flag() {
    assert!(Session::new(true, ServerInfo::default()).verbose());
    assert!(!session().verbose());
    let info = ServerInfo { port: 4222, ..ServerInfo::default() };
    assert_eq!(Session::new(false, info).server_info().port, 4222);
}

#[test]
fn connect_option_defaults() {
    let o = ConnectOption::new();
    assert!(!o.verbose && !o.pedantic && !o.ssl_required);
    assert_eq!(o.user, "");
    assert_eq!(o.pass, "");
    assert_eq!(o.auth_token, "");
    assert_eq!(o.name, "simple-rust-nats-client");
    assert_eq!(o.lang, "Rust");
    assert_eq!(o.version, "0.0.1");
    let p = ConnectOption::new_with_param("u", "p", true, "testclient");
    assert!(p.verbose);
    assert_eq!(p.user, "u");
    assert_eq!(p.pass, "p");
    assert_eq!(p.name, "testclient");
}

#[test]
fn server_info_default_is_empty() {
    let i = ServerInfo::default();
    assert_eq!(i.server_id, "");
    assert_eq!(i.go, "");
    assert_eq!(i.port, 0);
    assert_eq!(i.max_payload, 0);
    assert!(!i.auth_required && !i.ssl_required);
}

#[test]
fn error_messages() {
    match parse_header(b"MSG a b c d e f") {
        Err(e) => assert_eq!(e.message(), "invalid message argument:[\"a\", \"b\", \"c\", \"d\", \"e\", \"f\"]"),
        Ok(_) => panic!("expected an error"),
    }
    match parse_header(b"-ERR boom") {
        Err(e) => assert_eq!(e.message(), "server error:boom"),
        Ok(_) => panic!("expected an error"),
    }
    match parse_header(b"MSG s x 1") {
        Err(e) => assert_eq!(e.message(), "parse error(sid): x"),
        Ok(_) => panic!("expected an error"),
    }
    match parse_header(b"WHAT") {
        Err(e) => assert_eq!(e.message(), "unknown message:WHAT"),
        Ok(_) => panic!("expected an error"),
    }
    match parse_header(b"MSG \xff 1 1") {
        Err(e) => assert!(e.message().starts_with("encoding error:")),
        Ok(_) => panic!("expected an error"),
    }
    assert_eq!(NatsError::WaitInfiniteLoop.message(), "infinite wait loop in wait_message");
    assert_eq!(NatsError::MessageInfiniteLoop.message(), "infinite wait loop in parse_message");
    let io = std::io::Error::new(std::io::ErrorKind::TimedOut, "timed out");
    let e = NatsError::ConnectionError(io, "NatsClient::wait_message".to_string());
    assert_eq!(e.message(), "connection error(NatsClient::wait_message): timed out");
}

#[test]
fn known_tag_with_invalid_utf8_is_an_encoding_error() {
    assert!(matches!(parse_header(b"PING \xff"), Err(NatsError::EncodingError(_))));
    assert!(matches!(parse_header(b"+OK \xc3"), Err(NatsError::EncodingError(_))));
    assert!(matches!(parse_header(b"PONG\xff"), Err(NatsError::EncodingError(_))));
    let mut b = ReceiveBuffer::new();
    b.append(b"PING \xff\r\nPONG\r\n");
    // The line stays in the buffer: the same error comes again.
    assert!(matches!(b.try_take_frame(), Taken::Failed(NatsError::EncodingError(_))));
    assert!(matches!(b.try_take_frame(), Taken::Failed(NatsError::EncodingError(_))));
}

#[test]
fn utf8_failures_other_than_encoding_remove_the_line() {
    let mut b = ReceiveBuffer::new();
    b.append(b"NOPE\r\nPONG\r\n");
    assert!(matches!(b.try_take_frame(), Taken::Failed(NatsError::UnknownResponse(_))));
    assert!(matches!(b.try_take_frame(), Taken::Event(NatsResponse::Pong)));
}

#[test]
fn first_read_must_be_utf8_as_a_whole() {
    assert!(matches!(server_info_record(b"INFO {}\r\n\xff"), Err(NatsError::EncodingError(_))));
    assert_eq!(server_info_record(b"INFO {}\r\nPING\r\n").unwrap(), "{}");
}

#[test]
fn large_payload_arrives_whole() {
    let size = 3 * 1048576;
    let mut wire = format!("MSG big 1 {}\r\n", size).into_bytes();
    wire.extend((0..size).map(|i| (i % 251) as u8));
    wire.extend_from_slice(b"\r\n");
    let mut s = session();
    let mut reads: Vec<Vec<u8>> = wire.chunks(65536).map(|c| c.to_vec()).collect();
    let m = expect_message(run_wait(&mut s, &mut reads).0);
    assert_eq!(m.data.len(), size);
    assert_eq!(m.data[size - 1], ((size - 1) % 251) as u8);
}

#[test]
fn handshake_depends_on_options() {
    let none = handshake_plan(None);
    assert!(none.verbose && !none.send_connect && !none.read_connect_ack);
    let quiet = ConnectOption::new();
    let plan = handshake_plan(Some(&quiet));
    assert!(!plan.verbose && plan.send_connect && !plan.read_connect_ack);
    let loud = ConnectOption::new_with_param("", "", true, "testclient");
    let plan = handshake_plan(Some(&loud));
    assert!(plan.verbose && plan.send_connect && plan.read_connect_ack);
}

#[test]
fn session_reports_ack_reads_and_payload_waits() {
    let mut s = Session::new(true, ServerInfo::default());
    assert!(s.ack_read_follows_command());
    assert!(!session().ack_read_follows_command());
    assert!(!s.awaiting_payload());
    let budget = WaitBudget::new();
    s.receive(b"MSG foo 0 4\r\nab");
    assert!(matches!(s.wait_step(&budget), WaitStep::Read(4)));
    assert!(s.awaiting_payload());
}
