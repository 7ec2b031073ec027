use std::sync::Arc;

use hft_core::bytes::{find_byte, itoa_buffer, read_u32_le};
use hft_core::fix::codec::{
    calculate_checksum, parse_checksum, parse_int, parse_uint, FixCodec, FixError, FixField,
    FixMessage, FixTag,
};
use hft_core::fix::session::{FixSession, ResendRequest, SessionConfig, SessionState};
use hft_core::fix::{FixEngine, FixRouter};

#[test]
fn test_parse_uint() {
    assert_eq!(parse_uint(b"123").unwrap(), 123);
    assert_eq!(parse_uint(b"0").unwrap(), 0);
    assert_eq!(parse_uint(b"999999").unwrap(), 999999);
    assert!(parse_uint(b"").is_err());
    assert!(parse_uint(b"abc").is_err());
}

#[test]
fn test_parse_int() {
    assert_eq!(parse_int(b"123").unwrap(), 123);
    assert_eq!(parse_int(b"-456").unwrap(), -456);
    assert_eq!(parse_int(b"+789").unwrap(), 789);
    assert!(parse_int(b"").is_err());
}

#[test]
fn test_calculate_checksum() {
    let data = b"10=123";
    let checksum = calculate_checksum(data);
    assert!(checksum <= 255);
}

#[test]
fn test_codec_encode_decode() {
    let mut codec = FixCodec::new();

    let buffer = b"8=FIX.4.4\x019=100\x0135=D\x0149=SENDER\x0156=TARGET\x0134=1\x0152=20240101-12:00:00\x01";

    let msg = codec.decode(buffer).unwrap();
    assert_eq!(msg.field_count(), 7);
    assert_eq!(msg.msg_type(), Some("D"));
    assert_eq!(msg.begin_string(), Some("FIX.4.4"));
}

#[test]
fn test_fix_tag_conversion() {
    assert_eq!(FixTag::MsgType.as_u32(), 35);
    assert_eq!(FixTag::from_u32(35), Some(FixTag::MsgType));
    assert_eq!(FixTag::from_u32(999), None);
}

#[test]
fn test_find_byte() {
    let buffer = b"hello=world";
    assert_eq!(find_byte(buffer, 0, b'='), Some(5));
    assert_eq!(find_byte(buffer, 6, b'o'), Some(7));
    assert_eq!(find_byte(buffer, 0, b'x'), None);
}

#[test]
fn test_fix_engine_creation() {
    let mut engine = FixEngine::new();

    assert!(!engine.is_running());
    assert_eq!(engine.get_stats().messages_processed, 0);

    engine.start(1);
    assert!(engine.is_running());

    engine.stop();
    assert!(!engine.is_running());
}

#[test]
fn test_fix_router() {
    let engine = FixEngine::new();
    let mut router = FixRouter::new(engine);

    assert_eq!(router.get_stats().orders_routed, 0);

    router.record_fill(1_000_000);
    router.record_fill(2_000_000);

    let stats = router.get_stats();
    assert!(stats.avg_fill_latency_ns > 0);
}

#[test]
fn test_engine_stats() {
    let engine = FixEngine::new();
    let stats = engine.get_stats();

    assert_eq!(stats.messages_processed, 0);
    assert_eq!(stats.encode_errors, 0);
    assert_eq!(stats.decode_errors, 0);
    assert!(!stats.is_running);
}

#[test]
fn test_session_creation() {
    let config = SessionConfig::default();
    let codec = Arc::new(FixCodec::new());

    let session = FixSession::new(config, codec).unwrap();

    assert_eq!(session.get_state(), SessionState::Disconnected);
    assert!(!session.is_logged_on());
}

#[test]
fn test_session_lifecycle() {
    let config = SessionConfig::default();
    let codec = Arc::new(FixCodec::new());

    let mut session = FixSession::new(config, codec).unwrap();

    session.start(10);
    assert_eq!(session.get_state(), SessionState::Connecting);
    assert!(session.is_running);

    session.stop();
    assert_eq!(session.get_state(), SessionState::Terminated);
}

#[test]
fn test_sequence_validation() {
    let config = SessionConfig::default();
    let codec = Arc::new(FixCodec::new());

    let mut session = FixSession::new(config, codec).unwrap();

    assert!(session.validate_sequence(1).unwrap());
    assert!(session.validate_sequence(2).unwrap());
    assert!(!session.validate_sequence(2).unwrap());
    assert!(!session.validate_sequence(4).unwrap());
}

#[test]
fn test_heartbeat_timeout() {
    let mut config = SessionConfig::default();
    config.heartbeat_interval_sec = 1;

    let codec = Arc::new(FixCodec::new());
    let mut session = FixSession::new(config, codec).unwrap();
    let now = 1_700_000_000_000_000_000u64;

    assert!(!session.check_heartbeat_timeout(now));

    session.last_activity_ns = now;

    assert!(!session.check_heartbeat_timeout(now));
}

#[test]
fn test_session_stats() {
    let config = SessionConfig::default();
    let codec = Arc::new(FixCodec::new());

    let session = FixSession::new(config, codec).unwrap();
    let stats = session.get_stats();

    assert_eq!(stats.messages_sent, 0);
    assert_eq!(stats.messages_received, 0);
    assert_eq!(stats.sequence_gaps, 0);
}

#[test]
fn silent_session_times_out() {
    let codec = Arc::new(FixCodec::new());
    let mut session = FixSession::new(SessionConfig::default(), codec).unwrap();
    session.last_activity_ns = 1;
    assert!(session.check_heartbeat_timeout(session.heartbeat_timeout_ns + 2));
    assert!(!session.check_heartbeat_timeout(session.heartbeat_timeout_ns + 1));
}

#[test]
fn numbers_have_limits() {
    assert_eq!(parse_uint(b"18446744073709551615").unwrap(), u64::MAX);
    assert_eq!(parse_uint(b"18446744073709551616"), Err(FixError::ParseError));
    assert_eq!(parse_uint(b""), Err(FixError::EmptyValue));
    assert_eq!(parse_int(b"-"), Ok(0));
    assert_eq!(parse_int(b"9223372036854775808"), Err(FixError::ParseError));
    assert_eq!(parse_checksum(b"007"), Ok(7));
    assert_eq!(parse_checksum(b"010"), Ok(8));
    assert_eq!(parse_checksum(b"377"), Ok(255));
    assert_eq!(parse_checksum(b"400"), Err(FixError::ParseError));
    assert_eq!(parse_checksum(b"008"), Err(FixError::ParseError));
    assert_eq!(parse_checksum(b"10"), Err(FixError::ParseError));
}

#[test]
fn checksum_is_the_sum_of_the_bytes() {
    assert_eq!(calculate_checksum(b"A"), 65);
    assert_eq!(calculate_checksum(&[200, 100]), 44);
    assert_eq!(calculate_checksum(b""), 0);
}

#[test]
fn decimal_digits_are_written_in_place() {
    let mut buffer = [b'.'; 8];
    assert_eq!(itoa_buffer(4711, &mut buffer, 2), 4);
    assert_eq!(&buffer, b"..4711..");
    assert_eq!(itoa_buffer(4711, &mut buffer, 6), 0);
    assert_eq!(read_u32_le(&[1, 2, 0, 0, 9], 0), 513);
}

#[test]
fn fields_read_back_what_was_decoded() {
    let mut codec = FixCodec::new();
    let msg = codec.decode(b"8=FIX.4.4\x0135=A\x01108=30\x0154=1\x0144=-7\x01").unwrap();
    assert_eq!(msg.get_field(FixTag::HeartBtInt).unwrap().as_uint(), Ok(30));
    assert_eq!(msg.get_field(FixTag::Price).unwrap().as_int(), Ok(-7));
    assert_eq!(msg.get_field(FixTag::Side).unwrap().as_char(), Ok('1'));
    assert_eq!(msg.get_field(FixTag::MsgType).unwrap().as_str(), Ok("A"));
    assert!(msg.get_field(FixTag::Symbol).is_none());
    assert_eq!(msg.fields().len(), 5);
    assert_eq!(codec.get_stats().messages_decoded, 1);
}

#[test]
fn malformed_messages_are_refused() {
    let mut codec = FixCodec::new();
    assert_eq!(codec.decode(b"").err(), Some(FixError::MalformedMessage));
    assert_eq!(codec.decode(b"x=1\x01").is_err(), true);
    assert_eq!(codec.decode(b"nothing").is_err(), true);
    assert_eq!(codec.get_stats().parse_errors, 3);
}

#[test]
fn text_must_be_utf8() {
    let field = FixField::new(58, &[0xff, 0xfe], 0, 2);
    assert_eq!(field.as_str(), Err(FixError::InvalidUtf8));
    let empty = FixField::new(58, b"", 0, 0);
    assert_eq!(empty.as_char(), Err(FixError::EmptyValue));
}

#[test]
fn encoded_message_decodes() {
    let mut codec = FixCodec::new();
    let source = b"8=FIX.4.4\x0135=D\x0155=AAPL\x01";
    let msg = codec.decode(source).unwrap();
    let mut buffer = [0u8; 128];
    let n = codec.encode(&msg, &mut buffer).unwrap();
    assert_eq!(&buffer[..source.len()], source);
    let mut other = FixCodec::new();
    let again = other.decode(&buffer[..source.len()]).unwrap();
    assert_eq!(again.msg_type(), Some("D"));
    assert!(n >= source.len());
    let mut small = [0u8; 5];
    assert_eq!(codec.encode(&msg, &mut small).err(), Some(FixError::BufferTooSmall));
    assert_eq!(codec.get_stats().messages_encoded, 1);
}

#[test]
fn encoded_message_validates() {
    for source in [
        &b"8=F\x019=1\x0135=D\x01"[..],
        &b"8=FIX.4.4\x019=100\x0135=D\x0149=SENDER\x0156=TARGET\x0134=1\x01"[..],
        &b"8=F\x019=1\x0135=D\x0110=007\x01"[..],
    ] {
        let mut codec = FixCodec::new();
        let msg = codec.decode(source).unwrap();
        let mut buffer = [0u8; 128];
        let n = codec.encode(&msg, &mut buffer).unwrap();
        let mut reader = FixCodec::new();
        let again = reader.decode(&buffer[..n]).unwrap();
        assert!(again.validate_checksum());
        assert_eq!(again.checksum, again.calculated_checksum);
    }
    // The bytes of "35=D" and its separator add up to 234, which is 352 in octal.
    let mut reader = FixCodec::new();
    assert!(reader.decode(b"8=F\x019=1\x0135=D\x0110=352\x01").unwrap().validate_checksum());
    let mut other = FixCodec::new();
    assert!(!other.decode(b"8=F\x019=1\x0135=D\x0110=353\x01").unwrap().validate_checksum());
}

#[test]
fn error_codes_differ() {
    let all = [
        FixError::BufferTooSmall,
        FixError::InvalidTagFormat,
        FixError::MissingRequiredField,
        FixError::InvalidChecksum,
        FixError::InvalidUtf8,
        FixError::EmptyValue,
        FixError::ParseError,
        FixError::MalformedMessage,
        FixError::OutOfBounds,
        FixError::SessionNotActive,
        FixError::SequenceGap,
        FixError::InvalidMessageType,
    ];
    for a in 0..all.len() {
        for b in 0..a {
            assert_ne!(all[a].error_code(), all[b].error_code());
        }
    }
}

#[test]
fn gap_is_requested_again() {
    let codec = Arc::new(FixCodec::new());
    let mut session = FixSession::new(SessionConfig::default(), codec).unwrap();
    assert!(session.validate_sequence(1).unwrap());
    session.request_resend(5).unwrap();
    assert_eq!(session.resend_begin_seq, 2);
    assert_eq!(session.resend_end_seq, 4);
    assert_eq!(session.get_state(), SessionState::ResendRequested);
    assert_eq!(session.get_stats().sequence_gaps, 1);
    let request = ResendRequest::new(2, 4).with_timestamp(9);
    assert_eq!(request.request_time_ns, 9);
}

#[test]
fn logon_goes_out() {
    let codec = Arc::new(FixCodec::new());
    let mut session = FixSession::new(SessionConfig::default(), codec).unwrap();
    session.start(1);
    let mut buffer = [0u8; 256];
    let n = session.send_logon(&mut buffer).unwrap();
    assert!(n > 0);
    assert_eq!(session.get_state(), SessionState::AwaitingLogon);
    assert_eq!(session.get_stats().logons_sent, 1);
    let mut reader = FixCodec::new();
    let text = &buffer[..n];
    let msg = reader.decode(text).unwrap();
    assert_eq!(msg.msg_type(), Some("A"));
    let mut tiny = [0u8; 3];
    assert_eq!(session.send_heartbeat(&mut tiny, None, 5), Err(FixError::BufferTooSmall));
    assert_eq!(session.send_test_request(&mut tiny, "T"), Err(FixError::BufferTooSmall));
    assert_eq!(session.send_logout(&mut tiny, Some("bye")), Err(FixError::BufferTooSmall));
}

#[test]
fn logon_answer_logs_on() {
    let codec = Arc::new(FixCodec::new());
    let mut session = FixSession::new(SessionConfig::default(), codec).unwrap();
    session.start(1);
    let mut reader = FixCodec::new();
    let msg = reader.decode(b"8=FIX.4.4\x0135=A\x0134=1\x01").unwrap();
    session.process_message(&msg, 7).unwrap();
    assert!(session.is_logged_on());
    assert_eq!(session.get_stats().messages_received, 1);
}

#[test]
fn stopped_engine_refuses_messages() {
    let mut engine = FixEngine::new();
    let text = b"8=FIX.4.4\x0135=A\x01";
    assert_eq!(engine.decode(text).err(), Some(FixError::SessionNotActive));
    engine.start(1);
    assert!(engine.decode(text).is_ok());
    assert_eq!(engine.get_stats().messages_processed, 1);
    let msg = FixMessage::new(b"");
    let mut router = FixRouter::new(FixEngine::new());
    assert_eq!(router.route_order(&msg), Err(FixError::SessionNotActive));
    router.engine.start(1);
    assert_eq!(router.route_order(&msg), Ok(()));
    router.record_rejection();
    assert_eq!(router.get_stats().orders_routed, 1);
    assert_eq!(router.get_stats().orders_rejected, 1);
}

#[test]
fn average_latency_of_fills() {
    let mut router = FixRouter::new(FixEngine::new());
    router.record_fill(1_000_000);
    router.record_fill(2_000_000);
    assert_eq!(router.get_stats().avg_fill_latency_ns, 1_500_000);
    // Orders that were routed make no difference.
    router.orders_routed = 7;
    router.record_fill(6_000_000);
    assert_eq!(router.get_stats().avg_fill_latency_ns, 3_000_000);
}

#[test]
fn engine_holds_one_session() {
    let mut engine = FixEngine::new();
    assert!(engine.get_session().is_none());
    let session = engine.create_session(SessionConfig::default()).unwrap();
    session.set_state(SessionState::AwaitingLogon);
    assert_eq!(engine.get_session().unwrap().state, SessionState::AwaitingLogon);
    let mut msg = FixMessage::new(b"");
    assert!(msg.validate_checksum());
    msg.checksum = 7;
    assert!(!msg.validate_checksum());
}
