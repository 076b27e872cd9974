use influxrpc_compare::binarylog::{
    Address, ClientHeader as PbClientHeader, GrpcLogEntry, LogPayload, Message as PbMessage,
    Metadata, MetadataEntry, PbDuration, PbTimestamp, ServerHeader as PbServerHeader,
    Trailer as PbTrailer,
};
use influxrpc_compare::entry::{to_hashmap, Entry, EventType, Logger, Payload};
use influxrpc_compare::error::EntryError;
use influxrpc_compare::timestamp::{to_chrono_duration, to_chrono_timestamp, Timestamp};

fn meta(pairs: &[(&str, &[u8])]) -> Option<Metadata> {
    Some(Metadata {
        entry: pairs
            .iter()
            .map(|(k, v)| MetadataEntry { key: k.to_string(), value: v.to_vec() })
            .collect(),
    })
}

fn log_entry(payload: Option<LogPayload>) -> GrpcLogEntry {
    GrpcLogEntry {
        timestamp: Some(PbTimestamp { seconds: 1_600_000_000, nanos: 5 }),
        call_id: 42,
        sequence_id_within_call: 3,
        event_type: 1,
        logger: 1,
        payload_truncated: false,
        peer: Some(Address { address: "10.0.0.1".to_string(), ip_port: 8082 }),
        payload,
    }
}

fn client_header() -> LogPayload {
    LogPayload::ClientHeader(PbClientHeader {
        metadata: meta(&[("a", b"1")]),
        method_name: "/svc/M".to_string(),
        authority: "host".to_string(),
        timeout: Some(PbDuration { seconds: 2, nanos: 500 }),
    })
}

#[test]
fn entry_is_normalised() {
    let e = Entry::new(log_entry(Some(client_header()))).unwrap();
    assert_eq!(e.call_id, 42);
    assert_eq!(e.sequence_id_within_call, 3);
    assert_eq!(e.event_type, EventType::ClientHeader);
    assert_eq!(e.logger, Logger::Client);
    assert_eq!(e.timestamp, Some(Timestamp { seconds: 1_600_000_000, nanos: 5 }));
    assert_eq!(e.peer.as_deref(), Some("10.0.0.1:8082"));
    match e.payload {
        Payload::ClientHeader(h) => {
            assert_eq!(h.method_name, "/svc/M");
            assert_eq!(h.authority, "host");
            assert_eq!(h.timeout, Some(2_000_000_500));
            assert_eq!(h.metadata.len(), 1);
            assert_eq!(h.metadata.get(&"a".to_string()).map(|s| s.as_str()), Some("1"));
        }
        other => panic!("unexpected payload {:?}", other),
    }
}

#[test]
fn event_type_codes_map_one_to_one() {
    let expected = [
        EventType::Unknown,
        EventType::ClientHeader,
        EventType::ServerHeader,
        EventType::ClientMessage,
        EventType::ServerMessage,
        EventType::ClientHalfClose,
        EventType::ServerTrailer,
        EventType::Cancel,
    ];
    for (code, want) in expected.iter().enumerate() {
        assert_eq!(EventType::from_code(code as i32), *want);
    }
    assert_eq!(EventType::from_code(99), EventType::Unknown);
}

#[test]
fn logger_codes_map_one_to_one() {
    assert_eq!(Logger::from_code(0), Logger::Unknown);
    assert_eq!(Logger::from_code(1), Logger::Client);
    assert_eq!(Logger::from_code(2), Logger::Server);
    assert_eq!(Logger::from_code(-3), Logger::Unknown);
}

#[test]
fn missing_payload_is_an_error() {
    assert_eq!(Entry::new(log_entry(None)).unwrap_err(), EntryError::MissingPayload);
}

#[test]
fn negative_nanos_are_an_error() {
    let mut raw = log_entry(Some(client_header()));
    raw.timestamp = Some(PbTimestamp { seconds: 1, nanos: -1 });
    assert_eq!(Entry::new(raw).unwrap_err(), EntryError::NegativeNanos);
}

#[test]
fn timestamp_out_of_range_is_an_error() {
    assert_eq!(to_chrono_timestamp(PbTimestamp { seconds: i64::MAX, nanos: 0 }), Err(EntryError::TimestampOutOfRange));
    assert_eq!(
        to_chrono_timestamp(PbTimestamp { seconds: 1_600_000_000, nanos: 7 }),
        Ok(Timestamp { seconds: 1_600_000_000, nanos: 7 })
    );
}

#[test]
fn missing_timestamp_and_peer_stay_missing() {
    let mut raw = log_entry(Some(LogPayload::ServerHeader(PbServerHeader { metadata: None })));
    raw.timestamp = None;
    raw.peer = None;
    let e = Entry::new(raw).unwrap();
    assert_eq!(e.timestamp, None);
    assert_eq!(e.peer, None);
    match e.payload {
        Payload::ServerHeader(h) => assert_eq!(h.metadata.len(), 0),
        other => panic!("unexpected payload {:?}", other),
    }
}

#[test]
fn non_utf8_metadata_is_an_error() {
    assert_eq!(
        to_hashmap(meta(&[("k", &[0xff, 0xfe])])).unwrap_err(),
        EntryError::NonUtf8Metadata
    );
    let raw = log_entry(Some(LogPayload::Trailer(PbTrailer {
        metadata: meta(&[("k", &[0xc3])]),
        status_code: 0,
        status_message: String::new(),
        status_details: vec![],
    })));
    assert_eq!(Entry::new(raw).unwrap_err(), EntryError::NonUtf8Metadata);
}

#[test]
fn later_metadata_pair_wins() {
    let h = to_hashmap(meta(&[("k", b"first"), ("other", b"x"), ("k", "s\u{e9}cond".as_bytes())]))
        .unwrap();
    assert_eq!(h.len(), 2);
    assert_eq!(h.get(&"k".to_string()).map(|s| s.as_str()), Some("s\u{e9}cond"));
    assert_eq!(h.get(&"other".to_string()).map(|s| s.as_str()), Some("x"));
}

#[test]
fn message_payload_is_kept_as_is() {
    let mut raw = log_entry(Some(LogPayload::Message(PbMessage { length: 3, data: vec![1, 2, 3] })));
    raw.event_type = 3;
    let e = Entry::new(raw).unwrap();
    assert_eq!(e.event_type, EventType::ClientMessage);
    match e.payload {
        Payload::Message(m) => {
            assert_eq!(m.length, 3);
            assert_eq!(m.data, vec![1, 2, 3]);
        }
        other => panic!("unexpected payload {:?}", other),
    }
}

#[test]
fn duration_is_converted_to_nanoseconds() {
    assert_eq!(to_chrono_duration(PbDuration { seconds: 1, nanos: -1 }), Ok(999_999_999));
    assert_eq!(to_chrono_duration(PbDuration { seconds: -2, nanos: 0 }), Ok(-2_000_000_000));
    assert_eq!(to_chrono_duration(PbDuration { seconds: i64::MAX, nanos: 0 }), Err(EntryError::DurationOverflow));
    assert_eq!(
        to_chrono_duration(PbDuration { seconds: 9_223_372_036, nanos: 854_775_808 }),
        Err(EntryError::DurationOverflow)
    );
    assert_eq!(to_chrono_duration(PbDuration { seconds: 9_223_372_036, nanos: 854_775_807 }), Ok(i64::MAX));
}

#[test]
fn duration_overflow_in_a_client_header_is_an_error() {
    let raw = log_entry(Some(LogPayload::ClientHeader(PbClientHeader {
        metadata: None,
        method_name: "/svc/M".to_string(),
        authority: "host".to_string(),
        timeout: Some(PbDuration { seconds: i64::MIN, nanos: 0 }),
    })));
    assert_eq!(Entry::new(raw).unwrap_err(), EntryError::DurationOverflow);
}

#[test]
fn timestamps_order_by_seconds_then_nanos() {
    let a = Timestamp { seconds: 5, nanos: 900 };
    let b = Timestamp { seconds: 6, nanos: 1 };
    let c = Timestamp { seconds: 6, nanos: 2 };
    assert_eq!(a.earlier(b), a);
    assert_eq!(b.earlier(a), a);
    assert_eq!(c.later(b), c);
    assert_eq!(b.later(c), c);
    assert_eq!(b.earlier(b), b);
}
