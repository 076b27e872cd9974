use bytes::Bytes;
use influxrpc_compare::call::Call;
use influxrpc_compare::calls::{CallAggregator, Calls};
use influxrpc_compare::entry::{
    ClientHeader, Entry, EventType, Logger, Message, Payload, ServerHeader, Trailer,
};
use influxrpc_compare::error::{CallError, Violation};
use influxrpc_compare::headers::Headers;
use influxrpc_compare::methods::Method;
use influxrpc_compare::timestamp::Timestamp;

fn headers(pairs: &[(&str, &str)]) -> Headers {
    let mut h = Headers::new();
    for (k, v) in pairs {
        h.insert(k.to_string(), v.to_string());
    }
    h
}

fn ts(seconds: i64) -> Option<Timestamp> {
    Some(Timestamp { seconds, nanos: 0 })
}

fn entry(call_id: u64, timestamp: Option<Timestamp>, event_type: EventType, payload: Payload) -> Entry {
    Entry {
        timestamp,
        call_id,
        sequence_id_within_call: 0,
        event_type,
        logger: Logger::Client,
        payload_truncated: false,
        peer: Some("10.0.0.1:80".to_string()),
        payload,
    }
}

fn client_header(call_id: u64, method: &str, authority: &str, meta: &[(&str, &str)]) -> Entry {
    entry(
        call_id,
        ts(100),
        EventType::ClientHeader,
        Payload::ClientHeader(ClientHeader {
            metadata: headers(meta),
            method_name: method.to_string(),
            authority: authority.to_string(),
            timeout: None,
        }),
    )
}

fn server_header(call_id: u64, timestamp: Option<Timestamp>) -> Entry {
    entry(
        call_id,
        timestamp,
        EventType::ServerHeader,
        Payload::ServerHeader(ServerHeader { metadata: headers(&[]) }),
    )
}

fn message(call_id: u64, event_type: EventType, data: &[u8]) -> Entry {
    entry(
        call_id,
        ts(101),
        event_type,
        Payload::Message(Message { length: data.len() as u32, data: data.to_vec() }),
    )
}

fn trailer(call_id: u64, code: u32, details: &[u8]) -> Entry {
    entry(
        call_id,
        ts(102),
        EventType::ServerTrailer,
        Payload::Trailer(Trailer {
            metadata: headers(&[("grpc-status", "0")]),
            status_code: code,
            status_message: "done".to_string(),
            status_details: details.to_vec(),
        }),
    )
}

fn violation(r: Result<Calls, CallError>) -> CallError {
    match r {
        Ok(_) => panic!("expected a violation"),
        Err(e) => e,
    }
}

#[test]
fn entries_group_by_call_id_with_their_own_span() {
    let entries = vec![
        server_header(1, ts(30)),
        server_header(1, ts(10)),
        server_header(2, ts(25)),
        server_header(1, ts(20)),
        server_header(2, ts(5)),
    ];
    let calls = Calls::from_entries(entries).unwrap();
    assert_eq!(calls.len(), 2);
    let list = calls.iter();
    assert_eq!(list[0].id, 1);
    assert_eq!(list[0].start_time, ts(10));
    assert_eq!(list[0].end_time, ts(30));
    assert_eq!(list[1].id, 2);
    assert_eq!(list[1].start_time, ts(5));
    assert_eq!(list[1].end_time, ts(25));
}

#[test]
fn calls_come_out_in_ascending_id_order() {
    let entries = vec![server_header(9, None), server_header(3, None), server_header(7, None)];
    let calls = Calls::from_entries(entries).unwrap();
    let ids: Vec<u64> = calls.iter().iter().map(|c| c.id).collect();
    assert_eq!(ids, vec![3, 7, 9]);
    assert_eq!(calls.iter()[0].start_time, None);
}

#[test]
fn differing_authority_is_a_violation() {
    let entries = vec![client_header(1, "/svc/M", "a", &[]), client_header(1, "/svc/M", "b", &[])];
    assert_eq!(
        violation(Calls::from_entries(entries)),
        CallError { call_id: 1, violation: Violation::AuthorityMismatch }
    );
}

#[test]
fn identical_client_headers_are_accepted() {
    let entries = vec![client_header(1, "/svc/M", "a", &[]), client_header(1, "/svc/M", "a", &[])];
    let calls = Calls::from_entries(entries).unwrap();
    assert_eq!(calls.len(), 1);
    let call = &calls.iter()[0];
    assert_eq!(call.authority.as_deref(), Some("a"));
    assert_eq!(call.method_name.as_deref(), Some("/svc/M"));
}

#[test]
fn differing_method_name_is_a_violation() {
    let entries = vec![client_header(4, "/svc/A", "a", &[]), client_header(4, "/svc/B", "a", &[])];
    assert_eq!(
        violation(Calls::from_entries(entries)),
        CallError { call_id: 4, violation: Violation::MethodNameMismatch }
    );
}

#[test]
fn repeated_header_key_is_a_violation() {
    let entries = vec![
        client_header(1, "/svc/M", "a", &[("k", "1")]),
        client_header(1, "/svc/M", "a", &[("k", "1")]),
    ];
    assert_eq!(
        violation(Calls::from_entries(entries)),
        CallError { call_id: 1, violation: Violation::DuplicateClientHeader }
    );
}

#[test]
fn differing_peer_is_a_violation() {
    let mut second = server_header(5, None);
    second.peer = Some("10.0.0.2:80".to_string());
    let entries = vec![server_header(5, None), second];
    assert_eq!(
        violation(Calls::from_entries(entries)),
        CallError { call_id: 5, violation: Violation::PeerMismatch }
    );
}

#[test]
fn unknown_method_falls_back_to_raw_bytes() {
    let entries = vec![
        client_header(1, "/foo/Bar", "a", &[]),
        message(1, EventType::ClientMessage, b"payload"),
    ];
    let calls = Calls::from_entries(entries).unwrap();
    match &calls.iter()[0].request {
        Some(Method::Unknown { method_name, bytes }) => {
            assert_eq!(method_name, "/foo/Bar");
            assert_eq!(bytes, &Bytes::from_static(b"payload"));
        }
        other => panic!("unexpected request {:?}", other),
    }
}

#[test]
fn known_method_payloads_are_sorted_by_direction() {
    let entries = vec![
        client_header(1, "/influxdata.platform.storage.Storage/TagKeys", "a", &[]),
        message(1, EventType::ClientMessage, b"req"),
        message(1, EventType::ServerMessage, b"resp"),
    ];
    let calls = Calls::from_entries(entries).unwrap();
    let call = &calls.iter()[0];
    assert!(matches!(&call.request, Some(Method::TagKeysRequest(b)) if b.as_ref() == b"req"));
    assert!(
        matches!(&call.response, Some(Method::StringValuesResponse(b)) if b.as_ref() == b"resp")
    );
}

#[test]
fn message_before_method_name_is_a_violation() {
    let entries = vec![message(2, EventType::ClientMessage, b"x")];
    assert_eq!(
        violation(Calls::from_entries(entries)),
        CallError { call_id: 2, violation: Violation::MessageBeforeMethodName }
    );
}

#[test]
fn second_request_is_a_violation() {
    let entries = vec![
        client_header(1, "/foo/Bar", "a", &[]),
        message(1, EventType::ClientMessage, b"x"),
        message(1, EventType::ClientMessage, b"x"),
    ];
    assert_eq!(
        violation(Calls::from_entries(entries)),
        CallError { call_id: 1, violation: Violation::DuplicateRequest }
    );
}

#[test]
fn message_under_another_event_type_is_a_violation() {
    let entries = vec![
        client_header(1, "/foo/Bar", "a", &[]),
        message(1, EventType::Cancel, b"x"),
    ];
    assert_eq!(
        violation(Calls::from_entries(entries)),
        CallError { call_id: 1, violation: Violation::UnexpectedMessageEvent }
    );
}

#[test]
fn message_length_mismatch_is_a_violation() {
    let mut m = message(1, EventType::ClientMessage, b"abc");
    if let Payload::Message(msg) = &mut m.payload {
        msg.length = 4;
    }
    let entries = vec![client_header(1, "/foo/Bar", "a", &[]), m];
    assert_eq!(
        violation(Calls::from_entries(entries)),
        CallError { call_id: 1, violation: Violation::MessageLengthMismatch }
    );
}

#[test]
fn truncated_payload_is_a_violation() {
    let mut e = server_header(8, None);
    e.payload_truncated = true;
    assert_eq!(
        violation(Calls::from_entries(vec![e])),
        CallError { call_id: 8, violation: Violation::TruncatedPayload }
    );
}

#[test]
fn trailer_sets_status() {
    let entries = vec![trailer(3, 5, "not found".as_bytes())];
    let calls = Calls::from_entries(entries).unwrap();
    let call = &calls.iter()[0];
    assert_eq!(call.status_code, Some(5));
    assert_eq!(call.status_message.as_deref(), Some("done"));
    assert_eq!(call.status_details.as_deref(), Some("not found"));
    assert_eq!(
        call.status_metadata.get(&"grpc-status".to_string()).map(|s| s.as_str()),
        Some("0")
    );
}

#[test]
fn non_utf8_status_details_are_a_violation() {
    assert_eq!(
        violation(Calls::from_entries(vec![trailer(3, 0, &[0xff])])),
        CallError { call_id: 3, violation: Violation::StatusDetailsNotUtf8 }
    );
}

#[test]
fn differing_status_code_is_a_violation() {
    let mut second = trailer(3, 1, b"");
    if let Payload::Trailer(t) = &mut second.payload {
        t.metadata = headers(&[]);
    }
    let entries = vec![trailer(3, 0, b""), second];
    assert_eq!(
        violation(Calls::from_entries(entries)),
        CallError { call_id: 3, violation: Violation::StatusCodeMismatch }
    );
}

#[test]
fn capabilities_request_with_payload_is_a_violation() {
    let entries = vec![
        client_header(1, "/influxdata.platform.storage.Storage/Capabilities", "a", &[]),
        message(1, EventType::ClientMessage, b"x"),
    ];
    assert_eq!(
        violation(Calls::from_entries(entries)),
        CallError { call_id: 1, violation: Violation::CapabilitiesRequestPayload }
    );
}

#[test]
fn aggregator_applies_entries_one_at_a_time() {
    let mut agg = CallAggregator::new();
    agg.apply(server_header(2, ts(1))).unwrap();
    agg.apply(server_header(1, ts(2))).unwrap();
    let err = agg.apply(message(1, EventType::ServerMessage, b"x")).unwrap_err();
    assert_eq!(err, CallError { call_id: 1, violation: Violation::MessageBeforeMethodName });
}

#[test]
fn call_setters_accept_equal_values_only() {
    let mut call = Call::new(7);
    assert_eq!(call.with_status_message("a".to_string()), Ok(()));
    assert_eq!(call.with_status_message("a".to_string()), Ok(()));
    assert_eq!(
        call.with_status_message("b".to_string()),
        Err(Violation::StatusMessageMismatch)
    );
    assert_eq!(call.status_message.as_deref(), Some("a"));
    assert_eq!(call.with_peer(None), Ok(()));
    assert_eq!(call.peer, None);
}

fn org_calls() -> Calls {
    let entries = vec![
        client_header(1, "/svc/M", "a", &[("influx-org-id", "org1")]),
        client_header(2, "/svc/M", "a", &[("influx-org-id", "org2")]),
        client_header(3, "/influxdata.platform.storage.Storage/Offsets", "a", &[]),
        server_header(4, None),
        client_header(5, "/svc/N", "a", &[("influx-org-id", "org1")]),
    ];
    Calls::from_entries(entries).unwrap()
}

fn ids(calls: &Calls) -> Vec<u64> {
    calls.iter().iter().map(|c| c.id).collect()
}

#[test]
fn filter_by_org_id_keeps_matching_calls() {
    let once = org_calls().filter_by_org_id("org1");
    assert_eq!(ids(&once), vec![1, 5]);
}

#[test]
fn filtering_by_org_twice_equals_once() {
    let once = org_calls().filter_by_org_id("org1");
    let twice = org_calls().filter_by_org_id("org1").filter_by_org_id("org1");
    assert_eq!(ids(&once), ids(&twice));
    assert_eq!(ids(&org_calls().filter_by_org_id("none")), Vec::<u64>::new());
}

#[test]
fn filter_offset_calls_drops_offset_polls() {
    let kept = org_calls().filter_offset_calls();
    assert_eq!(ids(&kept), vec![1, 2, 4, 5]);
}

#[test]
fn extend_from_other_appends() {
    let mut a = Calls::from_entries(vec![server_header(1, None)]).unwrap();
    let b = Calls::from_entries(vec![server_header(0, None), server_header(2, None)]).unwrap();
    a.extend_from_other(b);
    assert_eq!(ids(&a), vec![1, 0, 2]);
}

#[test]
fn repeated_server_header_key_is_a_violation() {
    let mut a = server_header(6, None);
    let mut b = server_header(6, None);
    for e in [&mut a, &mut b] {
        if let Payload::ServerHeader(h) = &mut e.payload {
            h.metadata = headers(&[("content-type", "application/grpc")]);
        }
    }
    assert_eq!(
        violation(Calls::from_entries(vec![a, b])),
        CallError { call_id: 6, violation: Violation::DuplicateServerHeader }
    );
}

#[test]
fn repeated_status_metadata_key_is_a_violation() {
    let entries = vec![trailer(3, 0, b""), trailer(3, 0, b"")];
    assert_eq!(
        violation(Calls::from_entries(entries)),
        CallError { call_id: 3, violation: Violation::DuplicateStatusMetadata }
    );
}

#[test]
fn differing_status_details_are_a_violation() {
    let mut second = trailer(3, 0, b"other");
    if let Payload::Trailer(t) = &mut second.payload {
        t.metadata = headers(&[]);
    }
    let entries = vec![trailer(3, 0, b"first"), second];
    assert_eq!(
        violation(Calls::from_entries(entries)),
        CallError { call_id: 3, violation: Violation::StatusDetailsMismatch }
    );
}

#[test]
fn second_response_is_a_violation() {
    let entries = vec![
        client_header(1, "/foo/Bar", "a", &[]),
        message(1, EventType::ServerMessage, b"x"),
        message(1, EventType::ServerMessage, b"y"),
    ];
    assert_eq!(
        violation(Calls::from_entries(entries)),
        CallError { call_id: 1, violation: Violation::DuplicateResponse }
    );
}

#[test]
fn later_timestamps_widen_only_their_own_call() {
    let entries = vec![server_header(1, ts(50)), server_header(2, None), server_header(1, None)];
    let calls = Calls::from_entries(entries).unwrap();
    assert_eq!(calls.iter()[0].start_time, ts(50));
    assert_eq!(calls.iter()[0].end_time, ts(50));
    assert_eq!(calls.iter()[1].start_time, None);
    assert_eq!(calls.iter()[1].end_time, None);
}

#[test]
fn default_calls_are_empty() {
    let mut calls = Calls::default();
    assert_eq!(calls.len(), 0);
    calls.extend_from_other(Calls::from_entries(vec![server_header(3, None)]).unwrap());
    assert_eq!(ids(&calls), vec![3]);
}
