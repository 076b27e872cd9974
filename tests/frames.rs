use bytes::Bytes;
use influxrpc_compare::frames::{FrameError, LengthDelimitedRecords};

fn frame(payload: &[u8]) -> Vec<u8> {
    let mut out = (payload.len() as i32).to_be_bytes().to_vec();
    out.extend_from_slice(payload);
    out
}

fn read_all(buf: Vec<u8>) -> Vec<Result<Bytes, FrameError>> {
    let mut reader = LengthDelimitedRecords::new(Bytes::from(buf));
    let mut out = Vec::new();
    while let Some(item) = reader.next() {
        out.push(item);
    }
    out
}

#[test]
fn round_trip_yields_each_payload_in_order() {
    let payloads: Vec<Vec<u8>> = vec![b"first".to_vec(), vec![], vec![0u8; 300], b"x".to_vec()];
    let mut buf = Vec::new();
    for p in &payloads {
        buf.extend(frame(p));
    }
    let items = read_all(buf);
    assert_eq!(items.len(), payloads.len());
    for (item, p) in items.iter().zip(payloads.iter()) {
        assert_eq!(item.as_ref().unwrap().as_ref(), p.as_slice());
    }
}

#[test]
fn empty_buffer_yields_nothing() {
    assert!(read_all(Vec::new()).is_empty());
}

#[test]
fn truncated_length_prefix_is_the_last_item() {
    let mut buf = frame(b"abc");
    buf.extend_from_slice(&[0, 0]);
    let items = read_all(buf);
    assert_eq!(items.len(), 2);
    assert_eq!(items[0].as_ref().unwrap().as_ref(), b"abc");
    assert_eq!(
        items[1],
        Err(FrameError::InsufficientLengthBytes { offset: 7, remaining: 2 })
    );
}

#[test]
fn oversized_length_ends_the_sequence() {
    let mut buf = frame(b"ok");
    buf.extend_from_slice(&10i32.to_be_bytes());
    buf.extend_from_slice(b"short");
    let items = read_all(buf);
    assert_eq!(items.len(), 2);
    assert_eq!(items[0].as_ref().unwrap().as_ref(), b"ok");
    assert_eq!(
        items[1],
        Err(FrameError::LengthExceedsBuffer { offset: 6, declared: 10, remaining: 5 })
    );
}

#[test]
fn length_equal_to_remaining_bytes_is_accepted() {
    let mut buf = 3i32.to_be_bytes().to_vec();
    buf.extend_from_slice(b"end");
    let items = read_all(buf);
    assert_eq!(items.len(), 1);
    assert_eq!(items[0].as_ref().unwrap().as_ref(), b"end");
}

#[test]
fn negative_length_is_an_error() {
    let mut buf = (-1i32).to_be_bytes().to_vec();
    buf.extend_from_slice(b"data");
    let items = read_all(buf);
    assert_eq!(
        items,
        vec![Err(FrameError::LengthExceedsBuffer { offset: 0, declared: -1, remaining: 4 })]
    );
}

#[test]
fn big_endian_length_is_read_most_significant_byte_first() {
    let payload = vec![7u8; 258];
    let mut buf = vec![0, 0, 1, 2];
    buf.extend_from_slice(&payload);
    let items = read_all(buf);
    assert_eq!(items.len(), 1);
    assert_eq!(items[0].as_ref().unwrap().len(), 258);
}

#[test]
fn reader_stays_finished_after_an_error() {
    let mut reader = LengthDelimitedRecords::new(Bytes::from(vec![1u8]));
    assert!(matches!(reader.next(), Some(Err(_))));
    assert!(reader.next().is_none());
    assert!(reader.next().is_none());
}
