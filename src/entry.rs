//! Log entries in the library's form: enum codes mapped to enums, timestamps
//! checked, peers written out and metadata collapsed into maps.
use crate::binarylog;
use crate::error::EntryError;
use crate::headers::{pairs_map, Headers};
use crate::text::{format_peer, peer_text, utf8_string, utf8_text};
use crate::timestamp::{duration_nanos, timestamp_of, to_chrono_duration, to_chrono_timestamp, Timestamp};
use vstd::prelude::*;

verus! {

/// The kind of event that an entry records.
#[derive(Debug, Clone, Copy, PartialEq, Eq, Structural)]
pub enum EventType {
    Unknown,
    ClientHeader,
    ServerHeader,
    ClientMessage,
    ServerMessage,
    ClientHalfClose,
    ServerTrailer,
    Cancel,
}

/// Which end of the call wrote the entry.
#[derive(Debug, Clone, Copy, PartialEq, Eq, Structural)]
pub enum Logger {
    Unknown,
    Client,
    Server,
}

impl EventType {
    /// The event type of a schema code; codes the schema does not define read
    /// as `Unknown`.
    pub open spec fn spec_from_code(code: i32) -> EventType {
        if code == 1 {
            EventType::ClientHeader
        } else if code == 2 {
            EventType::ServerHeader
        } else if code == 3 {
            EventType::ClientMessage
        } else if code == 4 {
            EventType::ServerMessage
        } else if code == 5 {
            EventType::ClientHalfClose
        } else if code == 6 {
            EventType::ServerTrailer
        } else if code == 7 {
            EventType::Cancel
        } else {
            EventType::Unknown
        }
    }

    pub fn from_code(code: i32) -> (r: EventType)
        ensures
            r == Self::spec_from_code(code),
    {
        match code {
            1 => EventType::ClientHeader,
            2 => EventType::ServerHeader,
            3 => EventType::ClientMessage,
            4 => EventType::ServerMessage,
            5 => EventType::ClientHalfClose,
            6 => EventType::ServerTrailer,
            7 => EventType::Cancel,
            _ => EventType::Unknown,
        }
    }
}

impl Logger {
    /// The logger of a schema code; codes the schema does not define read as
    /// `Unknown`.
    pub open spec fn spec_from_code(code: i32) -> Logger {
        if code == 1 {
            Logger::Client
        } else if code == 2 {
            Logger::Server
        } else {
            Logger::Unknown
        }
    }

    pub fn from_code(code: i32) -> (r: Logger)
        ensures
            r == Self::spec_from_code(code),
    {
        match code {
            1 => Logger::Client,
            2 => Logger::Server,
            _ => Logger::Unknown,
        }
    }
}

/// A client's opening of a call.
#[derive(Debug)]
pub struct ClientHeader {
    pub metadata: Headers,
    pub method_name: String,
    /// Host name of the client making the request.
    pub authority: String,
    /// The call's timeout, in nanoseconds.
    pub timeout: Option<i64>,
}

#[derive(Debug)]
pub struct ServerHeader {
    pub metadata: Headers,
}

/// One application message; `data` is still encoded.
#[derive(Debug)]
pub struct Message {
    pub length: u32,
    pub data: Vec<u8>,
}

/// The server's closing of a call.
#[derive(Debug)]
pub struct Trailer {
    pub metadata: Headers,
    pub status_code: u32,
    pub status_message: String,
    pub status_details: Vec<u8>,
}

#[derive(Debug)]
pub enum Payload {
    ClientHeader(ClientHeader),
    ServerHeader(ServerHeader),
    Message(Message),
    Trailer(Trailer),
}

/// One observed log event.
#[derive(Debug)]
pub struct Entry {
    pub timestamp: Option<Timestamp>,
    pub call_id: u64,
    pub sequence_id_within_call: u64,
    pub event_type: EventType,
    pub logger: Logger,
    pub payload_truncated: bool,
    /// The other end, as `address:port`.
    pub peer: Option<String>,
    pub payload: Payload,
}

/// Every value of the metadata pairs is valid UTF-8.
pub open spec fn metadata_entries_valid(es: Seq<binarylog::MetadataEntry>) -> bool {
    forall|i: int| 0 <= i < es.len() ==> (#[trigger] utf8_text(es[i].value@)) is Some
}

/// The metadata pairs with their values decoded.
pub open spec fn metadata_pairs(es: Seq<binarylog::MetadataEntry>) -> Seq<(Seq<char>, Seq<char>)> {
    es.map_values(|e: binarylog::MetadataEntry| (e.key@, utf8_text(e.value@).unwrap()))
}

/// The map that optional metadata makes (a later pair replaces an earlier one
/// with the same key), or `None` if a value is not UTF-8.
pub open spec fn metadata_map(m: Option<binarylog::Metadata>) -> Option<Map<Seq<char>, Seq<char>>> {
    match m {
        None => Some(Map::empty()),
        Some(m) => if metadata_entries_valid(m.entry@) {
            Some(pairs_map(metadata_pairs(m.entry@)))
        } else {
            None
        },
    }
}

/// Inserting the pairs of `a`, then those of `b`, makes the union of the two
/// maps, `b`'s values winning.
proof fn lemma_pairs_map_concat(a: Seq<(Seq<char>, Seq<char>)>, b: Seq<(Seq<char>, Seq<char>)>)
    ensures
        pairs_map(a + b) == pairs_map(a).union_prefer_right(pairs_map(b)),
    decreases b.len(),
{
    if b.len() == 0 {
        assert(a + b =~= a);
        assert(pairs_map(a).union_prefer_right(Map::empty()) =~= pairs_map(a));
    } else {
        lemma_pairs_map_concat(a, b.drop_last());
        assert((a + b).drop_last() =~= a + b.drop_last());
        assert(pairs_map(a + b) =~= pairs_map(a).union_prefer_right(pairs_map(b)));
    }
}

/// The map of optional metadata: an error if any value is not UTF-8.
pub fn to_hashmap(metadata: Option<binarylog::Metadata>) -> (r: Result<Headers, EntryError>)
    ensures
        match r {
            Ok(h) => metadata_map(metadata) == Some(h@),
            Err(e) => metadata_map(metadata) is None && e == EntryError::NonUtf8Metadata,
        },
{
    let mut headers = Headers::new();
    let ghost given = metadata;
    let m = match metadata {
        None => {
            return Ok(headers);
        },
        Some(m) => m,
    };
    let mut rest = m.entry;
    let ghost all = rest@;
    assert(given == Some(m) && m.entry@ == all);
    // Walking from the back, the first pair seen for a key is the one that wins.
    while rest.len() > 0
        invariant
            given == metadata,
            given is Some,
            given.unwrap().entry@ == all,
            rest@.len() <= all.len(),
            rest@ == all.subrange(0, rest@.len() as int),
            forall|i: int|
                rest@.len() <= i < all.len() ==> (#[trigger] utf8_text(all[i].value@)) is Some,
            headers@ == pairs_map(
                metadata_pairs(all.subrange(rest@.len() as int, all.len() as int)),
            ),
        decreases rest@.len(),
    {
        let ghost n = rest@.len() as int;
        let ghost rest_before = rest@;
        let e = rest.pop().unwrap();
        proof {
            assert(rest_before[n - 1] == all[n - 1]);
            assert(e == all[n - 1]);
            assert(rest@ =~= all.subrange(0, n - 1));
        }
        let binarylog::MetadataEntry { key, value } = e;
        let text = match utf8_string(value) {
            Some(t) => t,
            None => {
                proof {
                    assert(utf8_text(all[n - 1].value@) is None);
                    assert(!metadata_entries_valid(all));
                }
                return Err(EntryError::NonUtf8Metadata);
            },
        };
        let ghost before = headers@;
        if !headers.contains_key(&key) {
            headers.insert(key, text);
        }
        proof {
            assert(all[n - 1] == e);
            let tail = all.subrange(n, all.len() as int);
            let longer = all.subrange(n - 1, all.len() as int);
            assert(metadata_pairs(longer) =~= seq![(e.key@, utf8_text(e.value@).unwrap())]
                + metadata_pairs(tail));
            lemma_pairs_map_concat(
                seq![(e.key@, utf8_text(e.value@).unwrap())],
                metadata_pairs(tail),
            );
            let single = seq![(e.key@, utf8_text(e.value@).unwrap())];
            assert(single.drop_last() =~= seq![]);
            assert(single.drop_last().len() == 0);
            assert(pairs_map(single.drop_last()) == Map::<Seq<char>, Seq<char>>::empty());
            assert(single.last() == (e.key@, utf8_text(e.value@).unwrap()));
            assert(pairs_map(single) == Map::<Seq<char>, Seq<char>>::empty().insert(
                e.key@,
                utf8_text(e.value@).unwrap(),
            ));
            assert(headers@ =~= pairs_map(single).union_prefer_right(before));
        }
    }
    proof {
        assert(all.subrange(0, all.len() as int) =~= all);
        assert(metadata_entries_valid(all));
    }
    Ok(headers)
}

/// The timestamp an entry gets from its schema timestamp.
pub open spec fn timestamp_result(t: Option<binarylog::PbTimestamp>) -> Result<
    Option<Timestamp>,
    EntryError,
> {
    match t {
        None => Ok(None),
        Some(t) => match timestamp_of(t.seconds, t.nanos) {
            Ok(ts) => Ok(Some(ts)),
            Err(e) => Err(e),
        },
    }
}

/// The timeout, in nanoseconds, that a client header gets from its schema
/// duration.
pub open spec fn timeout_result(d: Option<binarylog::PbDuration>) -> Result<Option<i64>, EntryError> {
    match d {
        None => Ok(None),
        Some(d) => match duration_nanos(d.seconds, d.nanos) {
            Some(n) => Ok(Some(n)),
            None => Err(EntryError::DurationOverflow),
        },
    }
}

/// The first error met while converting a payload, if any.
pub open spec fn payload_error(p: binarylog::LogPayload) -> Option<EntryError> {
    match p {
        binarylog::LogPayload::ClientHeader(h) => if metadata_map(h.metadata) is None {
            Some(EntryError::NonUtf8Metadata)
        } else {
            match timeout_result(h.timeout) {
                Ok(_) => None,
                Err(e) => Some(e),
            }
        },
        binarylog::LogPayload::ServerHeader(h) => if metadata_map(h.metadata) is None {
            Some(EntryError::NonUtf8Metadata)
        } else {
            None
        },
        binarylog::LogPayload::Message(_) => None,
        binarylog::LogPayload::Trailer(t) => if metadata_map(t.metadata) is None {
            Some(EntryError::NonUtf8Metadata)
        } else {
            None
        },
    }
}

/// `out` is the conversion of `src` (where it has no error).
pub open spec fn payload_matches(out: Payload, src: binarylog::LogPayload) -> bool {
    match (out, src) {
        (Payload::ClientHeader(o), binarylog::LogPayload::ClientHeader(s)) => {
            &&& metadata_map(s.metadata) == Some(o.metadata@)
            &&& o.method_name@ == s.method_name@
            &&& o.authority@ == s.authority@
            &&& timeout_result(s.timeout) == Ok::<Option<i64>, EntryError>(o.timeout)
        },
        (Payload::ServerHeader(o), binarylog::LogPayload::ServerHeader(s)) => {
            metadata_map(s.metadata) == Some(o.metadata@)
        },
        (Payload::Message(o), binarylog::LogPayload::Message(s)) => {
            o.length == s.length && o.data@ == s.data@
        },
        (Payload::Trailer(o), binarylog::LogPayload::Trailer(s)) => {
            &&& metadata_map(s.metadata) == Some(o.metadata@)
            &&& o.status_code == s.status_code
            &&& o.status_message@ == s.status_message@
            &&& o.status_details@ == s.status_details@
        },
        _ => false,
    }
}

impl Payload {
    pub fn from_log(p: binarylog::LogPayload) -> (r: Result<Payload, EntryError>)
        ensures
            match r {
                Ok(out) => payload_error(p) is None && payload_matches(out, p),
                Err(e) => payload_error(p) == Some(e),
            },
    {
        match p {
            binarylog::LogPayload::ClientHeader(h) => {
                let binarylog::ClientHeader { metadata, method_name, authority, timeout } = h;
                let metadata = to_hashmap(metadata)?;
                let timeout = match timeout {
                    None => None,
                    Some(d) => Some(to_chrono_duration(d)?),
                };
                Ok(Payload::ClientHeader(ClientHeader { metadata, method_name, authority, timeout }))
            },
            binarylog::LogPayload::ServerHeader(h) => {
                let metadata = to_hashmap(h.metadata)?;
                Ok(Payload::ServerHeader(ServerHeader { metadata }))
            },
            binarylog::LogPayload::Message(m) => {
                Ok(Payload::Message(Message { length: m.length, data: m.data }))
            },
            binarylog::LogPayload::Trailer(t) => {
                let binarylog::Trailer { metadata, status_code, status_message, status_details } =
                    t;
                let metadata = to_hashmap(metadata)?;
                Ok(
                    Payload::Trailer(
                        Trailer { metadata, status_code, status_message, status_details },
                    ),
                )
            },
        }
    }
}

/// The first error met while converting a schema entry, if any.
pub open spec fn entry_error(inner: binarylog::GrpcLogEntry) -> Option<EntryError> {
    match timestamp_result(inner.timestamp) {
        Err(e) => Some(e),
        Ok(_) => match inner.payload {
            None => Some(EntryError::MissingPayload),
            Some(p) => payload_error(p),
        },
    }
}

/// `e` is the conversion of `inner` (where it has no error).
pub open spec fn entry_matches(e: Entry, inner: binarylog::GrpcLogEntry) -> bool {
    &&& timestamp_result(inner.timestamp) == Ok::<Option<Timestamp>, EntryError>(e.timestamp)
    &&& e.call_id == inner.call_id
    &&& e.sequence_id_within_call == inner.sequence_id_within_call
    &&& e.event_type == EventType::spec_from_code(inner.event_type)
    &&& e.logger == Logger::spec_from_code(inner.logger)
    &&& e.payload_truncated == inner.payload_truncated
    &&& match inner.peer {
        None => e.peer is None,
        Some(a) => e.peer is Some && e.peer.unwrap()@ == peer_text(a.address@, a.ip_port),
    }
    &&& inner.payload is Some
    &&& payload_matches(e.payload, inner.payload.unwrap())
}

impl Entry {
    pub fn new(inner: binarylog::GrpcLogEntry) -> (r: Result<Entry, EntryError>)
        ensures
            match r {
                Ok(e) => entry_error(inner) is None && entry_matches(e, inner),
                Err(err) => entry_error(inner) == Some(err),
            },
    {
        let binarylog::GrpcLogEntry {
            timestamp,
            call_id,
            sequence_id_within_call,
            event_type,
            logger,
            payload_truncated,
            peer,
            payload,
        } = inner;
        let timestamp = match timestamp {
            None => None,
            Some(t) => Some(to_chrono_timestamp(t)?),
        };
        let peer = match peer {
            None => None,
            Some(a) => Some(format_peer(&a.address, a.ip_port)),
        };
        let payload = match payload {
            None => {
                return Err(EntryError::MissingPayload);
            },
            Some(p) => Payload::from_log(p)?,
        };
        Ok(
            Entry {
                timestamp,
                call_id,
                sequence_id_within_call,
                event_type: EventType::from_code(event_type),
                logger: Logger::from_code(logger),
                payload_truncated,
                peer,
                payload,
            },
        )
    }
}

} // verus!
