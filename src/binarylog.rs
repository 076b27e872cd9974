//! The log-entry record of the gRPC binary-log schema, field for field, as
//! plain values. A protobuf decoder fills these; [`crate::entry`] turns them
//! into the library's entries.
use vstd::prelude::*;

verus! {

/// Seconds and nanoseconds since the Unix epoch.
#[derive(Debug, Clone, Copy, PartialEq, Eq, Structural)]
pub struct PbTimestamp {
    pub seconds: i64,
    pub nanos: i32,
}

/// A signed span of seconds and nanoseconds.
#[derive(Debug, Clone, Copy, PartialEq, Eq, Structural)]
pub struct PbDuration {
    pub seconds: i64,
    pub nanos: i32,
}

/// The address of the other end of the call.
#[derive(Debug)]
pub struct Address {
    pub address: String,
    pub ip_port: u32,
}

/// One metadata pair; the value is raw bytes.
#[derive(Debug)]
pub struct MetadataEntry {
    pub key: String,
    pub value: Vec<u8>,
}

#[derive(Debug)]
pub struct Metadata {
    pub entry: Vec<MetadataEntry>,
}

#[derive(Debug)]
pub struct ClientHeader {
    pub metadata: Option<Metadata>,
    pub method_name: String,
    pub authority: String,
    pub timeout: Option<PbDuration>,
}

#[derive(Debug)]
pub struct ServerHeader {
    pub metadata: Option<Metadata>,
}

#[derive(Debug)]
pub struct Message {
    pub length: u32,
    pub data: Vec<u8>,
}

#[derive(Debug)]
pub struct Trailer {
    pub metadata: Option<Metadata>,
    pub status_code: u32,
    pub status_message: String,
    pub status_details: Vec<u8>,
}

/// The payload one-of of a log entry.
#[derive(Debug)]
pub enum LogPayload {
    ClientHeader(ClientHeader),
    ServerHeader(ServerHeader),
    Message(Message),
    Trailer(Trailer),
}

/// A log entry as the schema has it; `event_type` and `logger` are the
/// schema's enum codes.
#[derive(Debug)]
pub struct GrpcLogEntry {
    pub timestamp: Option<PbTimestamp>,
    pub call_id: u64,
    pub sequence_id_within_call: u64,
    pub event_type: i32,
    pub logger: i32,
    pub payload_truncated: bool,
    pub peer: Option<Address>,
    pub payload: Option<LogPayload>,
}

} // verus!
