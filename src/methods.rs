//! Application payloads, told apart by the gRPC method they belong to.
//!
//! The message schemas of the storage service are not part of this library:
//! a payload of a known method is kept as its encoded message, under the
//! variant that names the message type.
use crate::buffer::{buffer_from_vec, bytes_content};
use crate::error::Violation;
use bytes::Bytes;
use vstd::prelude::*;
use vstd::string::StringExecFns;

verus! {

pub const OFFSETS_METHOD: &'static str = "/influxdata.platform.storage.Storage/Offsets";

pub const TAG_KEYS_METHOD: &'static str = "/influxdata.platform.storage.Storage/TagKeys";

pub const TAG_VALUES_METHOD: &'static str = "/influxdata.platform.storage.Storage/TagValues";

pub const CAPABILITIES_METHOD: &'static str = "/influxdata.platform.storage.Storage/Capabilities";

pub const READ_WINDOW_AGGREGATE_METHOD: &'static str =
    "/influxdata.platform.storage.Storage/ReadWindowAggregate";

/// Which way a payload travels.
#[derive(Debug, Clone, Copy, PartialEq, Eq, Structural)]
pub enum MethodType {
    Request,
    Response,
}

/// The payload of a call, by method and direction.
#[derive(Debug)]
pub enum Method {
    /// Request of `Offsets`, not decoded further.
    StorageOffsetsRequest(Bytes),
    /// Response of `Offsets`: an encoded `OffsetsResponse`.
    StorageOffsetsResponse(Bytes),
    /// Request of `TagKeys`: an encoded `TagKeysRequest`.
    TagKeysRequest(Bytes),
    /// Request of `TagValues`: an encoded `TagValuesRequest`.
    TagValuesRequest(Bytes),
    /// Request of `Capabilities`, which has no payload.
    CapabilitiesRequest,
    /// Response of `Capabilities`: an encoded `CapabilitiesResponse`.
    CapabilitiesResponse(Bytes),
    /// Request of `ReadWindowAggregate`: an encoded
    /// `ReadWindowAggregateRequest`.
    ReadWindowAggregateRequest(Bytes),
    /// Response of `ReadWindowAggregate`: an encoded `ReadResponse`.
    ReadResponse(Bytes),
    /// Response of `TagKeys` or `TagValues`: an encoded
    /// `StringValuesResponse`.
    StringValuesResponse(Bytes),
    /// A method this library does not know, with its raw payload.
    Unknown { method_name: String, bytes: Bytes },
}

/// A [`Method`] with its bytes and name as sequences.
pub enum MethodView {
    StorageOffsetsRequest(Seq<u8>),
    StorageOffsetsResponse(Seq<u8>),
    TagKeysRequest(Seq<u8>),
    TagValuesRequest(Seq<u8>),
    CapabilitiesRequest,
    CapabilitiesResponse(Seq<u8>),
    ReadWindowAggregateRequest(Seq<u8>),
    ReadResponse(Seq<u8>),
    StringValuesResponse(Seq<u8>),
    Unknown { method_name: Seq<char>, bytes: Seq<u8> },
}

impl View for Method {
    type V = MethodView;

    open spec fn view(&self) -> MethodView {
        match self {
            Method::StorageOffsetsRequest(b) => MethodView::StorageOffsetsRequest(bytes_content(*b)),
            Method::StorageOffsetsResponse(b) => MethodView::StorageOffsetsResponse(
                bytes_content(*b),
            ),
            Method::TagKeysRequest(b) => MethodView::TagKeysRequest(bytes_content(*b)),
            Method::TagValuesRequest(b) => MethodView::TagValuesRequest(bytes_content(*b)),
            Method::CapabilitiesRequest => MethodView::CapabilitiesRequest,
            Method::CapabilitiesResponse(b) => MethodView::CapabilitiesResponse(bytes_content(*b)),
            Method::ReadWindowAggregateRequest(b) => MethodView::ReadWindowAggregateRequest(
                bytes_content(*b),
            ),
            Method::ReadResponse(b) => MethodView::ReadResponse(bytes_content(*b)),
            Method::StringValuesResponse(b) => MethodView::StringValuesResponse(bytes_content(*b)),
            Method::Unknown { method_name, bytes } => MethodView::Unknown {
                method_name: method_name@,
                bytes: bytes_content(*bytes),
            },
        }
    }
}

/// The payload that `data` of method `name` travelling as `t` decodes to:
/// an exact match on the method name picks the message type; a name that
/// is not in the table gives `Unknown`.
pub open spec fn decoded_method(name: Seq<char>, data: Seq<u8>, t: MethodType) -> Result<
    MethodView,
    Violation,
> {
    if name == OFFSETS_METHOD@ {
        match t {
            MethodType::Request => Ok(MethodView::StorageOffsetsRequest(data)),
            MethodType::Response => Ok(MethodView::StorageOffsetsResponse(data)),
        }
    } else if name == CAPABILITIES_METHOD@ {
        match t {
            MethodType::Request => if data.len() == 0 {
                Ok(MethodView::CapabilitiesRequest)
            } else {
                Err(Violation::CapabilitiesRequestPayload)
            },
            MethodType::Response => Ok(MethodView::CapabilitiesResponse(data)),
        }
    } else if name == TAG_KEYS_METHOD@ {
        match t {
            MethodType::Request => Ok(MethodView::TagKeysRequest(data)),
            MethodType::Response => Ok(MethodView::StringValuesResponse(data)),
        }
    } else if name == TAG_VALUES_METHOD@ {
        match t {
            MethodType::Request => Ok(MethodView::TagValuesRequest(data)),
            MethodType::Response => Ok(MethodView::StringValuesResponse(data)),
        }
    } else if name == READ_WINDOW_AGGREGATE_METHOD@ {
        match t {
            MethodType::Request => Ok(MethodView::ReadWindowAggregateRequest(data)),
            MethodType::Response => Ok(MethodView::ReadResponse(data)),
        }
    } else {
        Ok(MethodView::Unknown { method_name: name, bytes: data })
    }
}

/// Whether `name` is the method named by `known`.
fn is_method(name: &String, known: &str) -> (r: bool)
    ensures
        r == (name@ == known@),
{
    let known = String::from_str(known);
    *name == known
}

impl Method {
    pub fn new(method_name: &String, data: Vec<u8>, method_type: MethodType) -> (r: Result<
        Method,
        Violation,
    >)
        ensures
            match r {
                Ok(m) => decoded_method(method_name@, data@, method_type) == Ok::<
                    MethodView,
                    Violation,
                >(m@),
                Err(v) => decoded_method(method_name@, data@, method_type) == Err::<
                    MethodView,
                    Violation,
                >(v),
            },
    {
        let is_request = match method_type {
            MethodType::Request => true,
            MethodType::Response => false,
        };
        if is_method(method_name, OFFSETS_METHOD) {
            let bytes = buffer_from_vec(data);
            if is_request {
                Ok(Method::StorageOffsetsRequest(bytes))
            } else {
                Ok(Method::StorageOffsetsResponse(bytes))
            }
        } else if is_method(method_name, CAPABILITIES_METHOD) {
            if is_request {
                if data.len() == 0 {
                    Ok(Method::CapabilitiesRequest)
                } else {
                    Err(Violation::CapabilitiesRequestPayload)
                }
            } else {
                Ok(Method::CapabilitiesResponse(buffer_from_vec(data)))
            }
        } else if is_method(method_name, TAG_KEYS_METHOD) {
            let bytes = buffer_from_vec(data);
            if is_request {
                Ok(Method::TagKeysRequest(bytes))
            } else {
                Ok(Method::StringValuesResponse(bytes))
            }
        } else if is_method(method_name, TAG_VALUES_METHOD) {
            let bytes = buffer_from_vec(data);
            if is_request {
                Ok(Method::TagValuesRequest(bytes))
            } else {
                Ok(Method::StringValuesResponse(bytes))
            }
        } else if is_method(method_name, READ_WINDOW_AGGREGATE_METHOD) {
            let bytes = buffer_from_vec(data);
            if is_request {
                Ok(Method::ReadWindowAggregateRequest(bytes))
            } else {
                Ok(Method::ReadResponse(bytes))
            }
        } else {
            Ok(Method::Unknown { method_name: method_name.clone(), bytes: buffer_from_vec(data) })
        }
    }
}

} // verus!
