//! One logical gRPC call, assembled from the entries that carry its id.
//!
//! A single-value field takes its first observation; a later observation is
//! accepted if it is equal and is a violation if it differs. A map field
//! takes the pairs of every entry, whose keys must not repeat.
use crate::error::Violation;
use crate::headers::Headers;
use crate::methods::{decoded_method, Method, MethodType, MethodView};
use crate::timestamp::Timestamp;
use vstd::prelude::*;

verus! {

/// A logical call.
#[derive(Debug)]
pub struct Call {
    pub id: u64,
    /// gRPC method name.
    pub method_name: Option<String>,
    /// Request payload, decoded according to the method name.
    pub request: Option<Method>,
    /// Response payload, decoded according to the method name.
    pub response: Option<Method>,
    /// Earliest timestamp of the call's entries.
    pub start_time: Option<Timestamp>,
    /// Latest timestamp of the call's entries.
    pub end_time: Option<Timestamp>,
    /// The other end of the call.
    pub peer: Option<String>,
    /// Host name of the client.
    pub authority: Option<String>,
    /// Headers sent by the client.
    pub client_headers: Headers,
    /// Headers sent by the server.
    pub server_headers: Headers,
    pub status_code: Option<u32>,
    pub status_message: Option<String>,
    /// Status details, as text.
    pub status_details: Option<String>,
    /// Trailer metadata.
    pub status_metadata: Headers,
}

/// A [`Call`] with its strings, payloads and maps as mathematical values.
pub struct CallView {
    pub id: u64,
    pub method_name: Option<Seq<char>>,
    pub request: Option<MethodView>,
    pub response: Option<MethodView>,
    pub start_time: Option<Timestamp>,
    pub end_time: Option<Timestamp>,
    pub peer: Option<Seq<char>>,
    pub authority: Option<Seq<char>>,
    pub client_headers: Map<Seq<char>, Seq<char>>,
    pub server_headers: Map<Seq<char>, Seq<char>>,
    pub status_code: Option<u32>,
    pub status_message: Option<Seq<char>>,
    pub status_details: Option<Seq<char>>,
    pub status_metadata: Map<Seq<char>, Seq<char>>,
}

/// An optional string as an optional sequence.
pub open spec fn opt_text(s: Option<String>) -> Option<Seq<char>> {
    match s {
        Some(s) => Some(s@),
        None => None,
    }
}

/// An optional payload as its view.
pub open spec fn opt_method(m: Option<Method>) -> Option<MethodView> {
    match m {
        Some(m) => Some(m@),
        None => None,
    }
}

/// A single-value field after observing `v`: `None` if it already holds a
/// different value.
pub open spec fn observe_once<T>(cur: Option<T>, v: T) -> Option<Option<T>> {
    match cur {
        None => Some(Some(v)),
        Some(c) => if c == v {
            Some(Some(c))
        } else {
            None
        },
    }
}

/// The earlier of two timestamps.
pub open spec fn earliest(a: Timestamp, b: Timestamp) -> Timestamp {
    if a.no_later_than(b) {
        a
    } else {
        b
    }
}

/// The later of two timestamps.
pub open spec fn latest(a: Timestamp, b: Timestamp) -> Timestamp {
    if a.no_later_than(b) {
        b
    } else {
        a
    }
}

/// `r` and the value after the call are those that `expected` gives; on an
/// error nothing has changed.
pub open spec fn outcome(
    before: CallView,
    after: CallView,
    r: Result<(), Violation>,
    expected: Result<CallView, Violation>,
) -> bool {
    match expected {
        Ok(v) => r is Ok && after == v,
        Err(e) => r == Err::<(), Violation>(e) && after == before,
    }
}

impl View for Call {
    type V = CallView;

    open spec fn view(&self) -> CallView {
        CallView {
            id: self.id,
            method_name: opt_text(self.method_name),
            request: opt_method(self.request),
            response: opt_method(self.response),
            start_time: self.start_time,
            end_time: self.end_time,
            peer: opt_text(self.peer),
            authority: opt_text(self.authority),
            client_headers: self.client_headers@,
            server_headers: self.server_headers@,
            status_code: self.status_code,
            status_message: opt_text(self.status_message),
            status_details: opt_text(self.status_details),
            status_metadata: self.status_metadata@,
        }
    }
}

impl CallView {
    /// A call that nothing has been observed of yet.
    pub open spec fn empty(id: u64) -> CallView {
        CallView {
            id,
            method_name: None,
            request: None,
            response: None,
            start_time: None,
            end_time: None,
            peer: None,
            authority: None,
            client_headers: Map::empty(),
            server_headers: Map::empty(),
            status_code: None,
            status_message: None,
            status_details: None,
            status_metadata: Map::empty(),
        }
    }

    /// The observed span widened to include `t`.
    pub open spec fn with_timestamp(self, t: Option<Timestamp>) -> CallView {
        match t {
            None => self,
            Some(t) => CallView {
                start_time: Some(
                    match self.start_time {
                        Some(s) => earliest(s, t),
                        None => t,
                    },
                ),
                end_time: Some(
                    match self.end_time {
                        Some(e) => latest(e, t),
                        None => t,
                    },
                ),
                ..self
            },
        }
    }

    pub open spec fn with_peer(self, p: Option<Seq<char>>) -> Result<CallView, Violation> {
        match p {
            None => Ok(self),
            Some(p) => match observe_once(self.peer, p) {
                Some(v) => Ok(CallView { peer: v, ..self }),
                None => Err(Violation::PeerMismatch),
            },
        }
    }

    pub open spec fn with_method_name(self, n: Seq<char>) -> Result<CallView, Violation> {
        match observe_once(self.method_name, n) {
            Some(v) => Ok(CallView { method_name: v, ..self }),
            None => Err(Violation::MethodNameMismatch),
        }
    }

    pub open spec fn with_authority(self, a: Seq<char>) -> Result<CallView, Violation> {
        match observe_once(self.authority, a) {
            Some(v) => Ok(CallView { authority: v, ..self }),
            None => Err(Violation::AuthorityMismatch),
        }
    }

    pub open spec fn with_client_headers(self, h: Map<Seq<char>, Seq<char>>) -> Result<
        CallView,
        Violation,
    > {
        if self.client_headers.dom().disjoint(h.dom()) {
            Ok(CallView { client_headers: self.client_headers.union_prefer_right(h), ..self })
        } else {
            Err(Violation::DuplicateClientHeader)
        }
    }

    pub open spec fn with_server_headers(self, h: Map<Seq<char>, Seq<char>>) -> Result<
        CallView,
        Violation,
    > {
        if self.server_headers.dom().disjoint(h.dom()) {
            Ok(CallView { server_headers: self.server_headers.union_prefer_right(h), ..self })
        } else {
            Err(Violation::DuplicateServerHeader)
        }
    }

    pub open spec fn with_status_metadata(self, h: Map<Seq<char>, Seq<char>>) -> Result<
        CallView,
        Violation,
    > {
        if self.status_metadata.dom().disjoint(h.dom()) {
            Ok(CallView { status_metadata: self.status_metadata.union_prefer_right(h), ..self })
        } else {
            Err(Violation::DuplicateStatusMetadata)
        }
    }

    pub open spec fn with_status_code(self, c: u32) -> Result<CallView, Violation> {
        match observe_once(self.status_code, c) {
            Some(v) => Ok(CallView { status_code: v, ..self }),
            None => Err(Violation::StatusCodeMismatch),
        }
    }

    pub open spec fn with_status_message(self, m: Seq<char>) -> Result<CallView, Violation> {
        match observe_once(self.status_message, m) {
            Some(v) => Ok(CallView { status_message: v, ..self }),
            None => Err(Violation::StatusMessageMismatch),
        }
    }

    pub open spec fn with_status_details(self, d: Seq<char>) -> Result<CallView, Violation> {
        match observe_once(self.status_details, d) {
            Some(v) => Ok(CallView { status_details: v, ..self }),
            None => Err(Violation::StatusDetailsMismatch),
        }
    }

    /// The request set from `data`, decoded by the method name, which must be
    /// known already; a call has at most one request.
    pub open spec fn with_request_data(self, data: Seq<u8>) -> Result<CallView, Violation> {
        if self.request is Some {
            Err(Violation::DuplicateRequest)
        } else {
            match self.method_name {
                None => Err(Violation::MessageBeforeMethodName),
                Some(n) => match decoded_method(n, data, MethodType::Request) {
                    Ok(m) => Ok(CallView { request: Some(m), ..self }),
                    Err(v) => Err(v),
                },
            }
        }
    }

    /// The response set from `data`, decoded by the method name, which must
    /// be known already; a call has at most one response.
    pub open spec fn with_response_data(self, data: Seq<u8>) -> Result<CallView, Violation> {
        if self.response is Some {
            Err(Violation::DuplicateResponse)
        } else {
            match self.method_name {
                None => Err(Violation::MessageBeforeMethodName),
                Some(n) => match decoded_method(n, data, MethodType::Response) {
                    Ok(m) => Ok(CallView { response: Some(m), ..self }),
                    Err(v) => Err(v),
                },
            }
        }
    }
}

/// Sets a single-value string field, as `observe_once` says.
fn observe_text(field: &mut Option<String>, v: String) -> (r: bool)
    ensures
        match observe_once(opt_text(*old(field)), v@) {
            Some(n) => r && opt_text(*final(field)) == n,
            None => !r && *final(field) == *old(field),
        },
{
    match field {
        None => {
            *field = Some(v);
            true
        },
        Some(existing) => *existing == v,
    }
}

impl Call {
    pub fn new(id: u64) -> (r: Call)
        ensures
            r@ == CallView::empty(id),
    {
        Call {
            id,
            method_name: None,
            request: None,
            response: None,
            start_time: None,
            end_time: None,
            peer: None,
            authority: None,
            client_headers: Headers::new(),
            server_headers: Headers::new(),
            status_code: None,
            status_message: None,
            status_details: None,
            status_metadata: Headers::new(),
        }
    }

    /// Notes that the call was active at `timestamp`.
    pub fn with_timestamp(&mut self, timestamp: Option<Timestamp>)
        ensures
            final(self)@ == old(self)@.with_timestamp(timestamp),
    {
        if let Some(t) = timestamp {
            let start = match self.start_time {
                Some(s) => s.earlier(t),
                None => t,
            };
            let end = match self.end_time {
                Some(e) => e.later(t),
                None => t,
            };
            self.start_time = Some(start);
            self.end_time = Some(end);
        }
    }

    pub fn with_peer(&mut self, peer: Option<String>) -> (r: Result<(), Violation>)
        ensures
            outcome(old(self)@, final(self)@, r, old(self)@.with_peer(opt_text(peer))),
    {
        match peer {
            None => Ok(()),
            Some(p) => if observe_text(&mut self.peer, p) {
                Ok(())
            } else {
                Err(Violation::PeerMismatch)
            },
        }
    }

    pub fn with_method_name(&mut self, method_name: String) -> (r: Result<(), Violation>)
        ensures
            outcome(old(self)@, final(self)@, r, old(self)@.with_method_name(method_name@)),
    {
        if observe_text(&mut self.method_name, method_name) {
            Ok(())
        } else {
            Err(Violation::MethodNameMismatch)
        }
    }

    pub fn with_authority(&mut self, authority: String) -> (r: Result<(), Violation>)
        ensures
            outcome(old(self)@, final(self)@, r, old(self)@.with_authority(authority@)),
    {
        if observe_text(&mut self.authority, authority) {
            Ok(())
        } else {
            Err(Violation::AuthorityMismatch)
        }
    }

    pub fn with_request_data(&mut self, method_data: Vec<u8>) -> (r: Result<(), Violation>)
        ensures
            outcome(old(self)@, final(self)@, r, old(self)@.with_request_data(method_data@)),
    {
        if self.request.is_some() {
            return Err(Violation::DuplicateRequest);
        }
        let method = match &self.method_name {
            None => {
                return Err(Violation::MessageBeforeMethodName);
            },
            Some(name) => Method::new(name, method_data, MethodType::Request)?,
        };
        self.request = Some(method);
        Ok(())
    }

    pub fn with_response_data(&mut self, method_data: Vec<u8>) -> (r: Result<(), Violation>)
        ensures
            outcome(old(self)@, final(self)@, r, old(self)@.with_response_data(method_data@)),
    {
        if self.response.is_some() {
            return Err(Violation::DuplicateResponse);
        }
        let method = match &self.method_name {
            None => {
                return Err(Violation::MessageBeforeMethodName);
            },
            Some(name) => Method::new(name, method_data, MethodType::Response)?,
        };
        self.response = Some(method);
        Ok(())
    }

    pub fn with_client_headers(&mut self, headers: Headers) -> (r: Result<(), Violation>)
        ensures
            outcome(old(self)@, final(self)@, r, old(self)@.with_client_headers(headers@)),
    {
        match self.client_headers.merge_disjoint(headers) {
            Ok(()) => Ok(()),
            Err(()) => Err(Violation::DuplicateClientHeader),
        }
    }

    pub fn with_server_headers(&mut self, headers: Headers) -> (r: Result<(), Violation>)
        ensures
            outcome(old(self)@, final(self)@, r, old(self)@.with_server_headers(headers@)),
    {
        match self.server_headers.merge_disjoint(headers) {
            Ok(()) => Ok(()),
            Err(()) => Err(Violation::DuplicateServerHeader),
        }
    }

    pub fn with_status_metadata(&mut self, metadata: Headers) -> (r: Result<(), Violation>)
        ensures
            outcome(old(self)@, final(self)@, r, old(self)@.with_status_metadata(metadata@)),
    {
        match self.status_metadata.merge_disjoint(metadata) {
            Ok(()) => Ok(()),
            Err(()) => Err(Violation::DuplicateStatusMetadata),
        }
    }

    pub fn with_status_code(&mut self, status_code: u32) -> (r: Result<(), Violation>)
        ensures
            outcome(old(self)@, final(self)@, r, old(self)@.with_status_code(status_code)),
    {
        match self.status_code {
            None => {
                self.status_code = Some(status_code);
                Ok(())
            },
            Some(c) => if c == status_code {
                Ok(())
            } else {
                Err(Violation::StatusCodeMismatch)
            },
        }
    }

    pub fn with_status_message(&mut self, status_message: String) -> (r: Result<(), Violation>)
        ensures
            outcome(old(self)@, final(self)@, r, old(self)@.with_status_message(status_message@)),
    {
        if observe_text(&mut self.status_message, status_message) {
            Ok(())
        } else {
            Err(Violation::StatusMessageMismatch)
        }
    }

    pub fn with_status_details(&mut self, status_details: String) -> (r: Result<(), Violation>)
        ensures
            outcome(old(self)@, final(self)@, r, old(self)@.with_status_details(status_details@)),
    {
        if observe_text(&mut self.status_details, status_details) {
            Ok(())
        } else {
            Err(Violation::StatusDetailsMismatch)
        }
    }
}

} // verus!
