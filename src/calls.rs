//! Folding a stream of entries into one [`Call`] per call id, and the
//! filters that apply to the finished set.
use crate::call::{opt_text, Call, CallView};
use crate::entry::{Entry, EventType, Payload};
use crate::error::{CallError, Violation};
use crate::methods::OFFSETS_METHOD;
use crate::text::{utf8_string, utf8_text};
use crate::timestamp::Timestamp;
use vstd::prelude::*;
use vstd::string::StringExecFns;

verus! {

/// gRPC header that names the organisation a call was made for.
pub const INFLUX_ORG_ID_HEADER_NAME: &'static str = "influx-org-id";

impl CallView {
    /// The call after the payload of an entry of type `event_type`.
    pub open spec fn apply_payload(self, event_type: EventType, p: Payload) -> Result<
        CallView,
        Violation,
    > {
        match p {
            Payload::ClientHeader(h) => match self.with_method_name(h.method_name@) {
                Err(v) => Err(v),
                Ok(c) => match c.with_authority(h.authority@) {
                    Err(v) => Err(v),
                    Ok(c) => c.with_client_headers(h.metadata@),
                },
            },
            Payload::ServerHeader(h) => self.with_server_headers(h.metadata@),
            Payload::Message(m) => if m.length as int != m.data@.len() {
                Err(Violation::MessageLengthMismatch)
            } else {
                match event_type {
                    EventType::ClientMessage => self.with_request_data(m.data@),
                    EventType::ServerMessage => self.with_response_data(m.data@),
                    _ => Err(Violation::UnexpectedMessageEvent),
                }
            },
            Payload::Trailer(t) => match utf8_text(t.status_details@) {
                None => Err(Violation::StatusDetailsNotUtf8),
                Some(details) => match self.with_status_metadata(t.metadata@) {
                    Err(v) => Err(v),
                    Ok(c) => match c.with_status_code(t.status_code) {
                        Err(v) => Err(v),
                        Ok(c) => match c.with_status_message(t.status_message@) {
                            Err(v) => Err(v),
                            Ok(c) => c.with_status_details(details),
                        },
                    },
                },
            },
        }
    }

    /// The call after entry `e`: its timestamp and peer, then its payload.
    /// Truncated payloads are not handled.
    pub open spec fn apply_entry(self, e: Entry) -> Result<CallView, Violation> {
        if e.payload_truncated {
            Err(Violation::TruncatedPayload)
        } else {
            match self.with_timestamp(e.timestamp).with_peer(opt_text(e.peer)) {
                Err(v) => Err(v),
                Ok(c) => c.apply_payload(e.event_type, e.payload),
            }
        }
    }
}

/// The calls after entry `e`: the call with its id (a fresh one if the id is
/// new) takes the entry.
pub open spec fn aggregate_step(m: Map<u64, CallView>, e: Entry) -> Result<
    Map<u64, CallView>,
    CallError,
> {
    let c = if m.contains_key(e.call_id) {
        m[e.call_id]
    } else {
        CallView::empty(e.call_id)
    };
    match c.apply_entry(e) {
        Ok(c2) => Ok(m.insert(e.call_id, c2)),
        Err(v) => Err(CallError { call_id: e.call_id, violation: v }),
    }
}

/// The calls that a sequence of entries makes, taken in order from no calls;
/// the first violation ends the fold.
pub open spec fn aggregate(es: Seq<Entry>) -> Result<Map<u64, CallView>, CallError>
    decreases es.len(),
{
    if es.len() == 0 {
        Ok(Map::empty())
    } else {
        match aggregate(es.drop_last()) {
            Err(x) => Err(x),
            Ok(m) => aggregate_step(m, es.last()),
        }
    }
}

/// Ids strictly ascend along the sequence.
pub open spec fn ascending_ids(s: Seq<CallView>) -> bool {
    forall|i: int, j: int| 0 <= i < j < s.len() ==> s[i].id < s[j].id
}

/// The calls of a sequence, keyed by id.
pub open spec fn calls_map(s: Seq<CallView>) -> Map<u64, CallView> {
    Map::new(
        |k: u64| exists|i: int| 0 <= i < s.len() && s[i].id == k,
        |k: u64| s[choose|i: int| 0 <= i < s.len() && s[i].id == k],
    )
}

/// Every call of the map is stored under its own id.
pub open spec fn keyed_by_own_id(m: Map<u64, CallView>) -> bool {
    forall|k: u64| m.contains_key(k) ==> (#[trigger] m[k]).id == k
}

proof fn lemma_calls_map(s: Seq<CallView>)
    requires
        ascending_ids(s),
    ensures
        forall|i: int| 0 <= i < s.len() ==> #[trigger] calls_map(s)[s[i].id] == s[i],
        forall|i: int| 0 <= i < s.len() ==> calls_map(s).contains_key(#[trigger] s[i].id),
        keyed_by_own_id(calls_map(s)),
{
    assert forall|i: int| 0 <= i < s.len() implies #[trigger] calls_map(s)[s[i].id] == s[i] by {
        assert(calls_map(s).contains_key(s[i].id));
        let j = choose|j: int| 0 <= j < s.len() && s[j].id == s[i].id;
        if j < i {
            assert(s[j].id < s[i].id);
        } else if i < j {
            assert(s[i].id < s[j].id);
        }
    }
    assert forall|k: u64| calls_map(s).contains_key(k) implies (#[trigger] calls_map(s)[k]).id
        == k by {
        let j = choose|j: int| 0 <= j < s.len() && s[j].id == k;
    }
}

/// The call views of a vector of calls.
pub open spec fn views(v: Seq<Call>) -> Seq<CallView> {
    v.map_values(|c: Call| c@)
}

/// The elements of a vector in reverse order.
fn reversed<T>(v: Vec<T>) -> (r: Vec<T>)
    ensures
        r@.len() == v@.len(),
        forall|i: int| 0 <= i < v@.len() ==> r@[i] == v@[v@.len() - 1 - i],
{
    let ghost all = v@;
    let mut v = v;
    let mut r: Vec<T> = Vec::new();
    while v.len() > 0
        invariant
            v@.len() + r@.len() == all.len(),
            v@ == all.subrange(0, v@.len() as int),
            forall|i: int| 0 <= i < r@.len() ==> r@[i] == all[all.len() - 1 - i],
        decreases v@.len(),
    {
        let ghost n = v@.len();
        let x = v.pop().unwrap();
        proof {
            assert(x == all[n - 1]);
        }
        r.push(x);
        proof {
            assert(v@ =~= all.subrange(0, v@.len() as int));
        }
    }
    r
}

/// Applies entries to the calls built so far; the finished calls come out in
/// ascending id order.
pub struct CallAggregator {
    calls: Vec<Call>,
}

impl View for CallAggregator {
    type V = Map<u64, CallView>;

    closed spec fn view(&self) -> Map<u64, CallView> {
        calls_map(views(self.calls@))
    }
}

impl CallAggregator {
    #[verifier::type_invariant]
    spec fn ids_ascend(&self) -> bool {
        ascending_ids(views(self.calls@))
    }

    pub fn new() -> (r: CallAggregator)
        ensures
            r@ == Map::<u64, CallView>::empty(),
    {
        let r = CallAggregator { calls: Vec::new() };
        assert(r@ =~= Map::<u64, CallView>::empty());
        r
    }

    /// Applies one entry to the call with its id.
    pub fn apply(&mut self, entry: Entry) -> (r: Result<(), CallError>)
        ensures
            match aggregate_step(old(self)@, entry) {
                Ok(m) => r is Ok && final(self)@ == m,
                Err(x) => r == Err::<(), CallError>(x),
            },
    {
        proof {
            use_type_invariant(&*self);
            lemma_calls_map(views(self.calls@));
        }
        let ghost before = views(self.calls@);
        let id = entry.call_id;
        let mut i: usize = 0;
        while i < self.calls.len() && self.calls[i].id < id
            invariant
                i <= self.calls@.len(),
                forall|j: int| 0 <= j < i ==> self.calls@[j].id < id,
            decreases self.calls@.len() - i,
        {
            i = i + 1;
        }
        proof {
            assert forall|j: int| 0 <= j < before.len() && before[j].id == id implies j == i by {
                assert(before[j] == self.calls@[j]@);
                if j > i {
                    assert(before[i as int] == self.calls@[i as int]@);
                    assert(before[i as int].id < before[j].id);
                }
            }
        }
        let mut taken = CallAggregator::new();
        std::mem::swap(self, &mut taken);
        let mut calls = taken.calls;
        if i < calls.len() && calls[i].id == id {
            let ghost old_call = calls@[i as int];
            proof {
                assert(before[i as int] == old_call@);
                assert(calls_map(before).contains_key(id));
            }
            let result = calls[i].apply_entry(entry);
            let ghost after = views(calls@);
            proof {
                assert(after =~= before.update(i as int, calls@[i as int]@));
                assert(ascending_ids(after)) by {
                    assert forall|a: int, b: int| 0 <= a < b < after.len() implies after[a].id
                        < after[b].id by {
                        assert(after[a].id == before[a].id);
                        assert(after[b].id == before[b].id);
                    }
                }
            }
            *self = CallAggregator { calls };
            match result {
                Ok(()) => {
                    proof {
                        lemma_calls_map(after);
                        assert(calls_map(after) =~= calls_map(before).insert(id, after[i as int]))
                            by {
                            assert forall|k: u64| #[trigger]
                                calls_map(after).contains_key(k) implies calls_map(
                                before,
                            ).insert(id, after[i as int]).contains_key(k) by {
                                let j = choose|j: int| 0 <= j < after.len() && after[j].id == k;
                                assert(before[j].id == k);
                            }
                            assert forall|k: u64| #[trigger]
                                calls_map(before).insert(id, after[i as int]).contains_key(
                                    k,
                                ) implies calls_map(after).contains_key(k) by {
                                if k != id {
                                    let j = choose|j: int|
                                        0 <= j < before.len() && before[j].id == k;
                                    assert(after[j].id == k);
                                }
                            }
                            assert forall|k: u64| #[trigger]
                                calls_map(after).contains_key(k) implies calls_map(after)[k]
                                == calls_map(before).insert(id, after[i as int])[k] by {
                                let j = choose|j: int| 0 <= j < after.len() && after[j].id == k;
                                assert(calls_map(after)[after[j].id] == after[j]);
                                if j != i {
                                    assert(after[j] == before[j]);
                                    assert(calls_map(before)[before[j].id] == before[j]);
                                }
                            }
                        }
                    }
                    Ok(())
                },
                Err(v) => Err(CallError { call_id: id, violation: v }),
            }
        } else {
            proof {
                assert(!calls_map(before).contains_key(id)) by {
                    if calls_map(before).contains_key(id) {
                        let j = choose|j: int| 0 <= j < before.len() && before[j].id == id;
                        assert(j == i);
                    }
                }
            }
            let mut call = Call::new(id);
            let result = call.apply_entry(entry);
            match result {
                Ok(()) => {
                    let ghost fresh = call@;
                    calls.insert(i, call);
                    let ghost after = views(calls@);
                    proof {
                        assert(after =~= before.insert(i as int, fresh));
                        assert(ascending_ids(after)) by {
                            assert forall|a: int, b: int| 0 <= a < b < after.len() implies after[a].id
                                < after[b].id by {
                                if b < i {
                                    assert(after[a] == before[a] && after[b] == before[b]);
                                } else if b == i {
                                    assert(after[a] == before[a]);
                                } else if a < i {
                                    assert(after[a] == before[a] && after[b] == before[b - 1]);
                                    assert(before[i as int] == calls@[i as int + 1]@);
                                } else if a == i {
                                    assert(after[b] == before[b - 1]);
                                    assert(before[i as int].id >= id);
                                    assert(before[i as int].id != id);
                                    if b - 1 > i {
                                        assert(before[i as int].id < before[b - 1].id);
                                    }
                                } else {
                                    assert(after[a] == before[a - 1] && after[b] == before[b - 1]);
                                }
                            }
                        }
                        lemma_calls_map(after);
                        assert(calls_map(after) =~= calls_map(before).insert(id, fresh)) by {
                            assert forall|k: u64| #[trigger]
                                calls_map(after).contains_key(k) implies calls_map(
                                before,
                            ).insert(id, fresh).contains_key(k) by {
                                let j = choose|j: int| 0 <= j < after.len() && after[j].id == k;
                                if j < i {
                                    assert(after[j] == before[j]);
                                } else if j > i {
                                    assert(after[j] == before[j - 1]);
                                }
                            }
                            assert forall|k: u64| #[trigger]
                                calls_map(before).insert(id, fresh).contains_key(
                                    k,
                                ) implies calls_map(after).contains_key(k) by {
                                if k == id {
                                    assert(after[i as int].id == id);
                                } else {
                                    let j = choose|j: int|
                                        0 <= j < before.len() && before[j].id == k;
                                    if j < i {
                                        assert(after[j] == before[j]);
                                    } else {
                                        assert(after[j + 1] == before[j]);
                                    }
                                }
                            }
                            assert forall|k: u64| #[trigger]
                                calls_map(after).contains_key(k) implies calls_map(after)[k]
                                == calls_map(before).insert(id, fresh)[k] by {
                                let j = choose|j: int| 0 <= j < after.len() && after[j].id == k;
                                assert(calls_map(after)[after[j].id] == after[j]);
                                if j < i {
                                    assert(after[j] == before[j]);
                                    assert(calls_map(before)[before[j].id] == before[j]);
                                } else if j > i {
                                    assert(after[j] == before[j - 1]);
                                    assert(calls_map(before)[before[j - 1].id] == before[j - 1]);
                                }
                            }
                        }
                    }
                    *self = CallAggregator { calls };
                    Ok(())
                },
                Err(v) => {
                    *self = CallAggregator { calls };
                    Err(CallError { call_id: id, violation: v })
                },
            }
        }
    }

    /// The calls, in ascending id order.
    pub fn finish(self) -> (r: Calls)
        ensures
            ascending_ids(r@),
            calls_map(r@) == self@,
    {
        proof {
            use_type_invariant(&self);
        }
        Calls { calls: self.calls }
    }
}

impl Call {
    /// Applies one entry of this call: its timestamp, its peer, then its
    /// payload.
    pub fn apply_entry(&mut self, entry: Entry) -> (r: Result<(), Violation>)
        ensures
            final(self).id == old(self).id,
            match old(self)@.apply_entry(entry) {
                Ok(c) => r is Ok && final(self)@ == c,
                Err(v) => r == Err::<(), Violation>(v),
            },
    {
        let Entry { timestamp, call_id: _, sequence_id_within_call: _, event_type, logger: _,
            payload_truncated, peer, payload } = entry;
        if payload_truncated {
            return Err(Violation::TruncatedPayload);
        }
        self.with_timestamp(timestamp);
        self.with_peer(peer)?;
        match payload {
            Payload::ClientHeader(h) => {
                self.with_method_name(h.method_name)?;
                self.with_authority(h.authority)?;
                self.with_client_headers(h.metadata)
            },
            Payload::ServerHeader(h) => self.with_server_headers(h.metadata),
            Payload::Message(m) => {
                if m.length as usize != m.data.len() {
                    return Err(Violation::MessageLengthMismatch);
                }
                match event_type {
                    EventType::ClientMessage => self.with_request_data(m.data),
                    EventType::ServerMessage => self.with_response_data(m.data),
                    _ => Err(Violation::UnexpectedMessageEvent),
                }
            },
            Payload::Trailer(t) => {
                let details = match utf8_string(t.status_details) {
                    Some(d) => d,
                    None => {
                        return Err(Violation::StatusDetailsNotUtf8);
                    },
                };
                self.with_status_metadata(t.metadata)?;
                self.with_status_code(t.status_code)?;
                self.with_status_message(t.status_message)?;
                self.with_status_details(details)
            },
        }
    }
}

/// A set of finished calls.
#[derive(Debug)]
pub struct Calls {
    calls: Vec<Call>,
}

impl View for Calls {
    type V = Seq<CallView>;

    closed spec fn view(&self) -> Seq<CallView> {
        views(self.calls@)
    }
}

impl Default for Calls {
    /// No calls.
    fn default() -> (r: Calls)
        ensures
            r@ == Seq::<CallView>::empty(),
    {
        let r = Calls { calls: Vec::new() };
        assert(r@ =~= Seq::<CallView>::empty());
        r
    }
}

/// The call is not one of the offset-polling housekeeping calls.
pub open spec fn not_offsets(c: CallView) -> bool {
    c.method_name != Some(OFFSETS_METHOD@)
}

/// The client headers of the call name organisation `org`.
pub open spec fn of_org(c: CallView, org: Seq<char>) -> bool {
    &&& c.client_headers.contains_key(INFLUX_ORG_ID_HEADER_NAME@)
    &&& c.client_headers[INFLUX_ORG_ID_HEADER_NAME@] == org
}

/// The filter that keeps the calls of organisation `org`.
pub open spec fn org_filter(org: Seq<char>) -> spec_fn(CallView) -> bool {
    |c: CallView| of_org(c, org)
}

impl Calls {
    /// Folds entries, in order, into one call per call id; the calls come out
    /// in ascending id order. The first violation ends the fold.
    pub fn from_entries(entries: Vec<Entry>) -> (r: Result<Calls, CallError>)
        ensures
            match aggregate(entries@) {
                Ok(m) => r is Ok && ascending_ids(r.unwrap()@) && calls_map(r.unwrap()@) == m,
                Err(x) => r == Err::<Calls, CallError>(x),
            },
    {
        let ghost all = entries@;
        let mut rest = reversed(entries);
        let mut aggregator = CallAggregator::new();
        proof {
            assert(all.subrange(0, 0) =~= seq![]);
        }
        while rest.len() > 0
            invariant
                all == entries@,
                rest@.len() <= all.len(),
                forall|i: int|
                    0 <= i < rest@.len() ==> rest@[i] == all[all.len() - 1 - i],
                aggregate(all.subrange(0, all.len() - rest@.len())) == Ok::<
                    Map<u64, CallView>,
                    CallError,
                >(aggregator@),
            decreases rest@.len(),
        {
            let ghost k = all.len() - rest@.len();
            let entry = rest.pop().unwrap();
            proof {
                assert(entry == all[k]);
                let done = all.subrange(0, k + 1);
                assert(done.drop_last() =~= all.subrange(0, k));
                assert(done.last() == entry);
            }
            let ghost m0 = aggregator@;
            proof {
                assert(aggregate(all.subrange(0, k + 1)) == aggregate_step(m0, entry));
            }
            match aggregator.apply(entry) {
                Ok(()) => {},
                Err(x) => {
                    proof {
                        assert(aggregate(all.subrange(0, k + 1)) == Err::<
                            Map<u64, CallView>,
                            CallError,
                        >(x));
                        lemma_aggregate_err_stays(all, k + 1);
                    }
                    return Err(x);
                },
            }
        }
        proof {
            assert(all.subrange(0, all.len() as int) =~= all);
        }
        Ok(aggregator.finish())
    }

    pub fn len(&self) -> (r: usize)
        ensures
            r == self@.len(),
    {
        self.calls.len()
    }

    /// The calls, in order.
    pub fn iter(&self) -> (r: &Vec<Call>)
        ensures
            views(r@) == self@,
    {
        &self.calls
    }

    /// Appends the calls of `other`.
    pub fn extend_from_other(&mut self, other: Calls)
        ensures
            final(self)@ == old(self)@ + other@,
    {
        let ghost theirs = other@;
        let mut other = other;
        self.calls.append(&mut other.calls);
        proof {
            assert(views(self.calls@) =~= old(self)@ + theirs);
        }
    }

    /// The calls that are not offset polls, in their order.
    pub fn filter_offset_calls(self) -> (r: Calls)
        ensures
            r@ == self@.filter(|c: CallView| not_offsets(c)),
    {
        let offsets = String::from_str(OFFSETS_METHOD);
        let ghost all = self@;
        let mut rest = reversed(self.calls);
        let mut kept: Vec<Call> = Vec::new();
        proof {
            assert(all.subrange(0, 0) =~= seq![]);
            reveal(Seq::filter);
        }
        while rest.len() > 0
            invariant
                offsets@ == OFFSETS_METHOD@,
                rest@.len() <= all.len(),
                forall|i: int| 0 <= i < rest@.len() ==> rest@[i]@ == all[all.len() - 1 - i],
                views(kept@) == all.subrange(0, all.len() - rest@.len()).filter(
                    |c: CallView| not_offsets(c),
                ),
            decreases rest@.len(),
        {
            let ghost k = all.len() - rest@.len();
            let call = rest.pop().unwrap();
            let keep = match &call.method_name {
                Some(name) => !(*name == offsets),
                None => true,
            };
            proof {
                assert(call@ == all[k]);
                assert(all.subrange(0, k + 1) =~= all.subrange(0, k).push(call@));
                all.subrange(0, k).lemma_filter_push(call@, |c: CallView| not_offsets(c));
                assert(keep == not_offsets(call@));
            }
            if keep {
                kept.push(call);
            }
            proof {
                assert(views(kept@) =~= all.subrange(0, k + 1).filter(|c: CallView| not_offsets(c)));
            }
        }
        proof {
            assert(all.subrange(0, all.len() as int) =~= all);
        }
        Calls { calls: kept }
    }

    /// The calls whose client headers name organisation `org_id`, in their
    /// order.
    pub fn filter_by_org_id(self, org_id: &str) -> (r: Calls)
        ensures
            r@ == self@.filter(org_filter(org_id@)),
    {
        let header = String::from_str(INFLUX_ORG_ID_HEADER_NAME);
        let org = String::from_str(org_id);
        let ghost all = self@;
        let mut rest = reversed(self.calls);
        let mut kept: Vec<Call> = Vec::new();
        proof {
            assert(all.subrange(0, 0) =~= seq![]);
            reveal(Seq::filter);
        }
        while rest.len() > 0
            invariant
                header@ == INFLUX_ORG_ID_HEADER_NAME@,
                org@ == org_id@,
                rest@.len() <= all.len(),
                forall|i: int| 0 <= i < rest@.len() ==> rest@[i]@ == all[all.len() - 1 - i],
                views(kept@) == all.subrange(0, all.len() - rest@.len()).filter(
                    org_filter(org_id@),
                ),
            decreases rest@.len(),
        {
            let ghost k = all.len() - rest@.len();
            let call = rest.pop().unwrap();
            let keep = match call.client_headers.get(&header) {
                Some(v) => *v == org,
                None => false,
            };
            proof {
                assert(call@ == all[k]);
                assert(all.subrange(0, k + 1) =~= all.subrange(0, k).push(call@));
                all.subrange(0, k).lemma_filter_push(call@, org_filter(org_id@));
                assert(keep == of_org(call@, org_id@));
            }
            if keep {
                kept.push(call);
            }
            proof {
                assert(views(kept@) =~= all.subrange(0, k + 1).filter(org_filter(org_id@)));
            }
        }
        proof {
            assert(all.subrange(0, all.len() as int) =~= all);
        }
        Calls { calls: kept }
    }
}

/// Once the fold has failed on a prefix, it fails the same way on the whole.
proof fn lemma_aggregate_err_stays(es: Seq<Entry>, k: int)
    requires
        0 <= k <= es.len(),
        aggregate(es.subrange(0, k)) is Err,
    ensures
        aggregate(es) == aggregate(es.subrange(0, k)),
    decreases es.len() - k,
{
    if k < es.len() {
        let longer = es.subrange(0, k + 1);
        assert(longer.drop_last() =~= es.subrange(0, k));
        lemma_aggregate_err_stays(es, k + 1);
    } else {
        assert(es.subrange(0, k) =~= es);
    }
}

/// Filtering by an organisation twice keeps the same calls as filtering once.
pub proof fn lemma_filter_by_org_idempotent(s: Seq<CallView>, org: Seq<char>)
    ensures
        s.filter(org_filter(org)).filter(org_filter(org)) == s.filter(org_filter(org)),
{
    broadcast use vstd::seq_lib::group_filter_ensures;

    let once = s.filter(org_filter(org));
    lemma_filter_keeps_all(once, org_filter(org));
}

/// Filtering a sequence whose elements all pass leaves it unchanged.
proof fn lemma_filter_keeps_all(s: Seq<CallView>, p: spec_fn(CallView) -> bool)
    requires
        forall|i: int| 0 <= i < s.len() ==> p(#[trigger] s[i]),
    ensures
        s.filter(p) == s,
    decreases s.len(),
{
    reveal(Seq::filter);
    if s.len() > 0 {
        let t = s.drop_last();
        assert forall|i: int| 0 <= i < t.len() implies p(#[trigger] t[i]) by {
            assert(t[i] == s[i]);
        }
        lemma_filter_keeps_all(t, p);
        assert(s.filter(p) =~= s);
    }
}

/// Two client headers of one call that name different authorities are a
/// violation, whatever else they hold.
pub proof fn lemma_conflicting_authority(first: Entry, second: Entry)
    requires
        first.call_id == second.call_id,
        first.payload is ClientHeader,
        second.payload is ClientHeader,
        first.payload->ClientHeader_0.authority@ != second.payload->ClientHeader_0.authority@,
    ensures
        aggregate(seq![first, second]) is Err,
{
    let es = seq![first, second];
    assert(es.drop_last() =~= seq![first]);
    assert(seq![first].drop_last() =~= Seq::<Entry>::empty());
    if aggregate(seq![first]) is Ok {
        let m = aggregate(seq![first]).unwrap();
        let c = m[first.call_id];
        assert(m.contains_key(first.call_id));
        assert(c.authority == Some(first.payload->ClientHeader_0.authority@));
    }
}

/// A client header without metadata, seen twice for one call, is accepted,
/// and the second sighting changes nothing.
pub proof fn lemma_repeated_client_header(e: Entry)
    requires
        !e.payload_truncated,
        e.payload is ClientHeader,
        e.payload->ClientHeader_0.metadata@ == Map::<Seq<char>, Seq<char>>::empty(),
    ensures
        aggregate(seq![e]) is Ok,
        aggregate(seq![e, e]) == aggregate(seq![e]),
{
    let es = seq![e, e];
    assert(es.drop_last() =~= seq![e]);
    assert(seq![e].drop_last() =~= Seq::<Entry>::empty());
    let h = e.payload->ClientHeader_0;
    let id = e.call_id;
    let c0 = CallView::empty(id);
    let ca = c0.with_timestamp(e.timestamp);
    let cb = ca.with_peer(opt_text(e.peer)).unwrap();
    let cc = cb.with_method_name(h.method_name@).unwrap();
    let cd = cc.with_authority(h.authority@).unwrap();
    assert(cd.client_headers.dom().disjoint(h.metadata@.dom()));
    let c1 = cd.with_client_headers(h.metadata@).unwrap();
    assert(c0.apply_entry(e) == Ok::<CallView, Violation>(c1));
    let m = Map::<u64, CallView>::empty().insert(id, c1);
    assert(aggregate(Seq::<Entry>::empty()) == Ok::<Map<u64, CallView>, CallError>(
        Map::empty(),
    ));
    assert(aggregate_step(Map::empty(), e) == Ok::<Map<u64, CallView>, CallError>(m));
    assert(aggregate(seq![e]) == Ok::<Map<u64, CallView>, CallError>(m));
    assert(c1.with_timestamp(e.timestamp) == c1);
    assert(c1.with_peer(opt_text(e.peer)) == Ok::<CallView, Violation>(c1));
    assert(c1.with_method_name(h.method_name@) == Ok::<CallView, Violation>(c1));
    assert(c1.with_authority(h.authority@) == Ok::<CallView, Violation>(c1));
    assert(c1.client_headers.union_prefer_right(h.metadata@) =~= c1.client_headers);
    assert(c1.with_client_headers(h.metadata@) == Ok::<CallView, Violation>(c1));
    assert(c1.apply_entry(e) == Ok::<CallView, Violation>(c1));
    assert(m.contains_key(id) && m[id] == c1);
    assert(m.insert(id, c1) =~= m);
}

/// Some entry of call `id` carries timestamp `t`.
pub open spec fn stamped(es: Seq<Entry>, id: u64, t: Timestamp) -> bool {
    exists|i: int| 0 <= i < es.len() && es[i].call_id == id && es[i].timestamp == Some(t)
}

/// Some entry has call id `id`.
pub open spec fn mentions(es: Seq<Entry>, id: u64) -> bool {
    exists|i: int| 0 <= i < es.len() && es[i].call_id == id
}

proof fn lemma_stamped_last(es: Seq<Entry>, id: u64, t: Timestamp)
    requires
        es.len() > 0,
    ensures
        stamped(es, id, t) <==> stamped(es.drop_last(), id, t) || (es.last().call_id == id
            && es.last().timestamp == Some(t)),
        mentions(es, id) <==> mentions(es.drop_last(), id) || es.last().call_id == id,
{
    let p = es.drop_last();
    if stamped(p, id, t) {
        let i = choose|i: int| 0 <= i < p.len() && p[i].call_id == id && p[i].timestamp == Some(t);
        assert(es[i] == p[i]);
    }
    if stamped(es, id, t) {
        let i = choose|i: int|
            0 <= i < es.len() && es[i].call_id == id && es[i].timestamp == Some(t);
        if i < p.len() {
            assert(p[i] == es[i]);
        }
    }
    if es.last().call_id == id && es.last().timestamp == Some(t) {
        assert(es[es.len() - 1] == es.last());
    }
    if mentions(p, id) {
        let i = choose|i: int| 0 <= i < p.len() && p[i].call_id == id;
        assert(es[i] == p[i]);
    }
    if mentions(es, id) {
        let i = choose|i: int| 0 <= i < es.len() && es[i].call_id == id;
        if i < p.len() {
            assert(p[i] == es[i]);
        }
    }
    if es.last().call_id == id {
        assert(es[es.len() - 1] == es.last());
    }
}

/// Applying an entry moves a call's span as its timestamp alone says.
proof fn lemma_apply_entry_span(c: CallView, e: Entry)
    requires
        c.apply_entry(e) is Ok,
    ensures
        c.apply_entry(e).unwrap().id == c.id,
        c.apply_entry(e).unwrap().start_time == c.with_timestamp(e.timestamp).start_time,
        c.apply_entry(e).unwrap().end_time == c.with_timestamp(e.timestamp).end_time,
{
    let c1 = c.with_timestamp(e.timestamp).with_peer(opt_text(e.peer)).unwrap();
    assert(c1.start_time == c.with_timestamp(e.timestamp).start_time);
    match e.payload {
        Payload::ClientHeader(h) => {
            let c2 = c1.with_method_name(h.method_name@).unwrap();
            let c3 = c2.with_authority(h.authority@).unwrap();
            assert(c3.start_time == c1.start_time && c3.end_time == c1.end_time);
        },
        Payload::Trailer(t) => {
            let c2 = c1.with_status_metadata(t.metadata@).unwrap();
            let c3 = c2.with_status_code(t.status_code).unwrap();
            let c4 = c3.with_status_message(t.status_message@).unwrap();
            assert(c4.start_time == c1.start_time && c4.end_time == c1.end_time);
        },
        _ => {},
    }
}

/// Call grouping: a successful fold makes exactly one call per call id that
/// occurs among the entries, and each call's span runs from the earliest to
/// the latest timestamp of the entries with its id, and only those; a call
/// none of whose entries has a timestamp has no span.
pub proof fn lemma_call_grouping(es: Seq<Entry>, id: u64)
    requires
        aggregate(es) is Ok,
    ensures
        aggregate(es).unwrap().contains_key(id) <==> mentions(es, id),
        aggregate(es).unwrap().contains_key(id) ==> ({
            let c = aggregate(es).unwrap()[id];
            &&& c.id == id
            &&& (c.start_time is None <==> forall|t: Timestamp| !stamped(es, id, t))
            &&& (c.end_time is None <==> forall|t: Timestamp| !stamped(es, id, t))
            &&& (c.start_time is Some ==> stamped(es, id, c.start_time.unwrap()) && forall|
                t: Timestamp,
            | stamped(es, id, t) ==> c.start_time.unwrap().no_later_than(t))
            &&& (c.end_time is Some ==> stamped(es, id, c.end_time.unwrap()) && forall|t: Timestamp|
                stamped(es, id, t) ==> t.no_later_than(c.end_time.unwrap()))
        }),
    decreases es.len(),
{
    if es.len() == 0 {
        return;
    }
    let p = es.drop_last();
    let e = es.last();
    assert(aggregate(p) is Ok);
    lemma_call_grouping(p, id);
    let mp = aggregate(p).unwrap();
    let m = aggregate(es).unwrap();
    let c = if mp.contains_key(e.call_id) {
        mp[e.call_id]
    } else {
        CallView::empty(e.call_id)
    };
    assert(c.apply_entry(e) is Ok);
    let c2 = c.apply_entry(e).unwrap();
    assert(m == mp.insert(e.call_id, c2));
    assert forall|t: Timestamp|
        #![trigger stamped(es, id, t)]
        #![trigger stamped(p, id, t)]
        stamped(es, id, t) <==> stamped(p, id, t) || (e.call_id == id && e.timestamp == Some(t)) by {
        lemma_stamped_last(es, id, t);
    }
    lemma_stamped_last(es, id, Timestamp { seconds: 0, nanos: 0 });
    if e.call_id != id {
        if m.contains_key(id) {
            assert(m[id] == mp[id]);
        }
    } else {
        lemma_apply_entry_span(c, e);
        assert(m[id] == c2);
        if !mp.contains_key(id) {
            assert forall|t: Timestamp| !stamped(p, id, t) by {
                if stamped(p, id, t) {
                    let i = choose|i: int|
                        0 <= i < p.len() && p[i].call_id == id && p[i].timestamp == Some(t);
                    assert(mentions(p, id));
                }
            }
            assert(c.start_time is None && c.end_time is None);
        }
        match e.timestamp {
            None => {
                assert(c2.start_time == c.start_time && c2.end_time == c.end_time);
            },
            Some(t0) => {
                assert(stamped(es, id, t0));
                assert(c2.start_time is Some && c2.end_time is Some);
                let s0 = c2.start_time.unwrap();
                let e0 = c2.end_time.unwrap();
                assert(s0 == t0 || (c.start_time is Some && s0 == c.start_time.unwrap()));
                assert(e0 == t0 || (c.end_time is Some && e0 == c.end_time.unwrap()));
                assert(stamped(es, id, s0));
                assert(stamped(es, id, e0));
                assert forall|t: Timestamp| stamped(es, id, t) implies s0.no_later_than(t)
                    && t.no_later_than(e0) by {
                    if stamped(p, id, t) {
                        assert(mp.contains_key(id));
                    }
                }
            },
        }
    }
}

} // verus!
