//! The registry of requests that are under way over the direct callback.
//!
//! Each request gets an id. Under that id the registry keeps every payload
//! that was handed to the callback, so that the bytes stay where they are
//! while the callback reads them, and the sending end of the queue on which
//! the runtime pushes response frames.

use std::collections::HashMap;
use vstd::prelude::*;
use vstd::std_specs::hash::group_hash_axioms;
use crate::exchange::ExchangeError;

verus! {

broadcast use group_hash_axioms;

/// What the registry keeps for one request.
#[derive(Debug)]
pub struct PendingDirectRequest<T> {
    /// The payloads handed to the callback so far, oldest first.
    pub inflight_payloads: Vec<Vec<u8>>,
    /// The sending end of the queue of response frames.
    pub response_tx: T,
}

/// The requests that are under way, by id.
pub struct DirectRequestRegistry<T> {
    pub next_request_id: u64,
    pub pending: HashMap<u64, PendingDirectRequest<T>>,
}

/// The id behind `id`. Ids start at 1 and count up; behind the largest
/// number they start over at 0.
pub open spec fn spec_next_id(id: u64) -> u64 {
    if id == u64::MAX {
        0
    } else {
        (id + 1) as u64
    }
}

/// Whether two states of a registry hold the same for every request but
/// the one with this id.
pub open spec fn spec_same_but<T>(
    before: Map<u64, PendingDirectRequest<T>>,
    after: Map<u64, PendingDirectRequest<T>>,
    request_id: u64,
) -> bool {
    forall|other: u64|
        #![trigger after.contains_key(other)]
        #![trigger before.contains_key(other)]
        other != request_id ==> after.contains_key(other) == before.contains_key(other) && (
        before.contains_key(other) ==> after[other] == before[other])
}

impl<T> DirectRequestRegistry<T> {
    /// Whether a request with this id is under way.
    pub open spec fn is_pending(&self, request_id: u64) -> bool {
        self.pending@.contains_key(request_id)
    }

    /// The payloads kept for a request, as byte strings.
    pub open spec fn retained(&self, request_id: u64) -> Seq<Seq<u8>>
        recommends
            self.is_pending(request_id),
    {
        self.pending@[request_id].inflight_payloads.deep_view()
    }

    /// A registry without requests, whose first id is 1.
    pub fn new() -> (registry: Self)
        ensures
            registry.next_request_id == 1,
            registry.pending@ == Map::<u64, PendingDirectRequest<T>>::empty(),
    {
        DirectRequestRegistry { next_request_id: 1, pending: HashMap::new() }
    }

    /// Enters a request and returns the id it got.
    pub fn register(&mut self, response_tx: T) -> (request_id: u64)
        ensures
            request_id == old(self).next_request_id,
            final(self).next_request_id == spec_next_id(request_id),
            final(self).is_pending(request_id),
            final(self).pending@[request_id].response_tx == response_tx,
            final(self).retained(request_id) == Seq::<Seq<u8>>::empty(),
            spec_same_but(old(self).pending@, final(self).pending@, request_id),
    {
        let request_id = self.next_request_id;
        self.next_request_id = request_id.wrapping_add(1);
        let entry = PendingDirectRequest { inflight_payloads: Vec::new(), response_tx };
        assert(entry.inflight_payloads.deep_view() =~= Seq::<Seq<u8>>::empty());
        let _ = self.pending.insert(request_id, entry);
        request_id
    }

    /// Keeps `payload` for a request that is under way and returns its place
    /// among the payloads kept for that request.
    pub fn retain_payload(&mut self, request_id: u64, payload: Vec<u8>) -> (result: Result<
        usize,
        ExchangeError,
    >)
        ensures
            final(self).next_request_id == old(self).next_request_id,
            match result {
                Ok(index) => {
                    &&& old(self).is_pending(request_id)
                    &&& final(self).is_pending(request_id)
                    &&& index == old(self).retained(request_id).len()
                    &&& final(self).retained(request_id) == old(self).retained(request_id).push(
                        payload@,
                    )
                    &&& final(self).pending@[request_id].response_tx
                        == old(self).pending@[request_id].response_tx
                    &&& spec_same_but(old(self).pending@, final(self).pending@, request_id)
                },
                Err(error) => {
                    &&& error == ExchangeError::UnknownRequest(request_id)
                    &&& !old(self).is_pending(request_id)
                    &&& final(self).pending@ == old(self).pending@
                },
            },
    {
        let found = self.pending.remove(&request_id);
        match found {
            None => {
                assert(self.pending@ =~= old(self).pending@);
                Err(ExchangeError::UnknownRequest(request_id))
            },
            Some(entry) => {
                let PendingDirectRequest { inflight_payloads, response_tx } = entry;
                let mut kept = inflight_payloads;
                let ghost before = kept.deep_view();
                let ghost earlier = kept@;
                let index = kept.len();
                assert(payload.deep_view() =~= payload@);
                kept.push(payload);
                proof {
                    assert forall|i: int| 0 <= i < before.len() implies kept.deep_view()[i]
                        == before[i] by {
                        assert(kept@[i] == earlier[i]);
                    }
                    assert(kept.deep_view() =~= before.push(payload@));
                }
                let _ = self.pending.insert(
                    request_id,
                    PendingDirectRequest { inflight_payloads: kept, response_tx },
                );
                Ok(index)
            },
        }
    }

    /// The payload at place `index` of those kept for a request.
    pub fn retained_payload(&self, request_id: u64, index: usize) -> (payload: Option<&Vec<u8>>)
        ensures
            match payload {
                Some(bytes) => {
                    &&& self.is_pending(request_id)
                    &&& index < self.retained(request_id).len()
                    &&& bytes@ == self.retained(request_id)[index as int]
                },
                None => !self.is_pending(request_id) || index >= self.retained(request_id).len(),
            },
    {
        match self.pending.get(&request_id) {
            None => None,
            Some(entry) => {
                if index < entry.inflight_payloads.len() {
                    let bytes = &entry.inflight_payloads[index];
                    assert(bytes.deep_view() =~= bytes@);
                    Some(bytes)
                } else {
                    None
                }
            },
        }
    }

    /// The sending end of the queue of a request, if the request is under way.
    pub fn response_sender(&self, request_id: u64) -> (sender: Option<&T>)
        ensures
            match sender {
                Some(found) => self.is_pending(request_id) && *found
                    == self.pending@[request_id].response_tx,
                None => !self.is_pending(request_id),
            },
    {
        match self.pending.get(&request_id) {
            None => None,
            Some(entry) => Some(&entry.response_tx),
        }
    }

    /// Takes a request out of the registry and says whether it was there.
    pub fn remove(&mut self, request_id: u64) -> (was_pending: bool)
        ensures
            was_pending == old(self).is_pending(request_id),
            !final(self).is_pending(request_id),
            final(self).pending@ == old(self).pending@.remove(request_id),
            final(self).next_request_id == old(self).next_request_id,
    {
        let found = self.pending.remove(&request_id);
        found.is_some()
    }
}

} // verus!
