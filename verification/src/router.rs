//! The response router: it keeps the connection that waits for each request
//! and, when the outcome of a request arrives, hands the connection back
//! together with the response to write on it.

use crate::request_unit::{RequestUnit, RequestUnitView};
use crate::wire::{render_response, response_for};
use crate::worker::outcome_view;
use std::collections::HashMap;
use vstd::prelude::*;

verus! {

/// What the router decided for an outcome that arrived.
#[derive(Debug, PartialEq, Eq)]
pub enum Delivery<H> {
    /// Write `response` on `connection`, then close it.
    Respond { connection: H, response: String },
    /// No connection waits under that id: the outcome is discarded.
    Miss,
}

/// The pending-connection map, keyed by request id. `H` is whatever the
/// caller needs in order to write a response later.
pub struct ResponseRouter<H> {
    pending: HashMap<usize, H>,
}

impl<H> View for ResponseRouter<H> {
    type V = Map<usize, H>;

    /// The connections that wait, by request id.
    closed spec fn view(&self) -> Map<usize, H> {
        self.pending@
    }
}

/// What the router hands back for the outcome of request `id`: the waiting
/// connection with the response for the outcome, or a miss where none waits.
pub open spec fn delivery_matches<H>(
    pending: Map<usize, H>,
    id: usize,
    outcome: Result<RequestUnitView, Seq<char>>,
    delivery: Delivery<H>,
) -> bool {
    match delivery {
        Delivery::Respond { connection, response } => {
            &&& pending.contains_key(id)
            &&& connection == pending[id]
            &&& response@ == response_for(outcome)
        },
        Delivery::Miss => !pending.contains_key(id),
    }
}

/// The connections that leave the map when the entries under `ids` are taken
/// out one after the other: for each id, at its first occurrence, the
/// connection that waited under it, if one did.
pub open spec fn connections_under<H>(pending: Map<usize, H>, ids: Seq<usize>) -> Seq<H>
    decreases ids.len(),
{
    if ids.len() == 0 {
        Seq::empty()
    } else {
        let earlier = ids.drop_last();
        let id = ids.last();
        if pending.contains_key(id) && !earlier.contains(id) {
            connections_under(pending, earlier).push(pending[id])
        } else {
            connections_under(pending, earlier)
        }
    }
}

/// The ids of the requests in `requests`, in the same order.
pub open spec fn request_ids(requests: Seq<RequestUnit>) -> Seq<usize> {
    requests.map_values(|request: RequestUnit| request.id)
}

impl<H> ResponseRouter<H> {
    /// A router with no connection waiting.
    pub fn new() -> (router: ResponseRouter<H>)
        ensures
            router@ == Map::<usize, H>::empty(),
    {
        ResponseRouter { pending: HashMap::new() }
    }

    /// Whether a connection waits under `id`.
    pub fn is_pending(&self, id: usize) -> (pending: bool)
        ensures
            pending == self@.contains_key(id),
    {
        self.pending.contains_key(&id)
    }

    /// The number of connections that wait.
    pub fn pending_count(&self) -> (count: usize)
        ensures
            count == self@.len(),
    {
        self.pending.len()
    }

    /// Records that `connection` waits for the outcome of request `id`. A
    /// connection that waited under the same id is replaced and handed back.
    pub fn register(&mut self, id: usize, connection: H) -> (replaced: Option<H>)
        ensures
            final(self)@ == old(self)@.insert(id, connection),
            replaced == if old(self)@.contains_key(id) {
                Some(old(self)@[id])
            } else {
                None
            },
    {
        self.pending.insert(id, connection)
    }

    /// Takes the connection that waits under `id` out of the map, because it
    /// was abandoned or its request was dropped.
    pub fn abandon(&mut self, id: usize) -> (connection: Option<H>)
        ensures
            final(self)@ == old(self)@.remove(id),
            connection == if old(self)@.contains_key(id) {
                Some(old(self)@[id])
            } else {
                None
            },
    {
        self.pending.remove(&id)
    }

    /// Takes the connections that wait for `requests` out of the map, because
    /// the requests are lost and no outcome will arrive for them.
    pub fn abandon_all(&mut self, requests: &Vec<RequestUnit>) -> (connections: Vec<H>)
        ensures
            final(self)@ == old(self)@.remove_keys(request_ids(requests@).to_set()),
            connections@ == connections_under(old(self)@, request_ids(requests@)),
    {
        let ghost ids = request_ids(requests@);
        let mut connections: Vec<H> = Vec::new();
        let mut i: usize = 0;
        proof {
            assert(ids.take(0).to_set() =~= Set::<usize>::empty());
            assert(self@ =~= old(self)@.remove_keys(ids.take(0).to_set()));
        }
        while i < requests.len()
            invariant
                i <= requests.len(),
                ids == request_ids(requests@),
                self@ == old(self)@.remove_keys(ids.take(i as int).to_set()),
                connections@ == connections_under(old(self)@, ids.take(i as int)),
            decreases requests.len() - i,
        {
            let id = requests[i].id;
            proof {
                let now = ids.take(i + 1);
                assert(now.drop_last() =~= ids.take(i as int));
                assert(now.last() == id);
                assert(now.to_set() =~= ids.take(i as int).to_set().insert(id));
                assert(old(self)@.remove_keys(now.to_set()) =~= old(self)@.remove_keys(
                    ids.take(i as int).to_set(),
                ).remove(id));
                assert(ids.take(i as int).contains(id) <==> ids.take(i as int).to_set().contains(
                    id,
                ));
            }
            match self.pending.remove(&id) {
                Some(connection) => {
                    connections.push(connection);
                },
                None => {},
            }
            i += 1;
        }
        assert(ids.take(requests.len() as int) =~= ids);
        connections
    }

    /// Routes the outcome of request `id`. The entry under `id` leaves the
    /// map. Where one was there, its connection comes back with the response
    /// to write; where none was, the outcome is discarded.
    pub fn route(&mut self, id: usize, outcome: Result<RequestUnit, String>) -> (delivery: Delivery<
        H,
    >)
        ensures
            final(self)@ == old(self)@.remove(id),
            delivery_matches(old(self)@, id, outcome_view(outcome), delivery),
    {
        match self.pending.remove(&id) {
            Some(connection) => {
                let response = render_response(&outcome);
                Delivery::Respond { connection, response }
            },
            None => Delivery::Miss,
        }
    }
}

/// An entry is removed once. After the outcome of request `id` was routed, no
/// connection waits under `id`, so whatever arrives for `id` later is a miss
/// and changes nothing; the entries under other ids stay as they are.
pub proof fn lemma_route_removes_once<H>(
    pending: Map<usize, H>,
    id: usize,
    later: Result<RequestUnitView, Seq<char>>,
    delivery: Delivery<H>,
)
    requires
        delivery_matches(pending.remove(id), id, later, delivery),
    ensures
        delivery is Miss,
        pending.remove(id).remove(id) == pending.remove(id),
        forall|other: usize|
            other != id ==> (#[trigger] pending.remove(id).contains_key(other)
                <==> pending.contains_key(other)),
{
    assert(pending.remove(id).remove(id) =~= pending.remove(id));
}

} // verus!
