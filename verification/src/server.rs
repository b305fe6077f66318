//! The server context: the one value that the connection acceptor, the worker
//! and the response router share, from the start of the program to its end.
//!
//! It holds the admission controller, the pending-connection map and the id
//! counter. The threads that share it keep it behind a lock and call it for
//! each decision; reading from and writing to connections, and the module
//! calls, happen outside, with the lock released.

use crate::admission::{
    ids_of, lemma_admitted_request_waits_last, lemma_apply_keeps_wf, lemma_step_emits_oldest,
    views_of, AdmissionController, AdmissionOutcome, ControllerView, Transition, WorkerAction,
    WorkerActionView, WorkerEvent, WorkerEventView,
};
use crate::handler_state::HandlerState;
use crate::registry::{endpoint_module_path, path_of_module};
use crate::request_unit::{RequestUnit, RequestUnitView};
use crate::router::{connections_under, delivery_matches, request_ids, Delivery, ResponseRouter};
use crate::text::{decode_utf8_lossy, utf8_lossy_text};
use crate::wire::{parse_request, parse_request_text, rejection_response, render_rejection};
use crate::worker::outcome_view;
use vstd::prelude::*;

verus! {

/// What the acceptor is to do with a connection whose request it has read.
#[derive(Debug, PartialEq, Eq)]
pub enum Acceptance<H> {
    /// The request was admitted under `id` and the connection waits for its
    /// outcome. Where `outcome` is `Dispatched`, a worker thread is to be
    /// started; it is never `Dropped`.
    Admitted { id: usize, outcome: AdmissionOutcome },
    /// The request was dropped at admission: write `response` on `connection`
    /// and close it.
    Rejected { connection: H, response: String },
    /// The request does not have the shape of a request: close `connection`.
    Ignored { connection: H },
}

/// An acceptance as plain values.
pub ghost enum AcceptanceView<H> {
    Admitted { id: usize, outcome: AdmissionOutcome },
    Rejected { connection: H, response: Seq<char> },
    Ignored { connection: H },
}

impl<H> View for Acceptance<H> {
    type V = AcceptanceView<H>;

    open spec fn view(&self) -> AcceptanceView<H> {
        match self {
            Acceptance::Admitted { id, outcome } => AcceptanceView::Admitted {
                id: *id,
                outcome: *outcome,
            },
            Acceptance::Rejected { connection, response } => AcceptanceView::Rejected {
                connection: *connection,
                response: response@,
            },
            Acceptance::Ignored { connection } => AcceptanceView::Ignored {
                connection: *connection,
            },
        }
    }
}

/// Whether each id is smaller than all that follow it.
pub open spec fn strictly_increasing(ids: Seq<usize>) -> bool {
    forall|i: int, j: int| 0 <= i < j < ids.len() ==> ids[i] < ids[j]
}

/// The server context as a mathematical value.
pub ghost struct ServerView<H> {
    /// The admission controller.
    pub controller: ControllerView,
    /// The connections that wait, by request id.
    pub pending: Map<usize, H>,
    /// The id that the next admitted request gets.
    pub next_id: usize,
    /// The ids whose outcome a worker has emitted, from the start of the
    /// program on, in emission order.
    pub delivered: Seq<usize>,
}

impl<H> ServerView<H> {
    /// The ids that were emitted, followed by the ids that wait for the
    /// worker.
    pub open spec fn known_ids(self) -> Seq<usize> {
        self.delivered + ids_of(self.controller.waiting())
    }

    /// What holds of every state the server context reaches: ids are handed
    /// out in increasing order, and every id in use is below the next one.
    pub open spec fn wf(self) -> bool {
        &&& self.controller.wf()
        &&& strictly_increasing(self.known_ids())
        &&& forall|i: int|
            0 <= i < self.known_ids().len() ==> #[trigger] self.known_ids()[i] < self.next_id
        &&& forall|id: usize| #[trigger] self.pending.contains_key(id) ==> id < self.next_id
    }

    /// The server context before the first connection.
    pub open spec fn initial(capacity: nat) -> ServerView<H> {
        ServerView {
            controller: ControllerView::initial(capacity),
            pending: Map::empty(),
            next_id: 0,
            delivered: Seq::empty(),
        }
    }

    /// The request that the acceptor makes of a parsed request text.
    pub open spec fn request_for(self, text: Seq<char>) -> RequestUnitView {
        let parsed = parse_request(text).unwrap();
        RequestUnitView::fresh(self.next_id, path_of_module(parsed.endpoint_name), parsed.body)
    }

    /// Whether a request with text `text` is admitted: it has the shape of a
    /// request, the controller does not drop it, and an id is left for it.
    pub open spec fn admits(self, text: Seq<char>) -> bool {
        &&& parse_request(text).is_some()
        &&& self.controller.admit_outcome() != AdmissionOutcome::Dropped
        &&& self.next_id < usize::MAX
    }

    /// The server context after a connection with request text `text` was
    /// accepted. An admitted request gets the next id, its connection waits
    /// under that id, and the controller takes the request. Otherwise nothing
    /// changes.
    pub open spec fn accept(self, text: Seq<char>, connection: H) -> ServerView<H> {
        if self.admits(text) {
            ServerView {
                controller: self.controller.admit_request(self.request_for(text)),
                pending: self.pending.insert(self.next_id, connection),
                next_id: (self.next_id + 1) as usize,
                ..self
            }
        } else {
            self
        }
    }

    /// What the acceptor is to do with the connection.
    pub open spec fn acceptance(self, text: Seq<char>, connection: H) -> AcceptanceView<H> {
        if self.admits(text) {
            AcceptanceView::Admitted {
                id: self.next_id,
                outcome: self.controller.admit_outcome(),
            }
        } else if parse_request(text).is_some() {
            AcceptanceView::Rejected { connection, response: rejection_response() }
        } else {
            AcceptanceView::Ignored { connection }
        }
    }

    /// The server context after one step of the worker: the controller takes
    /// the step, and an emitted id joins the delivered ones.
    pub open spec fn worker_step(self, event: WorkerEventView) -> ServerView<H> {
        ServerView {
            controller: self.controller.step(event).0,
            delivered: match self.controller.step(event).1 {
                WorkerActionView::Emit(id, _) => self.delivered.push(id),
                _ => self.delivered,
            },
            ..self
        }
    }

    /// The server context after the outcome of request `id` was routed, or
    /// after the connection that waited under `id` was abandoned.
    pub open spec fn without_pending(self, id: usize) -> ServerView<H> {
        ServerView { pending: self.pending.remove(id), ..self }
    }

    /// The server context after a supervisory restart: the controller
    /// restarts, and the connections of the requests it discards wait no
    /// longer.
    pub open spec fn restart(self) -> ServerView<H> {
        ServerView {
            controller: self.controller.restart(),
            pending: self.pending.remove_keys(ids_of(self.controller.lost()).to_set()),
            ..self
        }
    }

    /// The connections that a restart hands back to be closed.
    pub open spec fn closed_by_restart(self) -> Seq<H> {
        connections_under(self.pending, ids_of(self.controller.lost()))
    }
}

/// The server context.
pub struct ServerContext<H> {
    controller: AdmissionController,
    router: ResponseRouter<H>,
    next_id: usize,
    delivered: Ghost<Seq<usize>>,
}

impl<H> View for ServerContext<H> {
    type V = ServerView<H>;

    closed spec fn view(&self) -> ServerView<H> {
        ServerView {
            controller: self.controller@,
            pending: self.router@,
            next_id: self.next_id,
            delivered: self.delivered@,
        }
    }
}

impl<H> ServerContext<H> {
    /// The server context is in a state that it can reach.
    pub closed spec fn wf(&self) -> bool {
        &&& self.controller.wf()
        &&& self@.wf()
    }

    /// Wherever the server context is well formed, so is its view.
    pub proof fn lemma_view_wf(&self)
        requires
            self.wf(),
        ensures
            self@.wf(),
    {
    }

    /// A server context with no connection waiting, whose queues hold up to
    /// `capacity` requests.
    pub fn new(capacity: usize) -> (server: ServerContext<H>)
        ensures
            server.wf(),
            server@ == ServerView::<H>::initial(capacity as nat),
    {
        let server = ServerContext {
            controller: AdmissionController::new(capacity),
            router: ResponseRouter::new(),
            next_id: 0,
            delivered: Ghost(Seq::empty()),
        };
        proof {
            server.controller.lemma_view_wf();
            assert(server@.known_ids() =~= Seq::<usize>::empty());
        }
        server
    }

    /// The handler state.
    pub fn state(&self) -> (state: HandlerState)
        ensures
            state == self@.controller.state,
    {
        self.controller.state()
    }

    /// Whether the handler has failed, so that a supervisory restart is due.
    pub fn needs_restart(&self) -> (needed: bool)
        ensures
            needed == (self@.controller.state == HandlerState::Failed),
    {
        self.controller.state() == HandlerState::Failed
    }

    /// The number of requests in the active queue.
    pub fn queue_len(&self) -> (len: usize)
        ensures
            len == self@.controller.queue.len(),
    {
        self.controller.queue_len()
    }

    /// The number of connections that wait for an outcome.
    pub fn pending_count(&self) -> (count: usize)
        ensures
            count == self@.pending.len(),
    {
        self.router.pending_count()
    }

    /// Whether a connection waits under `id`.
    pub fn is_pending(&self, id: usize) -> (pending: bool)
        ensures
            pending == self@.pending.contains_key(id),
    {
        self.router.is_pending(id)
    }

    /// Accepts a connection whose request text was read: see
    /// [`ServerView::accept`] and [`ServerView::acceptance`].
    pub fn accept(&mut self, request_text: &str, connection: H) -> (acceptance: Acceptance<H>)
        requires
            old(self).wf(),
        ensures
            final(self).wf(),
            final(self)@ == old(self)@.accept(request_text@, connection),
            acceptance@ == old(self)@.acceptance(request_text@, connection),
    {
        let parsed = match parse_request_text(request_text) {
            Some(parsed) => parsed,
            None => {
                return Acceptance::Ignored { connection };
            },
        };
        if self.next_id == usize::MAX || self.controller.next_outcome()
            == AdmissionOutcome::Dropped {
            return Acceptance::Rejected { connection, response: render_rejection() };
        }
        let id = self.next_id;
        let endpoint_module_name = endpoint_module_path(parsed.endpoint_name.as_str());
        let request = RequestUnit::new(id, endpoint_module_name, parsed.body);
        proof {
            self.controller.lemma_view_wf();
        }
        self.next_id = id + 1;
        let replaced = self.router.register(id, connection);
        let outcome = self.controller.admit_request(request);
        proof {
            lemma_server_apply_keeps_wf(
                old(self)@,
                ServerTransition::Accept(request_text@, connection),
            );
        }
        Acceptance::Admitted { id, outcome }
    }

    /// Accepts a connection whose request bytes were read. The bytes are
    /// decoded as UTF-8, ill-formed sequences replaced, and the text is
    /// accepted as by [`ServerContext::accept`].
    pub fn accept_bytes(&mut self, request_bytes: &[u8], connection: H) -> (acceptance: Acceptance<
        H,
    >)
        requires
            old(self).wf(),
        ensures
            final(self).wf(),
            final(self)@ == old(self)@.accept(utf8_lossy_text(request_bytes@), connection),
            acceptance@ == old(self)@.acceptance(utf8_lossy_text(request_bytes@), connection),
    {
        let text = decode_utf8_lossy(request_bytes);
        self.accept(text.as_str(), connection)
    }

    /// One step of the worker: see [`ControllerView::step`].
    pub fn worker_step(&mut self, event: WorkerEvent) -> (action: WorkerAction)
        requires
            old(self).wf(),
        ensures
            final(self).wf(),
            final(self)@ == old(self)@.worker_step(event@),
            action@ == old(self)@.controller.step(event@).1,
    {
        proof {
            self.controller.lemma_view_wf();
            lemma_server_apply_keeps_wf(old(self)@, ServerTransition::Worker(event@));
        }
        let action = self.controller.worker_step(event);
        proof {
            match action@ {
                WorkerActionView::Emit(id, _) => {
                    self.delivered = Ghost(self.delivered@.push(id));
                },
                _ => {},
            }
        }
        action
    }

    /// Routes the outcome of request `id` to the connection that waits for
    /// it: see [`ResponseRouter::route`].
    pub fn route(&mut self, id: usize, outcome: Result<RequestUnit, String>) -> (delivery: Delivery<
        H,
    >)
        requires
            old(self).wf(),
        ensures
            final(self).wf(),
            final(self)@ == old(self)@.without_pending(id),
            delivery_matches(old(self)@.pending, id, outcome_view(outcome), delivery),
    {
        proof {
            lemma_server_apply_keeps_wf(old(self)@, ServerTransition::Forget(id));
        }
        self.router.route(id, outcome)
    }

    /// Takes the connection that waits under `id` out of the map, because it
    /// timed out or was disconnected.
    pub fn abandon(&mut self, id: usize) -> (connection: Option<H>)
        requires
            old(self).wf(),
        ensures
            final(self).wf(),
            final(self)@ == old(self)@.without_pending(id),
            connection == if old(self)@.pending.contains_key(id) {
                Some(old(self)@.pending[id])
            } else {
                None
            },
    {
        proof {
            lemma_server_apply_keeps_wf(old(self)@, ServerTransition::Forget(id));
        }
        self.router.abandon(id)
    }

    /// The supervisory restart. In state `Failed` the queue and what the
    /// worker held are discarded, the connections that waited for them are
    /// handed back to be closed, and the state becomes `Idle`. In any other
    /// state nothing changes and nothing is handed back.
    pub fn restart(&mut self) -> (closed: Vec<H>)
        requires
            old(self).wf(),
        ensures
            final(self).wf(),
            final(self)@ == old(self)@.restart(),
            closed@ == old(self)@.closed_by_restart(),
    {
        let lost = self.controller.restart();
        proof {
            assert(request_ids(lost@) =~= ids_of(views_of(lost@)));
        }
        let closed = self.router.abandon_all(&lost);
        proof {
            old(self).controller.lemma_view_wf();
            lemma_server_apply_keeps_wf(old(self)@, ServerTransition::Restart);
        }
        closed
    }
}

/// One call on the server context.
pub ghost enum ServerTransition<H> {
    /// A connection with this request text is accepted.
    Accept(Seq<char>, H),
    /// The worker thread reports an event.
    Worker(WorkerEventView),
    /// The outcome of the request with this id is routed, or the connection
    /// that waits under the id is abandoned.
    Forget(usize),
    /// The supervisor restarts the handler.
    Restart,
}

impl<H> ServerView<H> {
    /// The server context after one call.
    pub open spec fn apply(self, transition: ServerTransition<H>) -> ServerView<H> {
        match transition {
            ServerTransition::Accept(text, connection) => self.accept(text, connection),
            ServerTransition::Worker(event) => self.worker_step(event),
            ServerTransition::Forget(id) => self.without_pending(id),
            ServerTransition::Restart => self.restart(),
        }
    }

    /// The server context after a sequence of calls, in any interleaving.
    pub open spec fn run(self, transitions: Seq<ServerTransition<H>>) -> ServerView<H>
        decreases transitions.len(),
    {
        if transitions.len() == 0 {
            self
        } else {
            self.run(transitions.drop_last()).apply(transitions.last())
        }
    }
}

/// Every call keeps the server context well formed.
pub proof fn lemma_server_apply_keeps_wf<H>(server: ServerView<H>, transition: ServerTransition<H>)
    requires
        server.wf(),
    ensures
        server.apply(transition).wf(),
{
    let after = server.apply(transition);
    let before = server.known_ids();
    match transition {
        ServerTransition::Accept(text, connection) => {
            if server.admits(text) {
                let id = server.next_id;
                let request = server.request_for(text);
                lemma_admitted_request_waits_last(server.controller, request);
                lemma_apply_keeps_wf(server.controller, Transition::Admit(request));
                assert(after.known_ids() =~= before.push(id));
                assert forall|i: int, j: int| 0 <= i < j < after.known_ids().len() implies after.known_ids()[i]
                    < after.known_ids()[j] by {
                    if j < before.len() {
                        assert(before[i] < before[j]);
                    } else {
                        assert(before[i] < id);
                    }
                }
                assert forall|i: int| 0 <= i < after.known_ids().len() implies #[trigger] after.known_ids()[i]
                    < after.next_id by {
                    if i < before.len() {
                        assert(before[i] < id);
                    }
                }
                assert forall|k: usize| #[trigger] after.pending.contains_key(k) implies k
                    < after.next_id by {
                    if k != id {
                        assert(server.pending.contains_key(k));
                    }
                }
            }
        },
        ServerTransition::Worker(event) => {
            lemma_step_emits_oldest(server.controller, event);
            assert(after.known_ids() =~= before);
        },
        ServerTransition::Forget(id) => {
            assert forall|k: usize| #[trigger] after.pending.contains_key(k) implies k
                < after.next_id by {
                assert(server.pending.contains_key(k));
            }
        },
        ServerTransition::Restart => {
            lemma_apply_keeps_wf(server.controller, Transition::Restart);
            if server.controller.state == HandlerState::Failed {
                assert(ids_of(after.controller.waiting()) =~= Seq::<usize>::empty());
                assert(after.known_ids() =~= before.take(after.delivered.len() as int));
            } else {
                assert(after.known_ids() =~= before);
            }
            assert forall|k: usize| #[trigger] after.pending.contains_key(k) implies k
                < after.next_id by {
                assert(server.pending.contains_key(k));
            }
        },
    }
}

/// Every sequence of calls leaves the server context well formed.
pub proof fn lemma_server_run_keeps_wf<H>(
    server: ServerView<H>,
    transitions: Seq<ServerTransition<H>>,
)
    requires
        server.wf(),
    ensures
        server.run(transitions).wf(),
    decreases transitions.len(),
{
    if transitions.len() > 0 {
        lemma_server_run_keeps_wf(server, transitions.drop_last());
        lemma_server_apply_keeps_wf(server.run(transitions.drop_last()), transitions.last());
    }
}

/// No outcome is emitted twice. Whatever calls were made and in whatever
/// order, the ids whose outcome a worker has emitted are all different, none
/// of them belongs to a request that still waits for the worker, and no two
/// waiting requests share an id.
pub proof fn lemma_each_id_is_emitted_at_most_once<H>(
    capacity: nat,
    transitions: Seq<ServerTransition<H>>,
)
    ensures
        ({
            let reached = ServerView::<H>::initial(capacity).run(transitions);
            &&& reached.delivered.no_duplicates()
            &&& ids_of(reached.controller.waiting()).no_duplicates()
            &&& forall|i: int, j: int|
                0 <= i < reached.delivered.len() && 0 <= j < reached.controller.waiting().len()
                    ==> #[trigger] reached.delivered[i]
                    != #[trigger] reached.controller.waiting()[j].id
        }),
{
    let start = ServerView::<H>::initial(capacity);
    assert(start.controller.waiting() =~= Seq::<RequestUnitView>::empty());
    assert(start.known_ids() =~= Seq::<usize>::empty());
    assert(start.controller.admitted =~= start.controller.emitted + ids_of(
        start.controller.waiting(),
    ));
    lemma_server_run_keeps_wf(start, transitions);
    let reached = start.run(transitions);
    let known = reached.known_ids();
    let waiting = ids_of(reached.controller.waiting());
    assert forall|i: int, j: int|
        0 <= i < reached.delivered.len() && 0 <= j < reached.delivered.len() && i
            != j implies reached.delivered[i] != reached.delivered[j] by {
        assert(known[i] == reached.delivered[i] && known[j] == reached.delivered[j]);
        if i < j {
            assert(known[i] < known[j]);
        } else {
            assert(known[j] < known[i]);
        }
    }
    assert forall|i: int, j: int| 0 <= i < waiting.len() && 0 <= j < waiting.len() && i
        != j implies waiting[i] != waiting[j] by {
        let d = reached.delivered.len() as int;
        assert(known[d + i] == waiting[i] && known[d + j] == waiting[j]);
        if i < j {
            assert(known[d + i] < known[d + j]);
        } else {
            assert(known[d + j] < known[d + i]);
        }
    }
    assert forall|i: int, j: int|
        0 <= i < reached.delivered.len() && 0 <= j
            < reached.controller.waiting().len() implies #[trigger] reached.delivered[i]
        != #[trigger] reached.controller.waiting()[j].id by {
        let d = reached.delivered.len() as int;
        assert(known[i] == reached.delivered[i]);
        assert(known[d + j] == waiting[j]);
        assert(known[i] < known[d + j]);
    }
}

} // verus!
