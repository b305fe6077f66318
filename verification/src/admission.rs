//! The admission controller and the worker it starts.
//!
//! One value holds the handler state, the request handed to the worker, and
//! the active handoff queue. An incoming request starts a worker, joins the
//! queue, or is dropped; the worker takes the requests out again, oldest
//! first, one step at a time. Whoever shares the value between threads keeps
//! it behind a lock: each method then runs as one indivisible step.

use crate::handler_state::{HandlerState, StateCell};
use crate::handoff_queue::HandoffQueue;
use crate::request_unit::{RequestUnit, RequestUnitView};
use crate::worker::{
    complete_request_with_report, first_half, outcome_view, process_request_with_module,
    second_half, ModuleCall, ModuleCallView, ModuleReport, ModuleReportView, ModuleStep,
    ModuleStepView,
};
use vstd::prelude::*;

verus! {

/// What became of a request at admission.
#[derive(Clone, Copy, Debug, PartialEq, Eq, Structural)]
pub enum AdmissionOutcome {
    /// The request started a new worker, which holds it.
    Dispatched,
    /// The request joined the queue of the active worker.
    Queued,
    /// The request was rejected: the queue is full, or the handler has failed.
    Dropped,
}

/// What a worker thread tells the controller.
#[derive(Clone, Debug, PartialEq, Eq)]
pub enum WorkerEvent {
    /// The worker is ready for its next request.
    Next,
    /// The module call that the worker was asked to make has reported.
    ModuleDone(ModuleReport),
    /// The worker's own control logic broke.
    Fatal,
}

/// A worker event as plain values.
pub ghost enum WorkerEventView {
    Next,
    ModuleDone(ModuleReportView),
    Fatal,
}

impl View for WorkerEvent {
    type V = WorkerEventView;

    open spec fn view(&self) -> WorkerEventView {
        match self {
            WorkerEvent::Next => WorkerEventView::Next,
            WorkerEvent::ModuleDone(report) => WorkerEventView::ModuleDone(report@),
            WorkerEvent::Fatal => WorkerEventView::Fatal,
        }
    }
}

/// What the controller tells a worker thread to do.
#[derive(Debug, PartialEq, Eq)]
pub enum WorkerAction {
    /// Send the outcome of the request with this id to the response router,
    /// then report `Next`.
    Emit(usize, Result<RequestUnit, String>),
    /// Make the module call, then report `ModuleDone`.
    Run(ModuleCall),
    /// Stop: this worker has no more to do.
    Terminate,
}

/// A worker action as plain values.
pub ghost enum WorkerActionView {
    Emit(usize, Result<RequestUnitView, Seq<char>>),
    Run(ModuleCallView),
    Terminate,
}

impl View for WorkerAction {
    type V = WorkerActionView;

    open spec fn view(&self) -> WorkerActionView {
        match self {
            WorkerAction::Emit(id, outcome) => WorkerActionView::Emit(*id, outcome_view(*outcome)),
            WorkerAction::Run(call) => WorkerActionView::Run(call@),
            WorkerAction::Terminate => WorkerActionView::Terminate,
        }
    }
}

/// The request that the worker holds, if any.
#[derive(Debug)]
pub enum WorkerSlot {
    /// The worker holds no request.
    Empty,
    /// The request was handed to the worker, which has not begun it.
    Handed(RequestUnit),
    /// The request waits for the report of its module call.
    Running(RequestUnit),
}

/// A worker slot as plain values.
pub ghost enum WorkerSlotView {
    Empty,
    Handed(RequestUnitView),
    Running(RequestUnitView),
}

impl View for WorkerSlot {
    type V = WorkerSlotView;

    open spec fn view(&self) -> WorkerSlotView {
        match self {
            WorkerSlot::Empty => WorkerSlotView::Empty,
            WorkerSlot::Handed(request) => WorkerSlotView::Handed(request@),
            WorkerSlot::Running(request) => WorkerSlotView::Running(request@),
        }
    }
}

impl WorkerSlotView {
    /// The held request as a sequence of length zero or one.
    pub open spec fn requests(self) -> Seq<RequestUnitView> {
        match self {
            WorkerSlotView::Empty => Seq::empty(),
            WorkerSlotView::Handed(request) => seq![request],
            WorkerSlotView::Running(request) => seq![request],
        }
    }
}

/// The requests of a sequence as plain values, in the same order.
pub open spec fn views_of(requests: Seq<RequestUnit>) -> Seq<RequestUnitView> {
    requests.map_values(|request: RequestUnit| request@)
}

/// The ids of `requests`, in the same order.
pub open spec fn ids_of(requests: Seq<RequestUnitView>) -> Seq<usize> {
    requests.map_values(|request: RequestUnitView| request.id)
}

/// The controller as a mathematical value.
pub ghost struct ControllerView {
    /// The handler state.
    pub state: HandlerState,
    /// The capacity of every queue that the controller creates.
    pub capacity: nat,
    /// The request that the worker holds.
    pub slot: WorkerSlotView,
    /// The active queue, oldest request first.
    pub queue: Seq<RequestUnitView>,
    /// How many workers were started.
    pub spawned: nat,
    /// How many workers ended, by draining their queue or by failing.
    pub retired: nat,
    /// The ids admitted into the current queue, in admission order, the
    /// request that started the worker first.
    pub admitted: Seq<usize>,
    /// The ids whose outcome was emitted from the current queue, in emission
    /// order.
    pub emitted: Seq<usize>,
}

impl ControllerView {
    /// The requests that wait for the worker, in the order in which it takes
    /// them up.
    pub open spec fn waiting(self) -> Seq<RequestUnitView> {
        self.slot.requests() + self.queue
    }

    /// How many workers are active.
    pub open spec fn active_workers(self) -> int {
        self.spawned - self.retired
    }

    /// What holds of every state the controller reaches.
    pub open spec fn wf(self) -> bool {
        &&& self.queue.len() <= self.capacity
        &&& self.active_workers() == if self.state == HandlerState::Busy {
            1int
        } else {
            0int
        }
        &&& self.state == HandlerState::Idle ==> self.waiting().len() == 0
        &&& self.admitted == self.emitted + ids_of(self.waiting())
    }

    /// The controller before the first request.
    pub open spec fn initial(capacity: nat) -> ControllerView {
        ControllerView {
            state: HandlerState::Idle,
            capacity,
            slot: WorkerSlotView::Empty,
            queue: Seq::empty(),
            spawned: 0,
            retired: 0,
            admitted: Seq::empty(),
            emitted: Seq::empty(),
        }
    }

    /// What becomes of the next request.
    pub open spec fn admit_outcome(self) -> AdmissionOutcome {
        match self.state {
            HandlerState::Idle => AdmissionOutcome::Dispatched,
            HandlerState::Busy => if self.queue.len() < self.capacity {
                AdmissionOutcome::Queued
            } else {
                AdmissionOutcome::Dropped
            },
            HandlerState::Failed => AdmissionOutcome::Dropped,
        }
    }

    /// The controller after `request` was presented for admission.
    pub open spec fn admit_request(self, request: RequestUnitView) -> ControllerView {
        match self.admit_outcome() {
            AdmissionOutcome::Dispatched => ControllerView {
                state: HandlerState::Busy,
                slot: WorkerSlotView::Handed(request),
                queue: Seq::empty(),
                spawned: self.spawned + 1,
                admitted: seq![request.id],
                emitted: Seq::empty(),
                ..self
            },
            AdmissionOutcome::Queued => ControllerView {
                queue: self.queue.push(request),
                admitted: self.admitted.push(request.id),
                ..self
            },
            AdmissionOutcome::Dropped => self,
        }
    }

    /// The worker ends abnormally: the state becomes `Failed`, and what waits
    /// stays where it is, lost to the worker.
    pub open spec fn fail(self) -> (ControllerView, WorkerActionView) {
        (
            ControllerView { state: HandlerState::Failed, retired: self.retired + 1, ..self },
            WorkerActionView::Terminate,
        )
    }

    /// The worker takes up `request`, with `rest` left in the queue.
    pub open spec fn take_up(self, request: RequestUnitView, rest: Seq<RequestUnitView>) -> (
        ControllerView,
        WorkerActionView,
    ) {
        match first_half(request) {
            ModuleStepView::Finished(outcome) => (
                ControllerView {
                    slot: WorkerSlotView::Empty,
                    queue: rest,
                    emitted: self.emitted.push(request.id),
                    ..self
                },
                WorkerActionView::Emit(request.id, outcome),
            ),
            ModuleStepView::Call(call) => (
                ControllerView { slot: WorkerSlotView::Running(request), queue: rest, ..self },
                WorkerActionView::Run(call),
            ),
        }
    }

    /// One step of the worker: the controller after `event`, and what the
    /// worker thread is to do next.
    ///
    /// - Where no worker is active, nothing changes and the thread is told to
    ///   stop.
    /// - `Next` takes up the handed request, or else the oldest queued one.
    ///   With nothing left, the worker ends and the state becomes `Idle`.
    /// - `ModuleDone` completes the request that waits for the report.
    /// - `Fatal`, and an event that does not fit the request held, end the
    ///   worker with state `Failed`.
    pub open spec fn step(self, event: WorkerEventView) -> (ControllerView, WorkerActionView) {
        if self.state != HandlerState::Busy {
            (self, WorkerActionView::Terminate)
        } else {
            match (event, self.slot) {
                (WorkerEventView::Next, WorkerSlotView::Handed(request)) => self.take_up(
                    request,
                    self.queue,
                ),
                (WorkerEventView::Next, WorkerSlotView::Empty) => if self.queue.len() == 0 {
                    (
                        ControllerView {
                            state: HandlerState::Idle,
                            retired: self.retired + 1,
                            ..self
                        },
                        WorkerActionView::Terminate,
                    )
                } else {
                    self.take_up(self.queue[0], self.queue.drop_first())
                },
                (WorkerEventView::ModuleDone(report), WorkerSlotView::Running(request)) => (
                    ControllerView {
                        slot: WorkerSlotView::Empty,
                        emitted: self.emitted.push(request.id),
                        ..self
                    },
                    WorkerActionView::Emit(request.id, second_half(request, report)),
                ),
                _ => self.fail(),
            }
        }
    }

    /// The requests that a restart discards: in state `Failed` all that wait,
    /// else none.
    pub open spec fn lost(self) -> Seq<RequestUnitView> {
        if self.state == HandlerState::Failed {
            self.waiting()
        } else {
            Seq::empty()
        }
    }

    /// The controller after a supervisory restart: from `Failed` it goes to
    /// `Idle` with nothing waiting; in any other state nothing changes.
    pub open spec fn restart(self) -> ControllerView {
        if self.state == HandlerState::Failed {
            ControllerView {
                state: HandlerState::Idle,
                slot: WorkerSlotView::Empty,
                queue: Seq::empty(),
                admitted: Seq::empty(),
                emitted: Seq::empty(),
                ..self
            }
        } else {
            self
        }
    }
}

/// The admission controller together with the one worker it may have started.
pub struct AdmissionController {
    state: StateCell,
    capacity: usize,
    slot: WorkerSlot,
    queue: HandoffQueue,
    spawned: Ghost<nat>,
    retired: Ghost<nat>,
    admitted: Ghost<Seq<usize>>,
    emitted: Ghost<Seq<usize>>,
}

impl View for AdmissionController {
    type V = ControllerView;

    closed spec fn view(&self) -> ControllerView {
        ControllerView {
            state: self.state@,
            capacity: self.capacity as nat,
            slot: self.slot@,
            queue: views_of(self.queue@),
            spawned: self.spawned@,
            retired: self.retired@,
            admitted: self.admitted@,
            emitted: self.emitted@,
        }
    }
}

impl AdmissionController {
    /// The controller is in a state that it can reach.
    pub closed spec fn wf(&self) -> bool {
        &&& self@.wf()
        &&& self.queue.wf()
        &&& self.queue.spec_capacity() == self.capacity
    }

    /// Wherever the controller is well formed, so is its view.
    pub proof fn lemma_view_wf(&self)
        requires
            self.wf(),
        ensures
            self@.wf(),
            self@.capacity <= usize::MAX,
    {
    }

    /// A controller in state `Idle` whose queues hold up to `capacity`
    /// requests.
    pub fn new(capacity: usize) -> (controller: AdmissionController)
        ensures
            controller.wf(),
            controller@ == ControllerView::initial(capacity as nat),
    {
        let controller = AdmissionController {
            state: StateCell::new(),
            capacity,
            slot: WorkerSlot::Empty,
            queue: HandoffQueue::new(capacity),
            spawned: Ghost(0),
            retired: Ghost(0),
            admitted: Ghost(Seq::empty()),
            emitted: Ghost(Seq::empty()),
        };
        proof {
            assert(controller@.queue =~= Seq::<RequestUnitView>::empty());
            assert(ids_of(controller@.waiting()) =~= Seq::<usize>::empty());
            assert(controller@.admitted =~= controller@.emitted + ids_of(controller@.waiting()));
        }
        controller
    }

    /// The handler state.
    pub fn state(&self) -> (state: HandlerState)
        ensures
            state == self@.state,
    {
        self.state.load()
    }

    /// The capacity of the queues that the controller creates.
    pub fn capacity(&self) -> (capacity: usize)
        ensures
            capacity == self@.capacity,
    {
        self.capacity
    }

    /// What becomes of the next request that is presented for admission.
    pub fn next_outcome(&self) -> (outcome: AdmissionOutcome)
        requires
            self.wf(),
        ensures
            outcome == self@.admit_outcome(),
    {
        match self.state.load() {
            HandlerState::Idle => AdmissionOutcome::Dispatched,
            HandlerState::Busy => if self.queue.is_full() {
                AdmissionOutcome::Dropped
            } else {
                AdmissionOutcome::Queued
            },
            HandlerState::Failed => AdmissionOutcome::Dropped,
        }
    }

    /// The number of requests in the active queue.
    pub fn queue_len(&self) -> (len: usize)
        ensures
            len == self@.queue.len(),
    {
        self.queue.len()
    }

    /// Presents `request` for admission.
    ///
    /// - `Idle`: the state becomes `Busy`, a fresh queue replaces the old one,
    ///   and the request is handed to the new worker: `Dispatched`.
    /// - `Busy`: the request joins the queue if there is room (`Queued`), and
    ///   is dropped if the queue is at capacity (`Dropped`). The call never
    ///   waits for room.
    /// - `Failed`: `Dropped`.
    pub fn admit_request(&mut self, request: RequestUnit) -> (outcome: AdmissionOutcome)
        requires
            old(self).wf(),
        ensures
            final(self).wf(),
            outcome == old(self)@.admit_outcome(),
            final(self)@ == old(self)@.admit_request(request@),
    {
        if self.state.compare_and_set(HandlerState::Idle, HandlerState::Busy) {
            self.queue = HandoffQueue::new(self.capacity);
            self.slot = WorkerSlot::Handed(request);
            proof {
                self.spawned = Ghost(self.spawned@ + 1);
                self.admitted = Ghost(seq![request.id]);
                self.emitted = Ghost(Seq::empty());
                assert(self@.queue =~= Seq::<RequestUnitView>::empty());
                assert(ids_of(self@.waiting()) =~= seq![request.id]);
                assert(self@.admitted =~= self@.emitted + ids_of(self@.waiting()));
            }
            AdmissionOutcome::Dispatched
        } else if self.state.load() == HandlerState::Busy {
            match self.queue.push_back(request) {
                None => {
                    proof {
                        self.admitted = Ghost(self.admitted@.push(request.id));
                        assert(self@.queue =~= old(self)@.queue.push(request@));
                        assert(ids_of(self@.waiting()) =~= ids_of(old(self)@.waiting()).push(
                            request.id,
                        ));
                        assert(self@.admitted =~= self@.emitted + ids_of(self@.waiting()));
                    }
                    AdmissionOutcome::Queued
                },
                Some(_) => AdmissionOutcome::Dropped,
            }
        } else {
            AdmissionOutcome::Dropped
        }
    }

    /// Ends the worker abnormally: `Busy` becomes `Failed`.
    fn fail_worker(&mut self) -> (action: WorkerAction)
        requires
            old(self).wf(),
            old(self)@.state == HandlerState::Busy,
        ensures
            final(self).wf(),
            final(self)@ == old(self)@.fail().0,
            action@ == old(self)@.fail().1,
    {
        let swapped = self.state.compare_and_set(HandlerState::Busy, HandlerState::Failed);
        assert(swapped);
        proof {
            self.retired = Ghost(self.retired@ + 1);
        }
        WorkerAction::Terminate
    }

    /// Runs `request` through its module as far as it goes, with `before` the
    /// controller from which the request was just taken.
    fn take_up(&mut self, request: RequestUnit, Ghost(before): Ghost<ControllerView>) -> (action:
        WorkerAction)
        requires
            old(self).queue.wf(),
            old(self).queue.spec_capacity() == old(self).capacity,
            old(self).slot == WorkerSlot::Empty,
            before.wf(),
            before.state == HandlerState::Busy,
            before.waiting() == seq![request@] + old(self)@.queue,
            old(self)@ == (ControllerView {
                slot: WorkerSlotView::Empty,
                queue: old(self)@.queue,
                ..before
            }),
        ensures
            final(self).wf(),
            final(self)@ == before.take_up(request@, old(self)@.queue).0,
            action@ == before.take_up(request@, old(self)@.queue).1,
    {
        let id = request.id;
        match process_request_with_module(request) {
            ModuleStep::Finished(outcome) => {
                proof {
                    self.emitted = Ghost(self.emitted@.push(id));
                    assert(ids_of(before.waiting()) =~= seq![id] + ids_of(self@.queue));
                    assert(ids_of(self@.waiting()) =~= ids_of(self@.queue));
                    assert(self@.admitted =~= self@.emitted + ids_of(self@.waiting()));
                }
                WorkerAction::Emit(id, outcome)
            },
            ModuleStep::Call(unit, call) => {
                self.slot = WorkerSlot::Running(unit);
                proof {
                    assert(self@.waiting() =~= before.waiting());
                }
                WorkerAction::Run(call)
            },
        }
    }

    /// One step of the worker. The worker thread reports what happened and is
    /// told what to do next; see [`ControllerView::step`].
    pub fn worker_step(&mut self, event: WorkerEvent) -> (action: WorkerAction)
        requires
            old(self).wf(),
        ensures
            final(self).wf(),
            final(self)@ == old(self)@.step(event@).0,
            action@ == old(self)@.step(event@).1,
    {
        if self.state.load() != HandlerState::Busy {
            return WorkerAction::Terminate;
        }
        let ghost before = self@;
        let mut held = WorkerSlot::Empty;
        core::mem::swap(&mut self.slot, &mut held);
        match event {
            WorkerEvent::Next => {
                match held {
                    WorkerSlot::Handed(request) => {
                        proof {
                            assert(before.waiting() =~= seq![request@] + self@.queue);
                        }
                        self.take_up(request, Ghost(before))
                    },
                    WorkerSlot::Running(request) => {
                        self.slot = WorkerSlot::Running(request);
                        self.fail_worker()
                    },
                    WorkerSlot::Empty => {
                        match self.queue.pop_front() {
                            Some(request) => {
                                proof {
                                    assert(self@.queue =~= before.queue.drop_first());
                                    assert(before.waiting() =~= seq![request@] + self@.queue);
                                }
                                self.take_up(request, Ghost(before))
                            },
                            None => {
                                let swapped = self.state.compare_and_set(
                                    HandlerState::Busy,
                                    HandlerState::Idle,
                                );
                                assert(swapped);
                                proof {
                                    self.retired = Ghost(self.retired@ + 1);
                                    assert(self@.waiting() =~= before.waiting());
                                }
                                WorkerAction::Terminate
                            },
                        }
                    },
                }
            },
            WorkerEvent::ModuleDone(report) => {
                match held {
                    WorkerSlot::Running(request) => {
                        let id = request.id;
                        let outcome = complete_request_with_report(request, report);
                        proof {
                            self.emitted = Ghost(self.emitted@.push(id));
                            assert(ids_of(before.waiting()) =~= seq![id] + ids_of(self@.queue));
                            assert(ids_of(self@.waiting()) =~= ids_of(self@.queue));
                            assert(self@.admitted =~= self@.emitted + ids_of(self@.waiting()));
                        }
                        WorkerAction::Emit(id, outcome)
                    },
                    other => {
                        self.slot = other;
                        self.fail_worker()
                    },
                }
            },
            WorkerEvent::Fatal => {
                self.slot = held;
                self.fail_worker()
            },
        }
    }

    /// The supervisory restart. In state `Failed` it discards the queue and
    /// what the worker held, hands the discarded requests back, oldest first,
    /// and sets the state to `Idle`. In any other state it does nothing.
    pub fn restart(&mut self) -> (lost: Vec<RequestUnit>)
        requires
            old(self).wf(),
        ensures
            final(self).wf(),
            final(self)@ == old(self)@.restart(),
            views_of(lost@) == old(self)@.lost(),
    {
        let mut lost: Vec<RequestUnit> = Vec::new();
        if self.state.compare_and_set(HandlerState::Failed, HandlerState::Idle) {
            let mut held = WorkerSlot::Empty;
            core::mem::swap(&mut self.slot, &mut held);
            match held {
                WorkerSlot::Handed(request) => {
                    lost.push(request);
                },
                WorkerSlot::Running(request) => {
                    lost.push(request);
                },
                WorkerSlot::Empty => {},
            }
            let mut queued = self.queue.drain();
            lost.append(&mut queued);
            proof {
                self.admitted = Ghost(Seq::empty());
                self.emitted = Ghost(Seq::empty());
                assert(views_of(lost@) =~= old(self)@.waiting());
                assert(self@.queue =~= Seq::<RequestUnitView>::empty());
                assert(ids_of(self@.waiting()) =~= Seq::<usize>::empty());
                assert(self@.admitted =~= self@.emitted + ids_of(self@.waiting()));
            }
        }
        lost
    }
}

/// One call on the controller.
pub ghost enum Transition {
    /// A request is presented for admission.
    Admit(RequestUnitView),
    /// The worker thread reports an event.
    Worker(WorkerEventView),
    /// The supervisor restarts the handler.
    Restart,
}

impl ControllerView {
    /// The controller after one call.
    pub open spec fn apply(self, transition: Transition) -> ControllerView {
        match transition {
            Transition::Admit(request) => self.admit_request(request),
            Transition::Worker(event) => self.step(event).0,
            Transition::Restart => self.restart(),
        }
    }

    /// The controller after a sequence of calls, in any interleaving of
    /// admissions, worker steps and restarts.
    pub open spec fn run(self, transitions: Seq<Transition>) -> ControllerView
        decreases transitions.len(),
    {
        if transitions.len() == 0 {
            self
        } else {
            self.run(transitions.drop_last()).apply(transitions.last())
        }
    }

    /// The controller after each of `requests` was presented for admission,
    /// one after the other with nothing in between.
    pub open spec fn admit_all(self, requests: Seq<RequestUnitView>) -> ControllerView
        decreases requests.len(),
    {
        if requests.len() == 0 {
            self
        } else {
            self.admit_all(requests.drop_last()).admit_request(requests.last())
        }
    }
}

/// Every call keeps the controller well formed.
pub proof fn lemma_apply_keeps_wf(controller: ControllerView, transition: Transition)
    requires
        controller.wf(),
    ensures
        controller.apply(transition).wf(),
{
    let after = controller.apply(transition);
    match transition {
        Transition::Admit(request) => {
            match controller.admit_outcome() {
                AdmissionOutcome::Dispatched => {
                    assert(ids_of(after.waiting()) =~= seq![request.id]);
                    assert(after.admitted =~= after.emitted + ids_of(after.waiting()));
                },
                AdmissionOutcome::Queued => {
                    assert(ids_of(after.waiting()) =~= ids_of(controller.waiting()).push(
                        request.id,
                    ));
                    assert(after.admitted =~= after.emitted + ids_of(after.waiting()));
                },
                AdmissionOutcome::Dropped => {},
            }
        },
        Transition::Worker(event) => {
            lemma_step_emits_oldest(controller, event);
        },
        Transition::Restart => {
            if controller.state == HandlerState::Failed {
                assert(after.waiting() =~= Seq::<RequestUnitView>::empty());
                assert(after.admitted =~= after.emitted + ids_of(after.waiting()));
            }
        },
    }
}

/// A worker step keeps the controller well formed, and a step that emits an
/// outcome emits it for the oldest admitted request that has none yet.
pub proof fn lemma_step_emits_oldest(controller: ControllerView, event: WorkerEventView)
    requires
        controller.wf(),
    ensures
        controller.step(event).0.wf(),
        controller.step(event).1 matches WorkerActionView::Emit(id, _) ==> {
            &&& controller.emitted.len() < controller.admitted.len()
            &&& id == controller.admitted[controller.emitted.len() as int]
            &&& controller.step(event).0.emitted == controller.emitted.push(id)
            &&& controller.step(event).0.admitted == controller.admitted
            &&& ids_of(controller.waiting()) == seq![id] + ids_of(
                controller.step(event).0.waiting(),
            )
        },
        !(controller.step(event).1 is Emit) ==> {
            &&& controller.step(event).0.emitted == controller.emitted
            &&& ids_of(controller.step(event).0.waiting()) == ids_of(controller.waiting())
        },
{
    let after = controller.step(event).0;
    let waiting = controller.waiting();
    if controller.state == HandlerState::Busy {
        match (event, controller.slot) {
            (WorkerEventView::Next, WorkerSlotView::Handed(request)) => {
                assert(ids_of(waiting) =~= seq![request.id] + ids_of(controller.queue));
                assert(ids_of(after.waiting()) =~= if after.slot is Empty {
                    ids_of(controller.queue)
                } else {
                    ids_of(waiting)
                });
                assert(after.admitted =~= after.emitted + ids_of(after.waiting()));
            },
            (WorkerEventView::Next, WorkerSlotView::Empty) => {
                if controller.queue.len() > 0 {
                    let request = controller.queue[0];
                    let rest = controller.queue.drop_first();
                    assert(waiting =~= seq![request] + rest);
                    assert(ids_of(waiting) =~= seq![request.id] + ids_of(rest));
                    assert(ids_of(after.waiting()) =~= if after.slot is Empty {
                        ids_of(rest)
                    } else {
                        ids_of(waiting)
                    });
                    assert(after.admitted =~= after.emitted + ids_of(after.waiting()));
                } else {
                    assert(after.waiting() =~= waiting);
                }
            },
            (WorkerEventView::ModuleDone(report), WorkerSlotView::Running(request)) => {
                assert(ids_of(waiting) =~= seq![request.id] + ids_of(controller.queue));
                assert(ids_of(after.waiting()) =~= ids_of(controller.queue));
                assert(after.admitted =~= after.emitted + ids_of(after.waiting()));
            },
            _ => {
                assert(after.waiting() =~= waiting);
            },
        }
    }
}

/// An admitted request waits behind all that waited before it, and a dropped
/// one changes nothing.
pub proof fn lemma_admitted_request_waits_last(controller: ControllerView, request: RequestUnitView)
    requires
        controller.wf(),
    ensures
        controller.admit_outcome() != AdmissionOutcome::Dropped ==> ids_of(
            controller.admit_request(request).waiting(),
        ) == ids_of(controller.waiting()).push(request.id),
        controller.admit_outcome() == AdmissionOutcome::Dropped ==> controller.admit_request(
            request,
        ) == controller,
{
    let after = controller.admit_request(request);
    match controller.admit_outcome() {
        AdmissionOutcome::Dispatched => {
            assert(ids_of(controller.waiting()) =~= Seq::<usize>::empty());
            assert(ids_of(after.waiting()) =~= ids_of(controller.waiting()).push(request.id));
        },
        AdmissionOutcome::Queued => {
            assert(ids_of(after.waiting()) =~= ids_of(controller.waiting()).push(request.id));
        },
        AdmissionOutcome::Dropped => {},
    }
}

/// Every sequence of calls leaves the controller well formed.
pub proof fn lemma_run_keeps_wf(controller: ControllerView, transitions: Seq<Transition>)
    requires
        controller.wf(),
    ensures
        controller.run(transitions).wf(),
    decreases transitions.len(),
{
    if transitions.len() > 0 {
        lemma_run_keeps_wf(controller, transitions.drop_last());
        lemma_apply_keeps_wf(controller.run(transitions.drop_last()), transitions.last());
    }
}

/// At most one worker is active at a time, whatever calls were made and in
/// whatever order: after any sequence of calls the number of workers started
/// and not yet ended is one in state `Busy` and zero otherwise.
pub proof fn lemma_single_active_worker(capacity: nat, transitions: Seq<Transition>)
    ensures
        ({
            let reached = ControllerView::initial(capacity).run(transitions);
            &&& 0 <= reached.active_workers() <= 1
            &&& reached.active_workers() == 1 <==> reached.state == HandlerState::Busy
        }),
{
    let start = ControllerView::initial(capacity);
    assert(start.waiting() =~= Seq::<RequestUnitView>::empty());
    assert(start.admitted =~= start.emitted + ids_of(start.waiting()));
    lemma_run_keeps_wf(start, transitions);
}

/// A worker is started by an admission that returns `Dispatched` and by
/// nothing else, and only while no worker is active. A worker step and a
/// restart start none.
pub proof fn lemma_worker_starts_only_when_none_is_active(
    controller: ControllerView,
    transition: Transition,
)
    requires
        controller.wf(),
    ensures
        controller.apply(transition).spawned == controller.spawned + 1 <==> (transition is Admit
            && controller.admit_outcome() == AdmissionOutcome::Dispatched),
        controller.apply(transition).spawned != controller.spawned + 1 ==> controller.apply(
            transition,
        ).spawned == controller.spawned,
        controller.apply(transition).spawned == controller.spawned + 1
            ==> controller.active_workers() == 0,
{
}

/// The queue is bounded. While a worker is busy and takes nothing out,
/// requests admitted back to back are queued as long as there is room and
/// dropped from then on: with `room` free places, the first `room` requests
/// join the queue in their order, and each later one is dropped and changes
/// nothing. In particular, with an empty queue of capacity `C`, the request
/// after the `C`-th is dropped.
pub proof fn lemma_bounded_queue(controller: ControllerView, requests: Seq<RequestUnitView>)
    requires
        controller.wf(),
        controller.state == HandlerState::Busy,
    ensures
        ({
            let room = controller.capacity - controller.queue.len();
            let kept = if requests.len() <= room {
                requests
            } else {
                requests.take(room)
            };
            &&& controller.admit_all(requests) == (ControllerView {
                queue: controller.queue + kept,
                admitted: controller.admitted + ids_of(kept),
                ..controller
            })
            &&& controller.admit_all(requests).admit_outcome() == if requests.len() < room {
                AdmissionOutcome::Queued
            } else {
                AdmissionOutcome::Dropped
            }
        }),
    decreases requests.len(),
{
    let room = controller.capacity - controller.queue.len();
    if requests.len() == 0 {
        assert(controller.queue + requests =~= controller.queue);
        assert(controller.admitted + ids_of(requests) =~= controller.admitted);
    } else {
        let earlier = requests.drop_last();
        lemma_bounded_queue(controller, earlier);
        let kept_earlier = if earlier.len() <= room {
            earlier
        } else {
            earlier.take(room)
        };
        let kept = if requests.len() <= room {
            requests
        } else {
            requests.take(room)
        };
        if earlier.len() < room {
            assert(kept =~= kept_earlier.push(requests.last()));
            assert(controller.queue + kept =~= (controller.queue + kept_earlier).push(
                requests.last(),
            ));
            assert(ids_of(kept) =~= ids_of(kept_earlier).push(requests.last().id));
            assert(controller.admitted + ids_of(kept) =~= (controller.admitted + ids_of(
                kept_earlier,
            )).push(requests.last().id));
        } else {
            assert(kept =~= kept_earlier);
        }
    }
}

/// Results leave in the order in which their requests were admitted. After
/// any sequence of calls, the ids emitted from the current queue are a prefix
/// of the ids admitted into it, and once the worker has drained the queue and
/// the state is `Idle` again, the two are equal.
pub proof fn lemma_fifo_preserved(capacity: nat, transitions: Seq<Transition>)
    ensures
        ({
            let reached = ControllerView::initial(capacity).run(transitions);
            &&& reached.emitted.is_prefix_of(reached.admitted)
            &&& reached.state == HandlerState::Idle ==> reached.emitted == reached.admitted
        }),
{
    let start = ControllerView::initial(capacity);
    assert(start.waiting() =~= Seq::<RequestUnitView>::empty());
    assert(start.admitted =~= start.emitted + ids_of(start.waiting()));
    lemma_run_keeps_wf(start, transitions);
    let reached = start.run(transitions);
    if reached.state == HandlerState::Idle {
        assert(ids_of(reached.waiting()) =~= Seq::<usize>::empty());
        assert(reached.emitted =~= reached.admitted);
    }
}

/// A restart recovers admission. When a busy worker ends with a fatal fault,
/// the state is `Failed` and the next request is dropped; once the supervisor
/// has restarted the handler, the state is `Idle`, nothing waits, and the next
/// request is dispatched to a new worker.
pub proof fn lemma_restart_recovers_admission(controller: ControllerView, request: RequestUnitView)
    requires
        controller.wf(),
        controller.state == HandlerState::Busy,
    ensures
        ({
            let failed = controller.step(WorkerEventView::Fatal).0;
            let restarted = failed.restart();
            &&& failed.state == HandlerState::Failed
            &&& failed.admit_outcome() == AdmissionOutcome::Dropped
            &&& failed.admit_request(request) == failed
            &&& restarted.wf()
            &&& restarted.state == HandlerState::Idle
            &&& restarted.waiting().len() == 0
            &&& restarted.admit_outcome() == AdmissionOutcome::Dispatched
            &&& restarted.admit_request(request).state == HandlerState::Busy
            &&& restarted.admit_request(request).slot == WorkerSlotView::Handed(request)
        }),
{
    let failed = controller.step(WorkerEventView::Fatal).0;
    lemma_step_emits_oldest(controller, WorkerEventView::Fatal);
    lemma_apply_keeps_wf(failed, Transition::Restart);
}

} // verus!
