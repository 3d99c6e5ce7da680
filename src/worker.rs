use vstd::prelude::*;

use crate::messenger::{Header, ALIGNED_HEADER_SIZE};
use crate::message_bus::circular_bus::{cursor_after, CircularBus};
use crate::router::{lookup, RouteTable};

verus! {

/// Where a worker is in its lifecycle.
#[derive(Clone, Copy, Debug, PartialEq, Eq, Structural)]
pub enum Phase {
    Idle,
    Running,
    Stopped,
}

/// What one pass of the worker loop asks its driver to do, in this order:
/// `handle` on each receiver of the record read, `on_loop` on each slot of
/// `on_loop`, `on_stop` on each slot of `on_stop`, then leave the loop if `exit`.
pub struct Step {
    pub receivers: Vec<usize>,
    pub on_loop: Vec<usize>,
    pub on_stop: Vec<usize>,
    pub exit: bool,
}

/// The state of a worker as its contracts see it.
pub struct WorkerModel {
    pub position: nat,
    pub handlers: nat,
    pub routes: Seq<(u16, u16, Seq<usize>)>,
    pub phase: Phase,
}

/// A step as its contracts see it.
pub struct StepModel {
    pub receivers: Seq<usize>,
    pub on_loop: Seq<usize>,
    pub on_stop: Seq<usize>,
    pub exit: bool,
}

impl Step {
    pub open spec fn view(&self) -> StepModel {
        StepModel {
            receivers: self.receivers@,
            on_loop: self.on_loop@,
            on_stop: self.on_stop@,
            exit: self.exit,
        }
    }
}

/// Every handler slot `0..n`, in declaration order.
pub open spec fn all_slots(n: nat) -> Seq<usize> {
    Seq::new(n, |i: int| i as usize)
}

/// One pass of the loop: while running, dispatch the record read (if any) and
/// move the cursor past it, run every `on_loop`, and on a stop request run
/// every `on_stop` once and stop. Outside the running phase nothing happens.
pub open spec fn step_model(m: WorkerModel, record: Option<Header>, stop: bool) -> (WorkerModel, StepModel) {
    if m.phase == Phase::Running {
        let (position, receivers) = match record {
            Some(h) => ((m.position + ALIGNED_HEADER_SIZE + h.size) as nat, lookup(m.routes, h.source, h.message_id)),
            None => (m.position, Seq::empty()),
        };
        let next = WorkerModel {
            position: position as nat,
            phase: if stop { Phase::Stopped } else { Phase::Running },
            ..m
        };
        let out = StepModel {
            receivers,
            on_loop: all_slots(m.handlers),
            on_stop: if stop { all_slots(m.handlers) } else { Seq::empty() },
            exit: stop,
        };
        (next, out)
    } else {
        (m, StepModel { receivers: Seq::empty(), on_loop: Seq::empty(), on_stop: Seq::empty(), exit: m.phase == Phase::Stopped })
    }
}

/// State after a run of passes, and the concatenated `on_stop` calls of the run.
pub open spec fn run_model(m: WorkerModel, events: Seq<(Option<Header>, bool)>) -> (WorkerModel, Seq<usize>)
    decreases events.len(),
{
    if events.len() == 0 {
        (m, Seq::empty())
    } else {
        let (m1, first) = step_model(m, events[0].0, events[0].1);
        let (m2, stops) = run_model(m1, events.drop_first());
        (m2, first.on_stop + stops)
    }
}

/// The first route declared for a key decides its receivers.
pub proof fn lookup_first(routes: Seq<(u16, u16, Seq<usize>)>, j: int, source: u16, message_id: u16)
    requires
        0 <= j < routes.len(),
        routes[j].0 == source && routes[j].1 == message_id,
        forall|i: int| 0 <= i < j ==> !(routes[i].0 == source && routes[i].1 == message_id),
    ensures
        lookup(routes, source, message_id) == routes[j].2,
    decreases j,
{
    if j > 0 {
        let rest = routes.drop_first();
        assert forall|i: int| 0 <= i < j - 1 implies !(rest[i].0 == source && rest[i].1 == message_id) by {
            assert(rest[i] == routes[i + 1]);
        }
        assert(!(routes[0].0 == source && routes[0].1 == message_id));
        lookup_first(rest, j - 1, source, message_id);
    }
}

/// Fan-out: a record whose key is first declared by route `j` is handed to
/// exactly that route's receivers, in their declared order, whether or not a
/// stop is requested in the same pass.
pub proof fn fan_out(m: WorkerModel, h: Header, stop: bool, j: int)
    requires
        m.phase == Phase::Running,
        0 <= j < m.routes.len(),
        m.routes[j].0 == h.source && m.routes[j].1 == h.message_id,
        forall|i: int| 0 <= i < j ==> !(m.routes[i].0 == h.source && m.routes[i].1 == h.message_id),
    ensures
        step_model(m, Some(h), stop).1.receivers == m.routes[j].2,
        step_model(m, Some(h), stop).1.receivers.len() == m.routes[j].2.len(),
{
    lookup_first(m.routes, j, h.source, h.message_id);
}

/// Fan-in across workers: two running workers whose tables both subscribe
/// handlers to a record's key each dispatch that record to their own
/// subscribers.
pub proof fn fan_in(m1: WorkerModel, m2: WorkerModel, h: Header, j1: int, j2: int)
    requires
        m1.phase == Phase::Running,
        m2.phase == Phase::Running,
        0 <= j1 < m1.routes.len(),
        0 <= j2 < m2.routes.len(),
        m1.routes[j1].0 == h.source && m1.routes[j1].1 == h.message_id,
        m2.routes[j2].0 == h.source && m2.routes[j2].1 == h.message_id,
        forall|i: int| 0 <= i < j1 ==> !(m1.routes[i].0 == h.source && m1.routes[i].1 == h.message_id),
        forall|i: int| 0 <= i < j2 ==> !(m2.routes[i].0 == h.source && m2.routes[i].1 == h.message_id),
        m1.routes[j1].2.len() > 0,
        m2.routes[j2].2.len() > 0,
    ensures
        step_model(m1, Some(h), false).1.receivers == m1.routes[j1].2,
        step_model(m2, Some(h), false).1.receivers == m2.routes[j2].2,
        step_model(m1, Some(h), false).1.receivers.len() > 0,
        step_model(m2, Some(h), false).1.receivers.len() > 0,
{
    lookup_first(m1.routes, j1, h.source, h.message_id);
    lookup_first(m2.routes, j2, h.source, h.message_id);
}

/// A stopped worker stays stopped and runs no more `on_stop`.
pub proof fn stopped_stays(m: WorkerModel, events: Seq<(Option<Header>, bool)>)
    requires
        m.phase == Phase::Stopped,
    ensures
        run_model(m, events).0 == m,
        run_model(m, events).1.len() == 0,
    decreases events.len(),
{
    if events.len() > 0 {
        stopped_stays(m, events.drop_first());
    }
}

/// Graceful stop: once a running worker sees a stop request, every handler's
/// `on_stop` runs exactly once over the whole run, in declaration order, and
/// the worker ends stopped.
pub proof fn graceful_stop(m: WorkerModel, events: Seq<(Option<Header>, bool)>, k: int)
    requires
        m.phase == Phase::Running,
        0 <= k < events.len(),
        events[k].1,
    ensures
        run_model(m, events).0.phase == Phase::Stopped,
        run_model(m, events).1 == all_slots(m.handlers),
    decreases k,
{
    let (m1, first) = step_model(m, events[0].0, events[0].1);
    if events[0].1 {
        stopped_stays(m1, events.drop_first());
        assert(first.on_stop + run_model(m1, events.drop_first()).1 =~= all_slots(m.handlers));
    } else {
        assert(events.drop_first()[k - 1] == events[k]);
        graceful_stop(m1, events.drop_first(), k - 1);
        assert(first.on_stop + run_model(m1, events.drop_first()).1 =~= all_slots(m.handlers));
    }
}

/// The header a read at `p` yields, if any.
pub open spec fn header_at(bus: &CircularBus, p: nat) -> Option<Header> {
    match bus.observe(p) {
        Some((h, _)) => Some(h),
        None => None,
    }
}

/// The first `k` passes of a worker that starts reading at `p` and is given,
/// each pass, what its cursor reads, with no stop requested.
pub open spec fn reads_from(bus: &CircularBus, p: nat, k: nat) -> Seq<(Option<Header>, bool)> {
    Seq::new(k, |j: int| (header_at(bus, cursor_after(bus, p, j as nat)), false))
}

proof fn run_model_push(m: WorkerModel, events: Seq<(Option<Header>, bool)>, e: (Option<Header>, bool))
    ensures
        run_model(m, events.push(e)).0 == step_model(run_model(m, events).0, e.0, e.1).0,
    decreases events.len(),
{
    if events.len() > 0 {
        let (m1, _) = step_model(m, events[0].0, events[0].1);
        assert(events.push(e).drop_first() =~= events.drop_first().push(e));
        assert(events.push(e)[0] == events[0]);
        run_model_push(m1, events.drop_first(), e);
        assert(run_model(m, events).0 == run_model(m1, events.drop_first()).0);
        assert(run_model(m, events.push(e)).0 == run_model(m1, events.push(e).drop_first()).0);
    } else {
        let (m1, _) = step_model(m, e.0, e.1);
        assert(events.push(e).drop_first() =~= Seq::<(Option<Header>, bool)>::empty());
        assert(events.push(e)[0] == e);
        assert(run_model(m1, Seq::<(Option<Header>, bool)>::empty()).0 == m1);
        assert(run_model(m, events).0 == m);
    }
}

/// No record is skipped: a running worker that is given, pass after pass,
/// what its cursor reads ends each pass exactly where a consumer that read
/// the same records would stand, so every record below its final cursor went
/// through exactly one pass (and was dispatched to its route's receivers).
pub proof fn worker_follows_cursor(bus: &CircularBus, m: WorkerModel, k: nat)
    requires
        m.phase == Phase::Running,
    ensures
        run_model(m, reads_from(bus, m.position, k)).0.position == cursor_after(bus, m.position, k),
        run_model(m, reads_from(bus, m.position, k)).0.phase == Phase::Running,
    decreases k,
{
    if k == 0 {
        assert(reads_from(bus, m.position, 0) =~= Seq::<(Option<Header>, bool)>::empty());
    } else {
        let k1 = (k - 1) as nat;
        worker_follows_cursor(bus, m, k1);
        let e = (header_at(bus, cursor_after(bus, m.position, k1)), false);
        assert(reads_from(bus, m.position, k) =~= reads_from(bus, m.position, k1).push(e));
        run_model_push(m, reads_from(bus, m.position, k1), e);
    }
}

/// A worker's loop state: its read cursor, its handler count, its route table
/// and its phase.
pub struct Worker {
    position: usize,
    handlers: usize,
    routes: RouteTable,
    phase: Phase,
}

impl Worker {
    pub closed spec fn view(&self) -> WorkerModel {
        WorkerModel {
            position: self.position as nat,
            handlers: self.handlers as nat,
            routes: self.routes@,
            phase: self.phase,
        }
    }

    pub fn new(handlers: usize, routes: RouteTable) -> (r: Worker)
        ensures
            r.view() == (WorkerModel { position: 0, handlers: handlers as nat, routes: routes@, phase: Phase::Idle }),
    {
        Worker { position: 0, handlers, routes, phase: Phase::Idle }
    }

    pub fn position(&self) -> (r: usize)
        ensures
            r == self.view().position,
    {
        self.position
    }

    pub fn phase(&self) -> (r: Phase)
        ensures
            r == self.view().phase,
    {
        self.phase
    }

    /// Starts the worker: the slots whose `on_start` runs, every slot once in
    /// declaration order. A worker that already started is left as it is.
    pub fn start(&mut self) -> (r: Vec<usize>)
        ensures
            old(self).view().phase == Phase::Idle ==> r@ == all_slots(old(self).view().handlers)
                && final(self).view() == (WorkerModel { phase: Phase::Running, ..old(self).view() }),
            old(self).view().phase != Phase::Idle ==> r@.len() == 0 && final(self).view() == old(self).view(),
    {
        if self.phase != Phase::Idle {
            return Vec::new();
        }
        self.phase = Phase::Running;
        slots(self.handlers)
    }

    /// One pass of the loop, given the record read at the cursor (if any)
    /// and whether a stop was requested.
    pub fn step(&mut self, record: Option<Header>, stop_requested: bool) -> (r: Step)
        requires
            old(self).view().phase == Phase::Running ==> (record matches Some(h)
                ==> old(self).view().position + ALIGNED_HEADER_SIZE + h.size <= usize::MAX),
        ensures
            (final(self).view(), r.view()) == step_model(old(self).view(), record, stop_requested),
    {
        if self.phase != Phase::Running {
            return Step {
                receivers: Vec::new(),
                on_loop: Vec::new(),
                on_stop: Vec::new(),
                exit: self.phase == Phase::Stopped,
            };
        }
        let receivers = match record {
            Some(h) => {
                self.position = self.position + ALIGNED_HEADER_SIZE + h.size as usize;
                self.routes.receivers(h.source, h.message_id)
            },
            None => Vec::new(),
        };
        let on_loop = slots(self.handlers);
        let on_stop = if stop_requested {
            self.phase = Phase::Stopped;
            slots(self.handlers)
        } else {
            Vec::new()
        };
        let r = Step { receivers, on_loop, on_stop, exit: stop_requested };
        assert(r.view() =~= step_model(old(self).view(), record, stop_requested).1);
        r
    }
}

/// The slots `0..n` in order.
fn slots(n: usize) -> (r: Vec<usize>)
    ensures
        r@ == all_slots(n as nat),
{
    let mut v: Vec<usize> = Vec::new();
    let mut i: usize = 0;
    while i < n
        invariant
            i <= n,
            v@ == all_slots(i as nat),
        decreases n - i,
    {
        v.push(i);
        i = i + 1;
        assert(v@ =~= all_slots(i as nat));
    }
    v
}

} // verus!
