//! The TCP relay engine of one mapping: a listener, a bounded queue of
//! accepted clients that wait to be connected to the destination, a bounded
//! number of connects in progress, and the forwardings in flight.
//!
//! The engine decides; its caller owns the sockets. Each accepted client
//! gets a number. The caller reports what happened as an event and does what
//! the returned action says. A client is started only while fewer connects
//! are in progress than the queue has places; accepting is held back only
//! while a client that found the queue full waits for room. A connection
//! that fails is dropped alone, and only a failure of the listener ends the
//! engine.

use crate::error::EngineError;
use crate::pending::PendingQueue;
use vstd::prelude::*;

verus! {

/// How many accepted clients may wait in the pending-connect queue, and how
/// many connects to the destination may be in progress at a time.
pub const PENDING_CAPACITY: usize = 4;

/// Where the listener of an engine stands.
#[derive(Debug, Clone, Copy, PartialEq, Eq)]
pub enum ListenerPhase {
    /// The listener is not bound yet.
    Unbound,
    /// The listener accepts clients.
    Listening,
    /// The engine is over.
    Failed { error: EngineError },
}

/// What the caller reports to the engine.
#[derive(Debug, Clone, Copy, PartialEq, Eq)]
pub enum TcpEvent {
    /// The listener was bound.
    Bound,
    /// The listener could not be bound.
    BindFailed,
    /// The listener accepted a client.
    Accepted,
    /// Accepting failed.
    AcceptFailed,
    /// A worker is free to start a forwarding.
    WorkerReady,
    /// Connection `id` has reached the destination: its connect is no longer
    /// in progress.
    Connected { id: u64 },
    /// The forwarding of connection `id` is over, whether or not it ever
    /// reached the destination.
    Finished { id: u64, outcome: Result<(), EngineError> },
}

/// What the engine asks of the caller.
#[derive(Debug, Clone, Copy, PartialEq, Eq)]
pub enum TcpAction {
    /// Bind the listener.
    Bind,
    /// The listener stands: accept clients and keep workers ready.
    Serve,
    /// The client just accepted is connection `id`: keep its socket until the
    /// engine starts it.
    Hold { id: u64 },
    /// The engine had not asked for a client: close the one just accepted.
    Refuse,
    /// Start forwarding connection `id`, beginning with its connect.
    Start { id: u64 },
    /// No connection waits to be started.
    Idle,
    /// As many connects are in progress as may be: ask again when one of
    /// them has ended.
    Busy,
    /// The connect of connection `id` is over and its place is free: a
    /// worker may ask for work again.
    Freed { id: u64 },
    /// Connection `id` is over: release it, and log its error if it has one.
    Discard { id: u64, outcome: Result<(), EngineError> },
    /// The event does not concern the engine as it stands.
    Ignore,
    /// Return from the engine with `error`.
    Finish { error: EngineError },
}

/// An engine as the contracts see it.
pub struct TcpModel {
    pub phase: ListenerPhase,
    /// The capacity of the pending-connect queue, which is also the most
    /// connects that may be in progress.
    pub capacity: nat,
    /// The connections that wait in the queue, oldest first.
    pub pending: Seq<u64>,
    /// The client that was accepted while the queue was full.
    pub stalled: Option<u64>,
    /// The connections that were started and are not over.
    pub active: Seq<u64>,
    /// Those of `active` whose connect to the destination is in progress.
    pub connecting: Seq<u64>,
    /// The number of the next client.
    pub next_id: u64,
}

/// `i` is the first position of `id` in `s`.
pub open spec fn first_at(s: Seq<u64>, id: u64, i: int) -> bool {
    0 <= i < s.len() && s[i] == id && forall|j: int| 0 <= j < i ==> s[j] != id
}

/// `s` without the first occurrence of `id`.
pub open spec fn without(s: Seq<u64>, id: u64) -> Seq<u64> {
    if exists|i: int| first_at(s, id, i) {
        s.remove(choose|i: int| first_at(s, id, i))
    } else {
        s
    }
}

impl TcpModel {
    /// The engine asks for clients: the listener stands, no client waits for
    /// room in the queue, and a number is left for the next one.
    pub open spec fn accepting(self) -> bool {
        self.phase is Listening && self.stalled is None && self.next_id < u64::MAX
    }

    /// The engine holds connection `id`: queued, waiting for room, or in
    /// flight.
    pub open spec fn holds(self, id: u64) -> bool {
        self.pending.contains(id) || self.stalled == Some(id) || self.active.contains(id)
    }

    /// The number of connections that are held and not started yet.
    pub open spec fn backlog(self) -> nat {
        self.pending.len() + if self.stalled is Some {
            1nat
        } else {
            0nat
        }
    }

    /// What holds of every engine: the queue stays within its capacity, and
    /// so do the connects in progress; a client waits for room only while
    /// the queue is full; numbers are given in rising order and started in
    /// that order, so that no two connections share one; and a connect in
    /// progress belongs to a connection in flight.
    pub open spec fn inv(self) -> bool {
        &&& 0 < self.capacity
        &&& self.pending.len() <= self.capacity
        &&& self.connecting.len() <= self.capacity
        &&& self.stalled is Some ==> self.pending.len() == self.capacity
        &&& forall|i: int, j: int|
            0 <= i < j < self.pending.len() ==> self.pending[i] < self.pending[j]
        &&& forall|i: int| 0 <= i < self.pending.len() ==> self.pending[i] < self.next_id
        &&& forall|i: int|
            0 <= i < self.pending.len() && self.stalled is Some ==> self.pending[i]
                < self.stalled.unwrap()
        &&& self.stalled is Some ==> self.stalled.unwrap() < self.next_id
        &&& forall|a: int, i: int|
            0 <= a < self.active.len() && 0 <= i < self.pending.len() ==> self.active[a]
                < self.pending[i]
        &&& forall|a: int|
            0 <= a < self.active.len() && self.stalled is Some ==> self.active[a]
                < self.stalled.unwrap()
        &&& forall|a: int| 0 <= a < self.active.len() ==> self.active[a] < self.next_id
        &&& self.active.no_duplicates()
        &&& self.connecting.no_duplicates()
        &&& forall|c: int|
            0 <= c < self.connecting.len() ==> self.active.contains(#[trigger] self.connecting[c])
    }
}

/// The engine after a client was accepted.
pub open spec fn tcp_accept(m: TcpModel) -> (TcpModel, TcpAction) {
    if !m.accepting() {
        (m, TcpAction::Refuse)
    } else if m.pending.len() < m.capacity {
        (
            TcpModel {
                pending: m.pending.push(m.next_id),
                next_id: (m.next_id + 1) as u64,
                ..m
            },
            TcpAction::Hold { id: m.next_id },
        )
    } else {
        (
            TcpModel { stalled: Some(m.next_id), next_id: (m.next_id + 1) as u64, ..m },
            TcpAction::Hold { id: m.next_id },
        )
    }
}

/// The engine after a worker asked for work. While as many connects are in
/// progress as the capacity allows, nothing is started. Otherwise the oldest
/// queued connection is started, and the client that waited for room, if
/// any, takes the place that came free in the queue.
pub open spec fn tcp_dispatch(m: TcpModel) -> (TcpModel, TcpAction) {
    if m.connecting.len() >= m.capacity {
        (m, TcpAction::Busy)
    } else if m.pending.len() == 0 {
        (m, TcpAction::Idle)
    } else {
        let rest = m.pending.drop_first();
        (
            TcpModel {
                pending: match m.stalled {
                    Some(id) => rest.push(id),
                    None => rest,
                },
                stalled: None,
                active: m.active.push(m.pending[0]),
                connecting: m.connecting.push(m.pending[0]),
                ..m
            },
            TcpAction::Start { id: m.pending[0] },
        )
    }
}

/// The engine after connection `id` reached the destination.
pub open spec fn tcp_connected(m: TcpModel, id: u64) -> (TcpModel, TcpAction) {
    if m.connecting.contains(id) {
        (TcpModel { connecting: without(m.connecting, id), ..m }, TcpAction::Freed { id })
    } else {
        (m, TcpAction::Ignore)
    }
}

/// The engine after the forwarding of `id` ended with `outcome`.
pub open spec fn tcp_retire(m: TcpModel, id: u64, outcome: Result<(), EngineError>) -> (
    TcpModel,
    TcpAction,
) {
    if m.active.contains(id) {
        (
            TcpModel {
                active: without(m.active, id),
                connecting: without(m.connecting, id),
                ..m
            },
            TcpAction::Discard { id, outcome },
        )
    } else {
        (m, TcpAction::Ignore)
    }
}

/// The engine after `event`, and the action to perform.
pub open spec fn tcp_step(m: TcpModel, event: TcpEvent) -> (TcpModel, TcpAction) {
    match m.phase {
        ListenerPhase::Failed { error } => (m, TcpAction::Finish { error }),
        ListenerPhase::Unbound => match event {
            TcpEvent::Bound => (TcpModel { phase: ListenerPhase::Listening, ..m }, TcpAction::Serve),
            TcpEvent::BindFailed => (
                TcpModel { phase: ListenerPhase::Failed { error: EngineError::Bind }, ..m },
                TcpAction::Finish { error: EngineError::Bind },
            ),
            _ => (m, TcpAction::Bind),
        },
        ListenerPhase::Listening => match event {
            TcpEvent::Accepted => tcp_accept(m),
            TcpEvent::AcceptFailed => (
                TcpModel { phase: ListenerPhase::Failed { error: EngineError::Accept }, ..m },
                TcpAction::Finish { error: EngineError::Accept },
            ),
            TcpEvent::WorkerReady => tcp_dispatch(m),
            TcpEvent::Connected { id } => tcp_connected(m, id),
            TcpEvent::Finished { id, outcome } => tcp_retire(m, id, outcome),
            _ => (m, TcpAction::Ignore),
        },
    }
}

/// A position that is the first of `id` is the one that `without` removes.
proof fn lemma_without_at(s: Seq<u64>, id: u64, i: int)
    requires
        first_at(s, id, i),
    ensures
        without(s, id) == s.remove(i),
{
    let j = choose|j: int| first_at(s, id, j);
    assert(first_at(s, id, j));
    if j < i {
        assert(s[j] != id);
    }
    if i < j {
        assert(s[i] != id);
    }
}

/// Taking out what is not there changes nothing.
proof fn lemma_without_absent(s: Seq<u64>, id: u64)
    requires
        !s.contains(id),
    ensures
        without(s, id) == s,
{
    assert forall|i: int| !first_at(s, id, i) by {
        if 0 <= i < s.len() {
            assert(s.contains(s[i]));
        }
    }
}

/// Taking out what was just put in, and was not there before, gives back
/// what was there.
proof fn lemma_without_pushed(s: Seq<u64>, id: u64)
    requires
        !s.contains(id),
    ensures
        without(s.push(id), id) == s,
{
    let grown = s.push(id);
    let last = s.len() as int;
    assert(first_at(grown, id, last)) by {
        assert forall|j: int| 0 <= j < last implies grown[j] != id by {
            assert(s.contains(s[j]));
        }
    }
    lemma_without_at(grown, id, last);
    assert(grown.remove(last) == s);
}

/// What `without` does to a sequence that holds nothing twice: `id` is gone,
/// everything else stays, and nothing is held twice afterwards.
proof fn lemma_without_keeps(s: Seq<u64>, id: u64)
    requires
        s.no_duplicates(),
    ensures
        without(s, id).no_duplicates(),
        !without(s, id).contains(id),
        forall|x: u64| x != id ==> without(s, id).contains(x) == s.contains(x),
        without(s, id).len() == if s.contains(id) {
            s.len() - 1
        } else {
            s.len() as int
        },
{
    if s.contains(id) {
        let k = choose|k: int| 0 <= k < s.len() && s[k] == id;
        assert(first_at(s, id, k)) by {
            assert forall|j: int| 0 <= j < k implies s[j] != id by {
                assert(s[j] != s[k]);
            }
        }
        lemma_without_at(s, id, k);
        let after = s.remove(k);
        assert forall|a: int, b: int|
            0 <= a < after.len() && 0 <= b < after.len() && a != b implies after[a]
            != after[b] by {
            let x = if a < k {
                a
            } else {
                a + 1
            };
            let y = if b < k {
                b
            } else {
                b + 1
            };
            assert(s[x] != s[y]);
        }
        if after.contains(id) {
            let a = choose|a: int| 0 <= a < after.len() && after[a] == id;
            let x = if a < k {
                a
            } else {
                a + 1
            };
            assert(s[x] != s[k]);
        }
        assert forall|x: u64| x != id implies after.contains(x) == s.contains(x) by {
            if s.contains(x) {
                let a = choose|a: int| 0 <= a < s.len() && s[a] == x;
                let b = if a < k {
                    a
                } else {
                    a - 1
                };
                assert(after[b] == x);
            }
            if after.contains(x) {
                let a = choose|a: int| 0 <= a < after.len() && after[a] == x;
                let b = if a < k {
                    a
                } else {
                    a + 1
                };
                assert(s[b] == x);
            }
        }
    } else {
        lemma_without_absent(s, id);
    }
}

/// Takes the first `id` out of `list`; says whether there was one.
fn remove_id(list: &mut Vec<u64>, id: u64) -> (found: bool)
    ensures
        found == old(list)@.contains(id),
        final(list)@ == without(old(list)@, id),
{
    let mut i: usize = 0;
    while i < list.len()
        invariant
            i <= list.len(),
            *list == *old(list),
            forall|j: int| 0 <= j < i ==> list@[j] != id,
        decreases list.len() - i,
    {
        if list[i] == id {
            proof {
                lemma_without_at(list@, id, i as int);
            }
            list.remove(i);
            return true;
        }
        i += 1;
    }
    proof {
        lemma_without_absent(list@, id);
    }
    false
}

/// The TCP relay engine of one mapping.
pub struct TcpEngine {
    phase: ListenerPhase,
    capacity: usize,
    queue: PendingQueue,
    stalled: Option<u64>,
    active: Vec<u64>,
    connecting: Vec<u64>,
    next_id: u64,
}

impl View for TcpEngine {
    type V = TcpModel;

    closed spec fn view(&self) -> TcpModel {
        TcpModel {
            phase: self.phase,
            capacity: self.capacity as nat,
            pending: self.queue@,
            stalled: self.stalled,
            active: self.active@,
            connecting: self.connecting@,
            next_id: self.next_id,
        }
    }
}

impl TcpEngine {
    /// The engine is sound: its queue is and has the capacity of the engine,
    /// and `inv` holds of it.
    pub closed spec fn wf(&self) -> bool {
        self.queue.wf() && self.queue.capacity() == self.capacity && self@.inv()
    }

    /// A sound engine satisfies `inv`, so that every law stated of `inv`
    /// holds of it.
    pub proof fn lemma_wf_gives_inv(&self)
        requires
            self.wf(),
        ensures
            self@.inv(),
    {
    }

    /// An engine whose listener is not bound yet, with an empty queue of
    /// `PENDING_CAPACITY` places, no connect in progress and nothing in
    /// flight.
    pub fn new() -> (engine: TcpEngine)
        ensures
            engine.wf(),
            engine@.inv(),
            engine@ == (TcpModel {
                phase: ListenerPhase::Unbound,
                capacity: PENDING_CAPACITY as nat,
                pending: Seq::empty(),
                stalled: None,
                active: Seq::empty(),
                connecting: Seq::empty(),
                next_id: 0,
            }),
    {
        TcpEngine {
            phase: ListenerPhase::Unbound,
            capacity: PENDING_CAPACITY,
            queue: PendingQueue::new(PENDING_CAPACITY),
            stalled: None,
            active: Vec::new(),
            connecting: Vec::new(),
            next_id: 0,
        }
    }

    /// Whether the engine asks for clients. The caller accepts one only
    /// while this holds.
    pub fn accepting(&self) -> (r: bool)
        ensures
            r == self@.accepting(),
    {
        matches!(self.phase, ListenerPhase::Listening) && self.stalled.is_none() && self.next_id
            < u64::MAX
    }

    /// The number of forwardings in flight.
    pub fn in_flight(&self) -> (r: usize)
        ensures
            r == self@.active.len(),
    {
        self.active.len()
    }

    /// The number of connects in progress.
    pub fn connecting(&self) -> (r: usize)
        ensures
            r == self@.connecting.len(),
    {
        self.connecting.len()
    }

    /// Registers the client that the listener just accepted.
    fn register(&mut self) -> (action: TcpAction)
        requires
            old(self).wf(),
            old(self)@.phase is Listening,
        ensures
            final(self).wf(),
            (final(self)@, action) == tcp_accept(old(self)@),
    {
        if self.stalled.is_some() || self.next_id == u64::MAX {
            return TcpAction::Refuse;
        }
        let id: u64 = self.next_id;
        self.next_id = id + 1;
        if !self.queue.push(id) {
            self.stalled = Some(id);
        }
        proof {
            lemma_accept_keeps_inv(old(self)@);
        }
        TcpAction::Hold { id }
    }

    /// Hands the oldest queued connection to a worker, if a connect may
    /// begin.
    fn dispatch(&mut self) -> (action: TcpAction)
        requires
            old(self).wf(),
        ensures
            final(self).wf(),
            (final(self)@, action) == tcp_dispatch(old(self)@),
    {
        proof {
            lemma_dispatch_keeps_inv(old(self)@);
        }
        if self.connecting.len() >= self.capacity {
            return TcpAction::Busy;
        }
        match self.queue.pop() {
            None => TcpAction::Idle,
            Some(id) => {
                self.active.push(id);
                self.connecting.push(id);
                match self.stalled {
                    Some(waiting) => {
                        let placed = self.queue.push(waiting);
                        assert(placed);
                        self.stalled = None;
                    },
                    None => {},
                }
                TcpAction::Start { id }
            },
        }
    }

    /// Frees the place of connection `id`, which has reached the
    /// destination.
    fn connected(&mut self, id: u64) -> (action: TcpAction)
        requires
            old(self).wf(),
        ensures
            final(self).wf(),
            (final(self)@, action) == tcp_connected(old(self)@, id),
    {
        proof {
            lemma_connected_keeps_inv(old(self)@, id);
        }
        if remove_id(&mut self.connecting, id) {
            TcpAction::Freed { id }
        } else {
            TcpAction::Ignore
        }
    }

    /// Releases connection `id`, whose forwarding is over.
    fn retire(&mut self, id: u64, outcome: Result<(), EngineError>) -> (action: TcpAction)
        requires
            old(self).wf(),
        ensures
            final(self).wf(),
            (final(self)@, action) == tcp_retire(old(self)@, id, outcome),
    {
        proof {
            lemma_retire_keeps_inv(old(self)@, id, outcome);
        }
        if remove_id(&mut self.active, id) {
            remove_id(&mut self.connecting, id);
            TcpAction::Discard { id, outcome }
        } else {
            TcpAction::Ignore
        }
    }

    /// Takes in `event` and says what to do.
    pub fn step(&mut self, event: TcpEvent) -> (action: TcpAction)
        requires
            old(self).wf(),
        ensures
            final(self).wf(),
            final(self)@.inv(),
            (final(self)@, action) == tcp_step(old(self)@, event),
    {
        match self.phase {
            ListenerPhase::Failed { error } => TcpAction::Finish { error },
            ListenerPhase::Unbound => match event {
                TcpEvent::Bound => {
                    self.phase = ListenerPhase::Listening;
                    TcpAction::Serve
                },
                TcpEvent::BindFailed => {
                    self.phase = ListenerPhase::Failed { error: EngineError::Bind };
                    TcpAction::Finish { error: EngineError::Bind }
                },
                _ => TcpAction::Bind,
            },
            ListenerPhase::Listening => match event {
                TcpEvent::Accepted => self.register(),
                TcpEvent::AcceptFailed => {
                    self.phase = ListenerPhase::Failed { error: EngineError::Accept };
                    TcpAction::Finish { error: EngineError::Accept }
                },
                TcpEvent::WorkerReady => self.dispatch(),
                TcpEvent::Connected { id } => self.connected(id),
                TcpEvent::Finished { id, outcome } => self.retire(id, outcome),
                _ => TcpAction::Ignore,
            },
        }
    }
}

/// Accepting a client keeps `inv`.
proof fn lemma_accept_keeps_inv(m: TcpModel)
    requires
        m.inv(),
    ensures
        tcp_accept(m).0.inv(),
{
}

/// Starting the oldest queued connection keeps `inv`.
proof fn lemma_dispatch_keeps_inv(m: TcpModel)
    requires
        m.inv(),
    ensures
        tcp_dispatch(m).0.inv(),
{
    if m.pending.len() > 0 && m.connecting.len() < m.capacity {
        let after = tcp_dispatch(m).0;
        let rest = m.pending.drop_first();
        let id = m.pending[0];
        assert forall|a: int| 0 <= a < after.active.len() implies after.active[a] < m.next_id by {
            if a < m.active.len() {
                assert(after.active[a] == m.active[a]);
            } else {
                assert(after.active[a] == m.pending[0]);
            }
        }
        assert forall|i: int| 0 <= i < after.pending.len() implies m.pending[0]
            < #[trigger] after.pending[i] && after.pending[i] < m.next_id by {
            if i < rest.len() {
                assert(after.pending[i] == m.pending[i + 1]);
            }
        }
        assert forall|a: int, i: int|
            0 <= a < after.active.len() && 0 <= i < after.pending.len() implies after.active[a]
            < after.pending[i] by {
            if a < m.active.len() {
                assert(after.active[a] == m.active[a]);
                assert(m.active[a] < m.pending[0]);
            }
        }
        assert forall|i: int, j: int| 0 <= i < j < after.pending.len() implies after.pending[i]
            < after.pending[j] by {
            if j < rest.len() {
                assert(after.pending[i] == m.pending[i + 1]);
                assert(after.pending[j] == m.pending[j + 1]);
            } else {
                assert(after.pending[i] == m.pending[i + 1]);
            }
        }
        assert(!m.active.contains(id)) by {
            if m.active.contains(id) {
                let a = choose|a: int| 0 <= a < m.active.len() && m.active[a] == id;
                assert(m.active[a] < m.pending[0]);
            }
        }
        assert forall|a: int, b: int|
            0 <= a < after.active.len() && 0 <= b < after.active.len() && a != b implies after.active[a]
            != after.active[b] by {
            if a < m.active.len() {
                assert(m.active[a] < m.pending[0]);
            }
            if b < m.active.len() {
                assert(m.active[b] < m.pending[0]);
            }
        }
        assert forall|c: int| 0 <= c < after.connecting.len() implies after.active.contains(
            #[trigger] after.connecting[c],
        ) by {
            if c < m.connecting.len() {
                assert(m.active.contains(m.connecting[c]));
                let a = choose|a: int| 0 <= a < m.active.len() && m.active[a] == m.connecting[c];
                assert(after.active[a] == after.connecting[c]);
            } else {
                assert(after.active[m.active.len() as int] == id);
            }
        }
        assert forall|c: int, e: int|
            0 <= c < after.connecting.len() && 0 <= e < after.connecting.len() && c
                != e implies after.connecting[c] != after.connecting[e] by {
            if c < m.connecting.len() {
                assert(m.active.contains(m.connecting[c]));
            }
            if e < m.connecting.len() {
                assert(m.active.contains(m.connecting[e]));
            }
        }
    }
}

/// Freeing the place of a connection keeps `inv`.
proof fn lemma_connected_keeps_inv(m: TcpModel, id: u64)
    requires
        m.inv(),
    ensures
        tcp_connected(m, id).0.inv(),
{
    if m.connecting.contains(id) {
        lemma_without_keeps(m.connecting, id);
        let after = without(m.connecting, id);
        assert forall|c: int| 0 <= c < after.len() implies m.active.contains(
            #[trigger] after[c],
        ) by {
            assert(after.contains(after[c]));
            assert(m.connecting.contains(after[c]));
            let e = choose|e: int| 0 <= e < m.connecting.len() && m.connecting[e] == after[c];
            assert(m.active.contains(m.connecting[e]));
        }
    }
}

/// Releasing a connection keeps `inv`.
proof fn lemma_retire_keeps_inv(m: TcpModel, id: u64, outcome: Result<(), EngineError>)
    requires
        m.inv(),
    ensures
        tcp_retire(m, id, outcome).0.inv(),
{
    if m.active.contains(id) {
        lemma_without_keeps(m.active, id);
        lemma_without_keeps(m.connecting, id);
        let k = choose|k: int| 0 <= k < m.active.len() && m.active[k] == id;
        assert(first_at(m.active, id, k)) by {
            assert forall|j: int| 0 <= j < k implies m.active[j] != id by {
                assert(m.active[j] != m.active[k]);
            }
        }
        lemma_without_at(m.active, id, k);
        let active = m.active.remove(k);
        let connecting = without(m.connecting, id);
        assert forall|a: int| 0 <= a < active.len() implies active[a] == m.active[if a < k {
            a
        } else {
            a + 1
        }] by {}
        assert forall|c: int| 0 <= c < connecting.len() implies active.contains(
            #[trigger] connecting[c],
        ) by {
            assert(connecting.contains(connecting[c]));
            assert(connecting[c] != id);
            assert(m.connecting.contains(connecting[c]));
            let e = choose|e: int| 0 <= e < m.connecting.len() && m.connecting[e] == connecting[c];
            assert(m.active.contains(m.connecting[e]));
        }
    }
}

/// The engine after `n` rounds with a destination that answers: in each
/// round a worker asks for work, and the connection it is given, if any,
/// reaches the destination.
pub open spec fn tcp_serve(m: TcpModel, n: nat) -> TcpModel
    decreases n,
{
    if n == 0 {
        m
    } else {
        let (started, action) = tcp_step(m, TcpEvent::WorkerReady);
        let connected = match action {
            TcpAction::Start { id } => tcp_step(started, TcpEvent::Connected { id }).0,
            _ => started,
        };
        tcp_serve(connected, (n - 1) as nat)
    }
}

/// Whatever happens, `inv` holds on.
pub proof fn law_invariant_holds(m: TcpModel, event: TcpEvent)
    requires
        m.inv(),
    ensures
        tcp_step(m, event).0.inv(),
{
    match event {
        TcpEvent::Accepted => {
            lemma_accept_keeps_inv(m);
        },
        TcpEvent::WorkerReady => {
            lemma_dispatch_keeps_inv(m);
        },
        TcpEvent::Connected { id } => {
            lemma_connected_keeps_inv(m, id);
        },
        TcpEvent::Finished { id, outcome } => {
            lemma_retire_keeps_inv(m, id, outcome);
        },
        _ => {},
    }
}

/// The connects in progress never exceed the capacity. A connection is
/// started only while fewer connects are in progress than the capacity
/// allows, and every connection that is started counts as a connect in
/// progress until the caller reports that it reached the destination or
/// that it is over.
pub proof fn law_connects_are_bounded(m: TcpModel, event: TcpEvent)
    requires
        m.inv(),
    ensures
        ({
            let (after, action) = tcp_step(m, event);
            &&& m.connecting.len() <= m.capacity
            &&& after.connecting.len() <= after.capacity
            &&& after.capacity == m.capacity
            &&& action matches TcpAction::Start { id } ==> m.connecting.len() < m.capacity
                && !m.connecting.contains(id) && after.connecting == m.connecting.push(id)
            &&& !(action is Start) ==> after.connecting.len() <= m.connecting.len()
            &&& m.phase is Listening && event is WorkerReady && m.connecting.len() >= m.capacity
                ==> action is Busy && after == m
        }),
{
    law_invariant_holds(m, event);
    match event {
        TcpEvent::WorkerReady => {
            if m.phase is Listening && m.pending.len() > 0 && m.connecting.len() < m.capacity {
                let id = m.pending[0];
                if m.connecting.contains(id) {
                    let c = choose|c: int| 0 <= c < m.connecting.len() && m.connecting[c] == id;
                    assert(m.active.contains(m.connecting[c]));
                    let a = choose|a: int| 0 <= a < m.active.len() && m.active[a] == id;
                    assert(m.active[a] < m.pending[0]);
                }
            }
        },
        TcpEvent::Connected { id } => {
            lemma_without_keeps(m.connecting, id);
        },
        TcpEvent::Finished { id, outcome } => {
            lemma_without_keeps(m.connecting, id);
        },
        _ => {},
    }
}

/// A place comes free when a connect ends, and only then: the report that
/// connection `id` reached the destination, or that it is over, takes `id`
/// out of the connects in progress and touches no other.
pub proof fn law_place_is_freed(m: TcpModel, id: u64, other: u64)
    requires
        m.inv(),
        m.phase is Listening,
        m.connecting.contains(id),
        other != id,
    ensures
        ({
            let (after, action) = tcp_step(m, TcpEvent::Connected { id });
            &&& action == TcpAction::Freed { id }
            &&& after.connecting.len() == m.connecting.len() - 1
            &&& !after.connecting.contains(id)
            &&& after.connecting.contains(other) == m.connecting.contains(other)
            &&& after.active == m.active
            &&& after.pending == m.pending
            &&& after.stalled == m.stalled
        }),
        forall|outcome: Result<(), EngineError>|
            {
                let after = #[trigger] tcp_step(m, TcpEvent::Finished { id, outcome }).0;
                &&& after.connecting.len() == m.connecting.len() - 1
                &&& !after.connecting.contains(id)
                &&& after.connecting.contains(other) == m.connecting.contains(other)
            },
{
    lemma_without_keeps(m.connecting, id);
    let c = choose|c: int| 0 <= c < m.connecting.len() && m.connecting[c] == id;
    assert(m.active.contains(m.connecting[c]));
}

/// No client is dropped silently. A client that the engine had asked for is
/// held from the moment it is accepted, and a connection that is held stays
/// held, queued or in flight, until the event that reports its own end: no
/// other event, and no other connection's failure, removes it.
pub proof fn law_no_client_is_dropped(m: TcpModel, event: TcpEvent, id: u64)
    requires
        m.inv(),
        m.phase is Listening,
    ensures
        ({
            let (after, action) = tcp_step(m, event);
            &&& event is Accepted && m.accepting() ==> action == (TcpAction::Hold { id: m.next_id })
                && after.holds(m.next_id) && !m.holds(m.next_id)
            &&& m.holds(id) && !(event is Finished && event->Finished_id == id) ==> after.holds(id)
            &&& event is Finished && event->Finished_id == id && m.active.contains(id) ==> action
                == (TcpAction::Discard { id, outcome: event->outcome }) && !after.active.contains(
                id,
            )
        }),
{
    let (after, action) = tcp_step(m, event);
    match event {
        TcpEvent::Accepted => {
            if m.accepting() {
                if m.pending.len() < m.capacity {
                    assert(after.pending[m.pending.len() as int] == m.next_id);
                }
                if m.pending.contains(m.next_id) {
                    let i = choose|i: int| 0 <= i < m.pending.len() && m.pending[i] == m.next_id;
                    assert(m.pending[i] < m.next_id);
                }
                if m.active.contains(m.next_id) {
                    let a = choose|a: int| 0 <= a < m.active.len() && m.active[a] == m.next_id;
                    assert(m.active[a] < m.next_id);
                }
                if m.pending.contains(id) {
                    let i = choose|i: int| 0 <= i < m.pending.len() && m.pending[i] == id;
                    assert(after.pending[i] == id);
                }
            }
        },
        TcpEvent::WorkerReady => {
            if m.pending.len() > 0 && m.connecting.len() < m.capacity {
                if m.pending.contains(id) {
                    let i = choose|i: int| 0 <= i < m.pending.len() && m.pending[i] == id;
                    if i == 0 {
                        assert(after.active[m.active.len() as int] == id);
                    } else {
                        assert(after.pending[i - 1] == id);
                    }
                }
                if m.stalled == Some(id) {
                    assert(after.pending[m.pending.len() - 1] == id);
                }
                if m.active.contains(id) {
                    let a = choose|a: int| 0 <= a < m.active.len() && m.active[a] == id;
                    assert(after.active[a] == id);
                }
            }
        },
        TcpEvent::Finished { id: over, outcome } => {
            lemma_without_keeps(m.active, over);
        },
        _ => {},
    }
}

/// Connections are started in the order in which they were accepted: the
/// one that a worker starts is older than every connection still waiting.
pub proof fn law_oldest_first(m: TcpModel, id: u64)
    requires
        m.inv(),
        m.phase is Listening,
        tcp_step(m, TcpEvent::WorkerReady).1 is Start,
        m.pending.contains(id) || m.stalled == Some(id),
    ensures
        tcp_step(m, TcpEvent::WorkerReady).1->Start_id <= id,
{
    if m.pending.contains(id) {
        let i = choose|i: int| 0 <= i < m.pending.len() && m.pending[i] == id;
        if i > 0 {
            assert(m.pending[0] < m.pending[i]);
        }
    }
}

/// Every client gets its turn, however many were accepted, as long as the
/// destination answers. While a connection waits and a connect may begin, a
/// worker that asks for work is given the oldest one; and after as many
/// rounds as connections wait, in each of which the started connection
/// reaches the destination, none waits any more and every connection that
/// was held is in flight.
pub proof fn law_backlog_is_started(m: TcpModel, id: u64)
    requires
        m.inv(),
        m.phase is Listening,
        m.connecting.len() < m.capacity,
    ensures
        m.backlog() > 0 ==> tcp_step(m, TcpEvent::WorkerReady).1 is Start,
        tcp_serve(m, m.backlog()).backlog() == 0,
        tcp_serve(m, m.backlog()).phase is Listening,
        tcp_serve(m, m.backlog()).connecting == m.connecting,
        m.holds(id) ==> tcp_serve(m, m.backlog()).active.contains(id),
    decreases m.backlog(),
{
    if m.backlog() > 0 {
        let (started, action) = tcp_step(m, TcpEvent::WorkerReady);
        let first = m.pending[0];
        lemma_dispatch_keeps_inv(m);
        law_connects_are_bounded(m, TcpEvent::WorkerReady);
        law_no_client_is_dropped(m, TcpEvent::WorkerReady, id);
        assert(started.connecting.contains(first)) by {
            assert(started.connecting[m.connecting.len() as int] == first);
        }
        let next = tcp_step(started, TcpEvent::Connected { id: first }).0;
        lemma_connected_keeps_inv(started, first);
        lemma_without_pushed(m.connecting, first);
        assert(next.connecting == m.connecting);
        assert(next.active == started.active);
        assert(next.backlog() == m.backlog() - 1);
        law_backlog_is_started(next, id);
    }
}

/// A connection that fails, fails alone. The end of one connection, with
/// whatever error, leaves the listener standing, the queue and every other
/// connection untouched and the engine as willing to accept as before; the
/// engine only asks that the connection be released and its error logged.
pub proof fn law_failure_is_isolated(m: TcpModel, id: u64, outcome: Result<(), EngineError>)
    requires
        m.inv(),
        m.phase is Listening,
    ensures
        ({
            let (after, action) = tcp_step(m, TcpEvent::Finished { id, outcome });
            &&& after.phase is Listening
            &&& after.pending == m.pending
            &&& after.stalled == m.stalled
            &&& after.next_id == m.next_id
            &&& after.accepting() == m.accepting()
            &&& after.active == without(m.active, id)
            &&& after.connecting == without(m.connecting, id)
            &&& forall|other: u64|
                other != id ==> after.active.contains(other) == m.active.contains(other)
                    && after.connecting.contains(other) == m.connecting.contains(other)
            &&& !(action is Finish)
            &&& after.accepting() ==> tcp_step(after, TcpEvent::Accepted).1 == (TcpAction::Hold {
                id: m.next_id,
            })
        }),
{
    lemma_without_keeps(m.active, id);
    lemma_without_keeps(m.connecting, id);
    if !m.active.contains(id) {
        lemma_without_absent(m.active, id);
        if m.connecting.contains(id) {
            let c = choose|c: int| 0 <= c < m.connecting.len() && m.connecting[c] == id;
            assert(m.active.contains(m.connecting[c]));
        }
        lemma_without_absent(m.connecting, id);
    }
}

/// Only the listener ends the engine: it fails when binding or accepting
/// fails and on nothing else, and once failed it stays failed.
pub proof fn law_only_listener_ends_engine(m: TcpModel, event: TcpEvent)
    ensures
        ({
            let (after, action) = tcp_step(m, event);
            &&& after.phase is Failed <==> m.phase is Failed || (m.phase is Unbound && event
                is BindFailed) || (m.phase is Listening && event is AcceptFailed)
            &&& action is Finish <==> after.phase is Failed
            &&& m.phase is Failed ==> after == m
        }),
{
}

} // verus!
