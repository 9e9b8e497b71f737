use vstd::prelude::*;

verus! {

/// The ways a call across the bridge can fail.
#[derive(Clone, Copy, Debug, PartialEq, Eq, Structural)]
pub enum BridgeError {
    /// `initialize` was called on a bridge that already holds its payload.
    AlreadyInitialized,
    /// An action was submitted before the bridge was initialized.
    Uninitialized,
    /// The action aborted while it ran on the owner thread.
    ActionFailed,
    /// The owner side is gone: the action never ran, or its result was lost.
    BridgeDisconnected,
}

/// The result reported to a caller for an action that ran: its value, or
/// `ActionFailed` when it aborted (`None`).
pub open spec fn settle<O>(outcome: Option<O>) -> Result<O, BridgeError> {
    match outcome {
        Some(o) => Ok(o),
        None => Err(BridgeError::ActionFailed),
    }
}

/// Turns what an action gave into the result reported to its caller.
pub fn settle_outcome<O>(outcome: Option<O>) -> (r: Result<O, BridgeError>)
    ensures
        r == settle(outcome),
{
    match outcome {
        Some(o) => Ok(o),
        None => Err(BridgeError::ActionFailed),
    }
}

/// The abstract state of a bridge.
pub struct BridgeState<A, O> {
    /// Whether `initialize` has succeeded.
    pub initialized: bool,
    /// Whether the owner side has gone away.
    pub disconnected: bool,
    /// The ticket that the next accepted action gets.
    pub next_ticket: nat,
    /// Actions accepted and not yet taken by the owner thread, oldest first.
    pub pending: Seq<(u64, A)>,
    /// The ticket of the action that the owner thread is running, if any.
    pub running: Option<u64>,
    /// Results of finished actions that their callers have not collected.
    pub finished: Seq<(u64, Result<O, BridgeError>)>,
}

/// Whether `t` is the ticket of one of `items`.
pub open spec fn has_ticket<X>(items: Seq<(u64, X)>, t: u64) -> bool {
    exists|i: int| 0 <= i < items.len() && #[trigger] items[i].0 == t
}

impl<A, O> BridgeState<A, O> {
    /// The invariant that every reachable state keeps.
    pub open spec fn wf(self) -> bool {
        &&& forall|i: int, j: int|
            0 <= i < j < self.pending.len() ==> #[trigger] self.pending[i].0 < #[trigger] self.pending[j].0
        &&& forall|i: int| 0 <= i < self.pending.len() ==> #[trigger] self.pending[i].0 < self.next_ticket
        &&& self.next_ticket <= u64::MAX
        &&& (self.running matches Some(t) ==> {
            &&& t < self.next_ticket
            &&& forall|i: int| 0 <= i < self.pending.len() ==> t < #[trigger] self.pending[i].0
            &&& !has_ticket(self.finished, t)
        })
        &&& forall|i: int, j: int|
            0 <= i < self.finished.len() && 0 <= j < self.finished.len() && i != j
                ==> #[trigger] self.finished[i].0 != #[trigger] self.finished[j].0
        &&& forall|i: int| 0 <= i < self.finished.len() ==> #[trigger] self.finished[i].0 < self.next_ticket
        &&& forall|i: int| 0 <= i < self.finished.len() ==> !has_ticket(self.pending, #[trigger] self.finished[i].0)
        &&& (!self.initialized ==> {
            &&& self.next_ticket == 0
            &&& self.pending.len() == 0
            &&& self.running is None
            &&& self.finished.len() == 0
        })
        &&& (self.disconnected ==> self.pending.len() == 0)
    }

    /// The state after `initialize`, and its result.
    pub open spec fn initialized(self) -> (Self, Result<(), BridgeError>) {
        if self.initialized {
            (self, Err(BridgeError::AlreadyInitialized))
        } else {
            (BridgeState { initialized: true, ..self }, Ok(()))
        }
    }

    /// The state after submitting `action`, and its result: the action's ticket.
    pub open spec fn submitted(self, action: A) -> (Self, Result<u64, BridgeError>) {
        if !self.initialized {
            (self, Err(BridgeError::Uninitialized))
        } else if self.disconnected {
            (self, Err(BridgeError::BridgeDisconnected))
        } else {
            (
                BridgeState {
                    next_ticket: self.next_ticket + 1,
                    pending: self.pending.push((self.next_ticket as u64, action)),
                    ..self
                },
                Ok(self.next_ticket as u64),
            )
        }
    }

    /// The state after the owner thread takes the next action, and that action.
    pub open spec fn taken(self) -> (Self, Option<(u64, A)>) {
        if self.running is Some || self.pending.len() == 0 {
            (self, None)
        } else {
            (
                BridgeState {
                    pending: self.pending.drop_first(),
                    running: Some(self.pending[0].0),
                    ..self
                },
                Some(self.pending[0]),
            )
        }
    }

    /// The state after the running action finished with `outcome`, and
    /// whether further actions wait.
    pub open spec fn finished_with(self, outcome: Option<O>) -> (Self, bool)
        recommends
            self.running is Some,
    {
        (
            BridgeState {
                running: None,
                finished: self.finished.push((self.running->Some_0, settle(outcome))),
                ..self
            },
            self.pending.len() > 0,
        )
    }

    /// The state after the caller holding ticket `t` looked for its result,
    /// and what it found: the result, taken out of the state; `BridgeDisconnected`
    /// when the owner side is gone and the action is not running; or nothing yet.
    pub open spec fn collected(self, t: u64) -> (Self, Option<Result<O, BridgeError>>) {
        if has_ticket(self.finished, t) {
            let i = choose|i: int| 0 <= i < self.finished.len() && #[trigger] self.finished[i].0 == t;
            (BridgeState { finished: self.finished.remove(i), ..self }, Some(self.finished[i].1))
        } else if self.disconnected && self.running != Some(t) {
            (self, Some(Err(BridgeError::BridgeDisconnected)))
        } else {
            (self, None)
        }
    }

    /// The actions waiting, oldest first.
    pub open spec fn pending_actions(self) -> Seq<A> {
        self.pending.map_values(|e: (u64, A)| e.1)
    }

    /// The state after submitting each of `actions` in turn.
    pub open spec fn submit_all(self, actions: Seq<A>) -> Self
        decreases actions.len(),
    {
        if actions.len() == 0 {
            self
        } else {
            self.submitted(actions[0]).0.submit_all(actions.drop_first())
        }
    }

    /// The actions that the owner thread runs in turn when each drain step
    /// ends with the next of `outcomes`.
    pub open spec fn drain_all(self, outcomes: Seq<Option<O>>) -> Seq<A>
        decreases outcomes.len(),
    {
        if outcomes.len() == 0 {
            Seq::empty()
        } else {
            match self.taken() {
                (s1, Some(e)) => seq![e.1] + s1.finished_with(outcomes[0]).0.drain_all(outcomes.drop_first()),
                (_, None) => Seq::empty(),
            }
        }
    }

    /// The state after the owner side went away.
    pub open spec fn disconnected(self) -> Self {
        BridgeState { disconnected: true, pending: Seq::empty(), ..self }
    }
}

/// The process-wide rendezvous between the threads that submit actions and
/// the owner thread that runs them.
pub struct BridgeHandle<A, O> {
    initialized: bool,
    disconnected: bool,
    next_ticket: u64,
    pending: std::collections::VecDeque<(u64, A)>,
    running: Option<u64>,
    finished: Vec<(u64, Result<O, BridgeError>)>,
}

impl<A, O> View for BridgeHandle<A, O> {
    type V = BridgeState<A, O>;

    closed spec fn view(&self) -> BridgeState<A, O> {
        BridgeState {
            initialized: self.initialized,
            disconnected: self.disconnected,
            next_ticket: self.next_ticket as nat,
            pending: self.pending@,
            running: self.running,
            finished: self.finished@,
        }
    }
}

impl<A, O> BridgeHandle<A, O> {
    /// A bridge that is not initialized yet.
    pub fn new() -> (r: Self)
        ensures
            r@.wf(),
            !r@.initialized,
            !r@.disconnected,
    {
        BridgeHandle {
            initialized: false,
            disconnected: false,
            next_ticket: 0,
            pending: std::collections::VecDeque::new(),
            running: None,
            finished: Vec::new(),
        }
    }

    /// Marks the bridge initialized; fails if it already was.
    pub fn initialize(&mut self) -> (r: Result<(), BridgeError>)
        requires
            old(self)@.wf(),
        ensures
            final(self)@.wf(),
            (final(self)@, r) == old(self)@.initialized(),
    {
        if self.initialized {
            Err(BridgeError::AlreadyInitialized)
        } else {
            self.initialized = true;
            Ok(())
        }
    }

    /// Whether actions wait to be taken.
    pub fn has_pending(&self) -> (r: bool)
        ensures
            r == (self@.pending.len() > 0),
    {
        self.pending.len() > 0
    }

    /// Whether another action can be given a ticket.
    pub fn has_ticket_left(&self) -> (r: bool)
        ensures
            r == (self@.next_ticket < u64::MAX),
    {
        self.next_ticket < u64::MAX
    }

    /// Queues `action` behind every action accepted before it and returns its
    /// ticket; fails without effect when the bridge is not initialized or its
    /// owner side is gone.
    pub fn submit(&mut self, action: A) -> (r: Result<u64, BridgeError>)
        requires
            old(self)@.wf(),
            old(self)@.next_ticket < u64::MAX,
        ensures
            final(self)@.wf(),
            (final(self)@, r) == old(self)@.submitted(action),
            !old(self)@.initialized ==> r == Err::<u64, BridgeError>(BridgeError::Uninitialized)
                && final(self)@ == old(self)@,
    {
        if !self.initialized {
            return Err(BridgeError::Uninitialized);
        }
        if self.disconnected {
            return Err(BridgeError::BridgeDisconnected);
        }
        let ticket = self.next_ticket;
        self.pending.push_back((ticket, action));
        self.next_ticket = ticket + 1;
        proof {
            let s = self@;
            assert forall|i: int| 0 <= i < s.finished.len() implies !has_ticket(s.pending, #[trigger] s.finished[i].0) by {
                assert(old(self)@.finished[i] == s.finished[i]);
                assert(!has_ticket(old(self)@.pending, s.finished[i].0));
                if has_ticket(s.pending, s.finished[i].0) {
                    let k = choose|k: int| 0 <= k < s.pending.len() && #[trigger] s.pending[k].0 == s.finished[i].0;
                    if k < old(self)@.pending.len() {
                        assert(old(self)@.pending[k].0 == s.finished[i].0);
                    }
                }
            }
        }
        Ok(ticket)
    }

    /// On the owner thread: takes the oldest waiting action, unless one is
    /// running already or none waits.
    pub fn take_next(&mut self) -> (r: Option<(u64, A)>)
        requires
            old(self)@.wf(),
        ensures
            final(self)@.wf(),
            (final(self)@, r) == old(self)@.taken(),
    {
        if self.running.is_some() {
            return None;
        }
        match self.pending.pop_front() {
            None => None,
            Some(entry) => {
                self.running = Some(entry.0);
                proof {
                    let o = old(self)@;
                    let s = self@;
                    assert(s.pending =~= o.pending.drop_first());
                    assert forall|i: int| 0 <= i < s.finished.len() implies !has_ticket(s.pending, #[trigger] s.finished[i].0) by {
                        assert(o.finished[i] == s.finished[i]);
                        assert(!has_ticket(o.pending, s.finished[i].0));
                        if has_ticket(s.pending, s.finished[i].0) {
                            let k = choose|k: int| 0 <= k < s.pending.len() && #[trigger] s.pending[k].0 == s.finished[i].0;
                            assert(o.pending[k + 1].0 == s.finished[i].0);
                        }
                    }
                    if has_ticket(s.finished, entry.0) {
                        let k = choose|k: int| 0 <= k < s.finished.len() && #[trigger] s.finished[k].0 == entry.0;
                        assert(o.pending[0].0 == s.finished[k].0);
                        assert(has_ticket(o.pending, s.finished[k].0));
                    }
                    assert forall|i: int| 0 <= i < s.pending.len() implies entry.0 < #[trigger] s.pending[i].0 by {
                        assert(o.pending[0].0 < o.pending[i + 1].0);
                    }
                    assert(s.finished == o.finished);
                    assert forall|i: int, j: int|
                        0 <= i < j < s.pending.len() implies #[trigger] s.pending[i].0 < #[trigger] s.pending[j].0 by {
                        assert(o.pending[i + 1].0 < o.pending[j + 1].0);
                    }
                    assert forall|i: int| 0 <= i < s.pending.len() implies #[trigger] s.pending[i].0 < s.next_ticket by {
                        assert(o.pending[i + 1].0 < o.next_ticket);
                    }
                }
                Some(entry)
            },
        }
    }

    /// On the owner thread: records how the running action ended, and tells
    /// whether further actions wait.
    pub fn finish(&mut self, outcome: Option<O>) -> (more: bool)
        requires
            old(self)@.wf(),
            old(self)@.running is Some,
        ensures
            final(self)@.wf(),
            (final(self)@, more) == old(self)@.finished_with(outcome),
    {
        let ticket = match self.running {
            Some(t) => t,
            None => 0,
        };
        let result = settle_outcome(outcome);
        self.finished.push((ticket, result));
        self.running = None;
        proof {
            let o = old(self)@;
            let s = self@;
            assert(s.pending == o.pending);
            assert forall|i: int| 0 <= i < s.finished.len() implies !has_ticket(s.pending, #[trigger] s.finished[i].0) by {
                if i < o.finished.len() {
                    assert(o.finished[i] == s.finished[i]);
                    assert(!has_ticket(o.pending, o.finished[i].0));
                } else if has_ticket(s.pending, ticket) {
                    let k = choose|k: int| 0 <= k < s.pending.len() && #[trigger] s.pending[k].0 == ticket;
                    assert(o.pending[k].0 == ticket);
                }
            }
            assert forall|i: int, j: int|
                0 <= i < s.finished.len() && 0 <= j < s.finished.len() && i != j
                    implies #[trigger] s.finished[i].0 != #[trigger] s.finished[j].0 by {
                if i == o.finished.len() {
                    assert(o.finished[j] == s.finished[j]);
                } else if j == o.finished.len() {
                    assert(o.finished[i] == s.finished[i]);
                } else {
                    assert(o.finished[i] == s.finished[i]);
                    assert(o.finished[j] == s.finished[j]);
                }
            }
            assert forall|i: int| 0 <= i < s.finished.len() implies #[trigger] s.finished[i].0 < s.next_ticket by {
                if i < o.finished.len() {
                    assert(o.finished[i] == s.finished[i]);
                }
            }
        }
        self.pending.len() > 0
    }

    /// On the owner thread: marks the owner side gone and drops the actions
    /// that will never run.
    pub fn disconnect(&mut self)
        requires
            old(self)@.wf(),
        ensures
            final(self)@.wf(),
            final(self)@ == old(self)@.disconnected(),
    {
        self.disconnected = true;
        self.pending.clear();
        proof {
            assert(self@.pending =~= Seq::<(u64, A)>::empty());
        }
    }

    /// Takes the result for ticket `t` if the owner thread has finished it;
    /// reports `BridgeDisconnected` if the owner side is gone before the
    /// action ran.
    pub fn collect(&mut self, t: u64) -> (r: Option<Result<O, BridgeError>>)
        requires
            old(self)@.wf(),
        ensures
            final(self)@.wf(),
            (final(self)@, r) == old(self)@.collected(t),
    {
        let mut i: usize = 0;
        while i < self.finished.len()
            invariant
                self@ == old(self)@,
                self@.wf(),
                0 <= i <= self.finished@.len(),
                forall|k: int| 0 <= k < i ==> #[trigger] self.finished@[k].0 != t,
            decreases self.finished@.len() - i,
        {
            if self.finished[i].0 == t {
                proof {
                    let o = old(self)@;
                    let j = choose|j: int| 0 <= j < o.finished.len() && #[trigger] o.finished[j].0 == t;
                    assert(j == i);
                }
                let (_, result) = self.finished.remove(i);
                proof {
                    let o = old(self)@;
                    let s = self@;
                    assert forall|a: int, b: int|
                        0 <= a < s.finished.len() && 0 <= b < s.finished.len() && a != b
                            implies #[trigger] s.finished[a].0 != #[trigger] s.finished[b].0 by {
                        let a2 = if a < i { a } else { a + 1 };
                        let b2 = if b < i { b } else { b + 1 };
                        assert(s.finished[a] == o.finished[a2]);
                        assert(s.finished[b] == o.finished[b2]);
                    }
                    assert forall|a: int| 0 <= a < s.finished.len() implies #[trigger] s.finished[a].0 < s.next_ticket by {
                        let a2 = if a < i { a } else { a + 1 };
                        assert(s.finished[a] == o.finished[a2]);
                    }
                    assert forall|a: int| 0 <= a < s.finished.len() implies !has_ticket(s.pending, #[trigger] s.finished[a].0) by {
                        let a2 = if a < i { a } else { a + 1 };
                        assert(s.finished[a] == o.finished[a2]);
                        assert(!has_ticket(o.pending, o.finished[a2].0));
                    }
                    if let Some(rt) = s.running {
                        if has_ticket(s.finished, rt) {
                            let a = choose|a: int| 0 <= a < s.finished.len() && #[trigger] s.finished[a].0 == rt;
                            let a2 = if a < i { a } else { a + 1 };
                            assert(s.finished[a] == o.finished[a2]);
                        }
                    }
                }
                return Some(result);
            }
            i = i + 1;
        }
        if self.disconnected && self.running != Some(t) {
            Some(Err(BridgeError::BridgeDisconnected))
        } else {
            None
        }
    }
}

} // verus!
