use vstd::prelude::*;

use crate::bridge::{has_ticket, settle, BridgeError, BridgeState};

verus! {

/// Submitting actions appends them, in order, behind those already waiting,
/// and touches nothing else that the owner thread reads.
pub proof fn lemma_submit_all<A, O>(s: BridgeState<A, O>, actions: Seq<A>)
    requires
        s.initialized,
        !s.disconnected,
    ensures
        s.submit_all(actions).pending_actions() == s.pending_actions() + actions,
        s.submit_all(actions).running == s.running,
        s.submit_all(actions).initialized,
        !s.submit_all(actions).disconnected,
    decreases actions.len(),
{
    if actions.len() > 0 {
        let s1 = s.submitted(actions[0]).0;
        lemma_submit_all(s1, actions.drop_first());
        assert(s1.pending_actions() =~= s.pending_actions().push(actions[0]));
        assert(s.pending_actions() + actions =~= s1.pending_actions() + actions.drop_first());
    } else {
        assert(s.pending_actions() + actions =~= s.pending_actions());
    }
}

/// Draining as many steps as actions wait, with none running, runs exactly the
/// waiting actions, oldest first, whatever each of them gives.
pub proof fn lemma_drain_all<A, O>(s: BridgeState<A, O>, outcomes: Seq<Option<O>>)
    requires
        s.running is None,
        outcomes.len() == s.pending.len(),
    ensures
        s.drain_all(outcomes) == s.pending_actions(),
    decreases outcomes.len(),
{
    if outcomes.len() > 0 {
        let (s1, e) = s.taken();
        let s2 = s1.finished_with(outcomes[0]).0;
        lemma_drain_all(s2, outcomes.drop_first());
        assert(s2.pending_actions() =~= s.pending_actions().drop_first());
        assert(s.pending_actions() =~= seq![s.pending[0].1] + s.pending_actions().drop_first());
    } else {
        assert(s.pending_actions() =~= Seq::<A>::empty());
    }
}

/// Actions run in the order in which they entered the queue: after actions
/// are submitted to a bridge whose owner thread is idle, the owner thread runs
/// first those that waited already and then the new ones, each in submission
/// order, whatever each action gives.
pub proof fn lemma_fifo<A, O>(s: BridgeState<A, O>, actions: Seq<A>, outcomes: Seq<Option<O>>)
    requires
        s.initialized,
        !s.disconnected,
        s.running is None,
        outcomes.len() == s.pending.len() + actions.len(),
    ensures
        s.submit_all(actions).drain_all(outcomes) == s.pending_actions() + actions,
{
    lemma_submit_all(s, actions);
    let s1 = s.submit_all(actions);
    assert(s1.pending.len() == s1.pending_actions().len());
    lemma_drain_all(s1, outcomes);
}

/// The first `initialize` of a bridge succeeds and every later one fails with
/// `AlreadyInitialized`, whatever happened in between: no operation makes an
/// initialized bridge uninitialized.
pub proof fn lemma_single_init<A, O>(s: BridgeState<A, O>, a: A, t: u64, out: Option<O>)
    ensures
        s.initialized().1 is Ok <==> !s.initialized,
        s.initialized().0.initialized,
        s.initialized().0.initialized().1 == Err::<(), BridgeError>(BridgeError::AlreadyInitialized),
        s.initialized().0.initialized().0 == s.initialized().0,
        s.initialized ==> s.submitted(a).0.initialized,
        s.initialized ==> s.taken().0.initialized,
        s.initialized ==> s.finished_with(out).0.initialized,
        s.initialized ==> s.collected(t).0.initialized,
        s.initialized ==> s.disconnected().initialized,
{
}

/// A caller keeps waiting while its action waits or runs, and once the owner
/// thread has finished the action, the caller gets exactly what the action
/// gave, once.
pub proof fn lemma_result_after_finish<A, O>(s: BridgeState<A, O>, t: u64, out: Option<O>)
    requires
        s.wf(),
        !s.disconnected,
        has_ticket(s.pending, t) || s.running == Some(t),
    ensures
        s.collected(t).1 is None,
        s.running == Some(t) ==> s.finished_with(out).0.collected(t).1 == Some(settle(out)),
        s.running == Some(t) ==> !has_ticket(s.finished_with(out).0.collected(t).0.finished, t),
{
    if has_ticket(s.finished, t) {
        let i = choose|i: int| 0 <= i < s.finished.len() && #[trigger] s.finished[i].0 == t;
        if has_ticket(s.pending, t) {
            assert(!has_ticket(s.pending, s.finished[i].0));
        }
    }
    if s.running == Some(t) {
        let s1 = s.finished_with(out).0;
        let last = s1.finished.len() - 1;
        assert(s1.finished[last].0 == t);
        let i = choose|i: int| 0 <= i < s1.finished.len() && #[trigger] s1.finished[i].0 == t;
        if i != last {
            assert(s.finished[i].0 == t);
        }
        let s2 = s1.collected(t).0;
        assert(s2.finished =~= s.finished);
    }
}

/// An action that aborts is reported as `ActionFailed`, and the bridge goes on:
/// the actions that waited stay queued in order, and a later action is still
/// accepted and run after them.
pub proof fn lemma_failure_contained<A, O>(s: BridgeState<A, O>, b: A, outcomes: Seq<Option<O>>)
    requires
        s.wf(),
        s.initialized,
        !s.disconnected,
        s.running is Some,
        s.next_ticket < u64::MAX,
        outcomes.len() == s.pending.len() + 1,
    ensures
        s.finished_with(None).0.collected(s.running->Some_0).1 == Some(
            Err::<O, BridgeError>(BridgeError::ActionFailed),
        ),
        s.finished_with(None).0.wf(),
        s.finished_with(None).0.pending == s.pending,
        s.finished_with(None).0.submitted(b).1 is Ok,
        s.finished_with(None).0.submitted(b).0.drain_all(outcomes) == s.pending_actions().push(b),
{
    let t = s.running->Some_0;
    lemma_result_after_finish(s, t, None);
    let s1 = s.finished_with(None).0;
    assert forall|i: int| 0 <= i < s1.finished.len() implies !has_ticket(s1.pending, #[trigger] s1.finished[i].0) by {
        if i < s.finished.len() {
            assert(s.finished[i] == s1.finished[i]);
        } else if has_ticket(s1.pending, t) {
            let k = choose|k: int| 0 <= k < s1.pending.len() && #[trigger] s1.pending[k].0 == t;
        }
    }
    assert forall|i: int, j: int|
        0 <= i < s1.finished.len() && 0 <= j < s1.finished.len() && i != j
            implies #[trigger] s1.finished[i].0 != #[trigger] s1.finished[j].0 by {
        if i == s.finished.len() {
            assert(s.finished[j] == s1.finished[j]);
        } else if j == s.finished.len() {
            assert(s.finished[i] == s1.finished[i]);
        }
    }
    assert forall|i: int| 0 <= i < s1.finished.len() implies #[trigger] s1.finished[i].0 < s1.next_ticket by {
        if i < s.finished.len() {
            assert(s.finished[i] == s1.finished[i]);
        }
    }
    lemma_fifo(s1, seq![b], outcomes);
    assert(s1.submit_all(seq![b]) == s1.submitted(b).0) by {
        assert(seq![b].drop_first() =~= Seq::<A>::empty());
        assert(s1.submitted(b).0.submit_all(Seq::<A>::empty()) == s1.submitted(b).0);
    }
    assert(s.pending_actions() + seq![b] =~= s.pending_actions().push(b));
}

} // verus!
