use std::rc::Rc;
use vstd::prelude::*;

use crate::bridge::{BridgeHandle, BridgeState};
use crate::cell::OwnershipCell;
use crate::fnbox::SendBoxFnOnce;

verus! {

/// Whether every action waiting in `s` may run on a handle to `payload`.
pub open spec fn runnable<T, O, F: FnOnce(Rc<T>) -> Option<O>>(
    s: BridgeState<SendBoxFnOnce<F>, O>,
    payload: T,
) -> bool {
    forall|i: int, p: Rc<T>|
        0 <= i < s.pending.len() && *p == payload ==> #[trigger] s.pending[i].1.func().requires((p,))
}

/// One drain step on the owner thread: takes the oldest waiting action (unless
/// one is running or none waits), runs it on the payload, records its result,
/// and tells whether further actions wait.
pub fn drain_one<T, O, F: FnOnce(Rc<T>) -> Option<O>>(
    handle: &mut BridgeHandle<SendBoxFnOnce<F>, O>,
    cell: &OwnershipCell<T>,
) -> (more: bool)
    requires
        old(handle)@.wf(),
        runnable(old(handle)@, cell.payload()),
    ensures
        final(handle)@.wf(),
        runnable(final(handle)@, cell.payload()),
        match old(handle)@.taken() {
            (_, None) => final(handle)@ == old(handle)@ && more == (old(handle)@.pending.len() > 0),
            (s1, Some(e)) => exists|p: Rc<T>, out: Option<O>|
                *p == cell.payload() && e.1.func().ensures((p,), out) && (final(handle)@, more)
                    == s1.finished_with(out),
        },
{
    match handle.take_next() {
        None => handle.has_pending(),
        Some(entry) => {
            let (_, action) = entry;
            proof {
                assert(old(handle)@.pending[0] == entry);
            }
            let out = cell.run(action);
            let more = handle.finish(out);
            proof {
                let s = handle@;
                assert forall|i: int, q: Rc<T>| 0 <= i < s.pending.len() && *q == cell.payload()
                    implies #[trigger] s.pending[i].1.func().requires((q,)) by {
                    assert(s.pending[i] == old(handle)@.pending[i + 1]);
                }
            }
            more
        },
    }
}

} // verus!
