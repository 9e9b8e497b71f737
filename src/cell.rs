use std::rc::Rc;
use vstd::prelude::*;

use crate::fnbox::SendBoxFnOnce;

verus! {

/// The payload confined to the owner thread, shared with each action through
/// a reference-counted handle.
pub struct OwnershipCell<T> {
    payload: Rc<T>,
}

impl<T> OwnershipCell<T> {
    /// The payload held.
    pub closed spec fn payload(&self) -> T {
        *self.payload
    }

    /// Takes ownership of `data`.
    pub fn new(data: T) -> (r: Self)
        ensures
            r.payload() == data,
    {
        OwnershipCell { payload: Rc::new(data) }
    }

    /// A new handle to the payload.
    pub fn share(&self) -> (r: Rc<T>)
        ensures
            *r == self.payload(),
    {
        Rc::clone(&self.payload)
    }

    /// Runs `action` on a handle to the payload and gives what it gave:
    /// `None` when it aborted.
    pub fn run<O, F: FnOnce(Rc<T>) -> Option<O>>(&self, action: SendBoxFnOnce<F>) -> (r: Option<O>)
        requires
            forall|p: Rc<T>| *p == self.payload() ==> action.func().requires((p,)),
        ensures
            exists|p: Rc<T>| *p == self.payload() && action.func().ensures((p,), r),
    {
        let p = self.share();
        action.call(p)
    }
}

} // verus!
