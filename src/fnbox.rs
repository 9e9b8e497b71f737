use vstd::prelude::*;

verus! {

/// A function value that is called once, with its arguments as a tuple.
pub trait FnBox<Args, R>: Sized {
    /// The arguments on which the function may be called.
    spec fn call_pre(&self, args: Args) -> bool;

    /// The results the function may give on those arguments.
    spec fn call_post(&self, args: Args, r: R) -> bool;

    /// Calls the function, consuming it.
    fn call(self, args: Args) -> (r: R)
        requires
            self.call_pre(args),
        ensures
            self.call_post(args, r),
    ;
}

impl<A1, R, F: FnOnce(A1) -> R> FnBox<(A1,), R> for F {
    open spec fn call_pre(&self, args: (A1,)) -> bool {
        self.requires(args)
    }

    open spec fn call_post(&self, args: (A1,), r: R) -> bool {
        self.ensures(args, r)
    }

    fn call(self, args: (A1,)) -> (r: R) {
        let (a1,) = args;
        self(a1)
    }
}

/// A one-shot function of one argument that may be sent to another thread.
pub struct SendBoxFnOnce<F> {
    func: F,
}

impl<F> SendBoxFnOnce<F> {
    /// The function held.
    pub closed spec fn func(&self) -> F {
        self.func
    }

    /// Wraps `func`; the same as `SendBoxFnOnce::from`.
    pub fn new(func: F) -> (r: Self)
        where F: Send,
        ensures
            r.func() == func,
    {
        Self::from(func)
    }

    /// Calls the function held with the arguments given as a tuple, consuming it.
    pub fn call_tuple<A1, R>(self, args: (A1,)) -> (r: R)
        where F: FnOnce(A1) -> R,
        requires
            self.func().requires(args),
        ensures
            self.func().ensures(args, r),
    {
        FnBox::call(self.func, args)
    }

    /// Calls the function held with `a1`, consuming it.
    pub fn call<A1, R>(self, a1: A1) -> (r: R)
        where F: FnOnce(A1) -> R,
        requires
            self.func().requires((a1,)),
        ensures
            self.func().ensures((a1,), r),
    {
        FnBox::call(self.func, (a1,))
    }
}

impl<A1, R, F: FnOnce(A1) -> R> FnBox<(A1,), R> for SendBoxFnOnce<F> {
    open spec fn call_pre(&self, args: (A1,)) -> bool {
        self.func().requires(args)
    }

    open spec fn call_post(&self, args: (A1,), r: R) -> bool {
        self.func().ensures(args, r)
    }

    fn call(self, args: (A1,)) -> (r: R) {
        self.call_tuple(args)
    }
}

impl<F: Send> From<F> for SendBoxFnOnce<F> {
    fn from(func: F) -> (r: Self)
        ensures
            r.func() == func,
    {
        SendBoxFnOnce { func }
    }
}

impl<F: Send> vstd::std_specs::convert::FromSpecImpl<F> for SendBoxFnOnce<F> {
    open spec fn obeys_from_spec() -> bool {
        true
    }

    closed spec fn from_spec(func: F) -> Self {
        SendBoxFnOnce { func }
    }
}

} // verus!
