use std::cell::{Cell, RefCell};
use std::rc::Rc;

use gtk_rs_state::bridge::{settle_outcome, BridgeError, BridgeHandle};
use gtk_rs_state::cell::OwnershipCell;
use gtk_rs_state::drain::drain_one;
use gtk_rs_state::fnbox::SendBoxFnOnce;

struct Counter {
    counter: Cell<u32>,
}

struct Log {
    entries: RefCell<Vec<u32>>,
}

type Action<T, O> = SendBoxFnOnce<Box<dyn FnOnce(Rc<T>) -> Option<O> + Send>>;

fn action<T, O, F>(f: F) -> Action<T, O>
where
    F: FnOnce(Rc<T>) -> Option<O> + Send + 'static,
{
    SendBoxFnOnce::new(Box::new(f) as Box<dyn FnOnce(Rc<T>) -> Option<O> + Send>)
}

fn ready<T, O>() -> BridgeHandle<Action<T, O>, O> {
    let mut handle = BridgeHandle::new();
    assert_eq!(handle.initialize(), Ok(()));
    handle
}

#[test]
fn initialize_succeeds_once() {
    let mut handle: BridgeHandle<Action<Counter, ()>, ()> = BridgeHandle::new();
    assert_eq!(handle.initialize(), Ok(()));
    assert_eq!(handle.initialize(), Err(BridgeError::AlreadyInitialized));
    assert_eq!(handle.initialize(), Err(BridgeError::AlreadyInitialized));
}

#[test]
fn initialize_still_refused_after_work() {
    let cell = OwnershipCell::new(Counter { counter: Cell::new(0) });
    let mut handle = ready::<Counter, ()>();
    let t = handle.submit(action(|p: Rc<Counter>| {
        p.counter.set(p.counter.get() + 1);
        Some(())
    }));
    assert_eq!(t, Ok(0));
    drain_one(&mut handle, &cell);
    assert_eq!(handle.collect(0), Some(Ok(())));
    assert_eq!(handle.initialize(), Err(BridgeError::AlreadyInitialized));
}

#[test]
fn submit_before_initialize_is_uninitialized() {
    let cell = OwnershipCell::new(Counter { counter: Cell::new(0) });
    let mut handle: BridgeHandle<Action<Counter, ()>, ()> = BridgeHandle::new();
    let r = handle.submit(action(|p: Rc<Counter>| {
        p.counter.set(1);
        Some(())
    }));
    assert_eq!(r, Err(BridgeError::Uninitialized));
    assert!(!handle.has_pending());
    assert!(!drain_one(&mut handle, &cell));
    assert_eq!(cell.share().counter.get(), 0);
}

#[test]
fn ten_increments_reach_ten() {
    let cell = OwnershipCell::new(Counter { counter: Cell::new(0) });
    let mut handle = ready::<Counter, u32>();
    let mut tickets = Vec::new();
    for _ in 0..10 {
        let t = handle
            .submit(action(|p: Rc<Counter>| {
                p.counter.set(p.counter.get() + 1);
                Some(p.counter.get())
            }))
            .unwrap();
        tickets.push(t);
    }
    for _ in 0..10 {
        drain_one(&mut handle, &cell);
    }
    assert_eq!(cell.share().counter.get(), 10);
    for (i, t) in tickets.iter().enumerate() {
        assert_eq!(handle.collect(*t), Some(Ok(i as u32 + 1)));
    }
}

#[test]
fn actions_run_in_submission_order() {
    let cell = OwnershipCell::new(Log { entries: RefCell::new(Vec::new()) });
    let mut handle = ready::<Log, ()>();
    for i in [3u32, 1, 4, 1, 5, 9, 2, 6] {
        handle
            .submit(action(move |p: Rc<Log>| {
                p.entries.borrow_mut().push(i);
                Some(())
            }))
            .unwrap();
    }
    let mut more = true;
    while more {
        more = drain_one(&mut handle, &cell);
    }
    assert_eq!(*cell.share().entries.borrow(), vec![3, 1, 4, 1, 5, 9, 2, 6]);
}

#[test]
fn submissions_between_drains_keep_order() {
    let cell = OwnershipCell::new(Log { entries: RefCell::new(Vec::new()) });
    let mut handle = ready::<Log, ()>();
    let push = |i: u32| {
        action(move |p: Rc<Log>| {
            p.entries.borrow_mut().push(i);
            Some(())
        })
    };
    handle.submit(push(1)).unwrap();
    handle.submit(push(2)).unwrap();
    assert!(drain_one(&mut handle, &cell));
    handle.submit(push(3)).unwrap();
    assert!(drain_one(&mut handle, &cell));
    assert!(!drain_one(&mut handle, &cell));
    assert_eq!(*cell.share().entries.borrow(), vec![1, 2, 3]);
}

#[test]
fn result_only_after_the_action_ran() {
    let cell = OwnershipCell::new(Counter { counter: Cell::new(0) });
    let mut handle = ready::<Counter, u32>();
    let t = handle
        .submit(action(|p: Rc<Counter>| {
            p.counter.set(7);
            Some(70)
        }))
        .unwrap();
    assert_eq!(handle.collect(t), None);
    assert_eq!(cell.share().counter.get(), 0);
    let (taken, a) = handle.take_next().unwrap();
    assert_eq!(taken, t);
    assert_eq!(handle.collect(t), None);
    let out = cell.run(a);
    assert_eq!(cell.share().counter.get(), 7);
    assert!(!handle.finish(out));
    assert_eq!(handle.collect(t), Some(Ok(70)));
    assert_eq!(handle.collect(t), None);
}

#[test]
fn aborted_action_is_contained() {
    let cell = OwnershipCell::new(Counter { counter: Cell::new(0) });
    let mut handle = ready::<Counter, u32>();
    let bad = handle.submit(action(|_p: Rc<Counter>| None)).unwrap();
    let good = handle
        .submit(action(|p: Rc<Counter>| {
            p.counter.set(p.counter.get() + 1);
            Some(1)
        }))
        .unwrap();
    assert!(drain_one(&mut handle, &cell));
    assert_eq!(handle.collect(bad), Some(Err(BridgeError::ActionFailed)));
    assert!(!drain_one(&mut handle, &cell));
    assert_eq!(handle.collect(good), Some(Ok(1)));
    let later = handle
        .submit(action(|p: Rc<Counter>| Some(p.counter.get() + 10)))
        .unwrap();
    drain_one(&mut handle, &cell);
    assert_eq!(handle.collect(later), Some(Ok(11)));
}

#[test]
fn one_action_runs_at_a_time() {
    let mut handle = ready::<Counter, ()>();
    handle.submit(action(|_p: Rc<Counter>| Some(()))).unwrap();
    handle.submit(action(|_p: Rc<Counter>| Some(()))).unwrap();
    let first = handle.take_next();
    assert_eq!(first.as_ref().map(|e| e.0), Some(0));
    assert!(handle.take_next().is_none());
    assert!(handle.finish(Some(())));
    let second = handle.take_next();
    assert_eq!(second.as_ref().map(|e| e.0), Some(1));
}

#[test]
fn drain_on_empty_queue_does_nothing() {
    let cell = OwnershipCell::new(Counter { counter: Cell::new(4) });
    let mut handle = ready::<Counter, ()>();
    assert!(!drain_one(&mut handle, &cell));
    assert!(!handle.has_pending());
    assert_eq!(cell.share().counter.get(), 4);
}

#[test]
fn disconnect_releases_waiting_callers() {
    let cell = OwnershipCell::new(Counter { counter: Cell::new(0) });
    let mut handle = ready::<Counter, ()>();
    let t = handle
        .submit(action(|p: Rc<Counter>| {
            p.counter.set(1);
            Some(())
        }))
        .unwrap();
    handle.disconnect();
    assert!(!handle.has_pending());
    assert_eq!(handle.collect(t), Some(Err(BridgeError::BridgeDisconnected)));
    let r = handle.submit(action(|_p: Rc<Counter>| Some(())));
    assert_eq!(r, Err(BridgeError::BridgeDisconnected));
    assert!(!drain_one(&mut handle, &cell));
    assert_eq!(cell.share().counter.get(), 0);
}

#[test]
fn finished_result_survives_disconnect() {
    let cell = OwnershipCell::new(Counter { counter: Cell::new(0) });
    let mut handle = ready::<Counter, u32>();
    let t = handle.submit(action(|_p: Rc<Counter>| Some(5))).unwrap();
    drain_one(&mut handle, &cell);
    handle.disconnect();
    assert_eq!(handle.collect(t), Some(Ok(5)));
}

#[test]
fn tickets_count_up() {
    let mut handle = ready::<Counter, ()>();
    assert!(handle.has_ticket_left());
    assert_eq!(handle.submit(action(|_p: Rc<Counter>| Some(()))), Ok(0));
    assert_eq!(handle.submit(action(|_p: Rc<Counter>| Some(()))), Ok(1));
    assert_eq!(handle.submit(action(|_p: Rc<Counter>| Some(()))), Ok(2));
}

#[test]
fn settle_maps_outcomes() {
    assert_eq!(settle_outcome(Some(3u8)), Ok(3));
    assert_eq!(settle_outcome::<u8>(None), Err(BridgeError::ActionFailed));
}

#[test]
fn cell_shares_its_payload() {
    let cell = OwnershipCell::new(Counter { counter: Cell::new(9) });
    let a = cell.share();
    let b = cell.share();
    a.counter.set(10);
    assert_eq!(b.counter.get(), 10);
    assert!(Rc::ptr_eq(&a, &b));
}

#[test]
fn cell_run_gives_the_action_result() {
    let cell = OwnershipCell::new(Counter { counter: Cell::new(2) });
    let r = cell.run(SendBoxFnOnce::new(|p: Rc<Counter>| Some(p.counter.get() * 3)));
    assert_eq!(r, Some(6));
    let failed: Option<u32> = cell.run(SendBoxFnOnce::new(|_p: Rc<Counter>| None));
    assert_eq!(failed, None);
}
