//! A value shared by a single writer and a single reader: the writer puts values in
//! one after the other, and the reader takes out the latest.
//!
//! A pair is made for the values that a predicate admits. The writer puts in such
//! values only, so whatever the reader takes out is one of them.

use std::sync::Arc;
use vstd::prelude::*;
use vstd::rwlock::RwLock;

verus! {

/// The slot that a pair shares: the value that was written last and not read yet.
type Slot<T> = RwLock<Option<Box<T>>, spec_fn(Option<Box<T>>) -> bool>;

/// What a slot for the values that `pred` admits may hold: nothing, or one of them.
pub open spec fn holds_admitted<T>(pred: spec_fn(T) -> bool, held: Option<Box<T>>) -> bool {
    held matches Some(b) ==> pred(*b)
}

/// The reading end of a pair.
#[verifier::reject_recursive_types(T)]
pub struct Reader<T> {
    slot: Arc<Slot<T>>,
    pred: Ghost<spec_fn(T) -> bool>,
}

/// The writing end of a pair.
#[verifier::reject_recursive_types(T)]
pub struct Writer<T> {
    slot: Arc<Slot<T>>,
    pred: Ghost<spec_fn(T) -> bool>,
}

impl<T> Reader<T> {
    /// The predicate that the pair was made with.
    pub closed spec fn pred(&self) -> spec_fn(T) -> bool {
        self.pred@
    }

    /// The pair was made for the value `v`.
    pub open spec fn admits(&self, v: T) -> bool {
        (self.pred())(v)
    }

    /// The slot holds nothing or a value that the pair was made for.
    pub closed spec fn wf(&self) -> bool {
        forall|held: Option<Box<T>>|
            #[trigger] self.slot.inv(held) <==> holds_admitted(self.pred@, held)
    }

    /// Takes out the latest value, if one has been written since the last `read`. What
    /// it takes out is a value that the pair was made for.
    #[must_use]
    pub fn read(&mut self) -> (r: Option<Box<T>>)
        requires
            old(self).wf(),
        ensures
            final(self).wf(),
            final(self).pred() == old(self).pred(),
            r matches Some(b) ==> old(self).admits(*b),
    {
        let (value, handle) = self.slot.acquire_write();
        assert(self.slot.inv(value));
        assert(self.slot.inv(None));
        handle.release_write(None);
        value
    }
}

impl<T> Writer<T> {
    /// The predicate that the pair was made with.
    pub closed spec fn pred(&self) -> spec_fn(T) -> bool {
        self.pred@
    }

    /// The pair was made for the value `v`.
    pub open spec fn admits(&self, v: T) -> bool {
        (self.pred())(v)
    }

    /// The slot holds nothing or a value that the pair was made for.
    pub closed spec fn wf(&self) -> bool {
        forall|held: Option<Box<T>>|
            #[trigger] self.slot.inv(held) <==> holds_admitted(self.pred@, held)
    }

    /// Puts `val` in place of the value that has not been read, if there is one.
    pub fn write_boxed(&mut self, val: Box<T>)
        requires
            old(self).wf(),
            old(self).admits(*val),
        ensures
            final(self).wf(),
            final(self).pred() == old(self).pred(),
    {
        let (_, handle) = self.slot.acquire_write();
        assert(self.slot.inv(Some(val)));
        handle.release_write(Some(val));
    }

    /// Puts `val` in place of the value that has not been read, if there is one.
    pub fn write(&mut self, val: T)
        requires
            old(self).wf(),
            old(self).admits(val),
        ensures
            final(self).wf(),
            final(self).pred() == old(self).pred(),
    {
        self.write_boxed(Box::new(val))
    }
}

/// A writer and a reader that share one slot, which is empty, for the values that
/// `pred` admits.
pub fn new_pair_with<T>(Ghost(pred): Ghost<spec_fn(T) -> bool>) -> (r: (Writer<T>, Reader<T>))
    ensures
        r.0.wf(),
        r.1.wf(),
        r.0.pred() == pred,
        r.1.pred() == pred,
{
    let ghost held_admitted = |held: Option<Box<T>>| holds_admitted(pred, held);
    let slot: Arc<Slot<T>> = Arc::new(RwLock::new(None, Ghost(held_admitted)));
    (Writer { slot: slot.clone(), pred: Ghost(pred) }, Reader { slot, pred: Ghost(pred) })
}

/// The predicate that admits every value.
pub open spec fn every_value<T>() -> spec_fn(T) -> bool {
    |v: T| true
}

/// A writer and a reader that share one slot, which is empty, for every value.
pub fn new_pair<T>() -> (r: (Writer<T>, Reader<T>))
    ensures
        r.0.wf(),
        r.1.wf(),
        r.0.pred() == every_value::<T>(),
        r.1.pred() == every_value::<T>(),
{
    new_pair_with(Ghost(every_value::<T>()))
}

} // verus!
