//! The single-consumer event channel's buffer: an unbounded first-in
//! first-out queue that remembers, as ghost state, every item ever pushed.
//! The history makes the channel's ordering guarantee a stated fact: the
//! k-th item popped is exactly the k-th item ever pushed.
use vstd::prelude::*;

verus! {

/// An unbounded FIFO queue of items of type `T`.
///
/// `history()` is the sequence of every item ever pushed, `read_count()`
/// how many of them have already been popped, and `pending()` the suffix
/// still waiting. Pops always return `history()[read_count()]`, so a
/// reader observes items in exactly the order they were enqueued.
pub struct Queue<T> {
    items: Vec<T>,
    hist: Ghost<Seq<T>>,
}

impl<T> Queue<T> {
    /// All items ever pushed, oldest first.
    pub closed spec fn history(&self) -> Seq<T> {
        self.hist@
    }

    /// The items pushed but not yet popped, oldest first.
    pub closed spec fn pending(&self) -> Seq<T> {
        self.items@
    }

    /// How many items have been popped so far.
    pub open spec fn read_count(&self) -> int {
        self.history().len() - self.pending().len()
    }

    /// The queue's invariant: what is pending is exactly the unread
    /// suffix of the history. `new` establishes it; `push` and `pop`
    /// preserve it.
    pub closed spec fn wf(&self) -> bool {
        &&& self.items@.len() <= self.hist@.len()
        &&& self.items@ == self.hist@.skip(self.hist@.len() - self.items@.len())
    }

    pub fn new() -> (q: Self)
        ensures
            q.wf(),
            q.history() == Seq::<T>::empty(),
            q.pending() == Seq::<T>::empty(),
    {
        let q = Queue { items: Vec::new(), hist: Ghost(Seq::empty()) };
        proof {
            assert(q.items@ =~= q.hist@.skip(q.hist@.len() - q.items@.len()));
        }
        q
    }

    /// Enqueue one item at the back.
    pub fn push(&mut self, item: T)
        requires
            old(self).wf(),
        ensures
            final(self).wf(),
            final(self).history() == old(self).history().push(item),
            final(self).pending() == old(self).pending().push(item),
    {
        let ghost h = self.hist@;
        self.items.push(item);
        self.hist = Ghost(h.push(item));
        proof {
            assert(self.items@ == self.hist@.skip(self.hist@.len() - self.items@.len()));
        }
    }

    /// Dequeue the oldest pending item; `None` when nothing is pending.
    /// The item returned is always `history()[read_count()]`: strict FIFO.
    pub fn pop(&mut self) -> (r: Option<T>)
        requires
            old(self).wf(),
        ensures
            final(self).wf(),
            final(self).history() == old(self).history(),
            old(self).pending().len() == 0 ==> {
                &&& r is None
                &&& final(self).pending() == old(self).pending()
            },
            old(self).pending().len() > 0 ==> {
                &&& r == Some(old(self).history()[old(self).read_count()])
                &&& r == Some(old(self).pending()[0])
                &&& final(self).pending() == old(self).pending().drop_first()
            },
    {
        if self.items.len() == 0 {
            None
        } else {
            let item = self.items.remove(0);
            proof {
                assert(self.items@ == self.hist@.skip(self.hist@.len() - self.items@.len()));
            }
            Some(item)
        }
    }

    /// What is pending is the suffix of the history that begins at the
    /// read position.
    pub proof fn lemma_pending_suffix(&self)
        requires
            self.wf(),
        ensures
            self.pending().len() <= self.history().len(),
            self.pending() == self.history().skip(self.read_count()),
    {
    }

    /// Whether any item is pending.
    pub fn is_empty(&self) -> (r: bool)
        ensures
            r <==> self.pending().len() == 0,
    {
        self.items.len() == 0
    }
}

} // verus!
