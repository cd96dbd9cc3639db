use std::collections::VecDeque;
use vstd::prelude::*;

verus! {

/// A first-in first-out queue of pending provider requests, shared by the
/// account, match-ID and match-detail workers. The caller guards it with a
/// lock held only around `push` and `pop`.
#[derive(Debug)]
pub struct RequestQueue<T> {
    items: VecDeque<T>,
}

impl<T> View for RequestQueue<T> {
    type V = Seq<T>;

    closed spec fn view(&self) -> Seq<T> {
        self.items@
    }
}

impl<T> RequestQueue<T> {
    /// An empty queue.
    pub fn new() -> (r: RequestQueue<T>)
        ensures
            r@ == Seq::<T>::empty(),
    {
        RequestQueue { items: VecDeque::new() }
    }

    /// Appends one request.
    pub fn push(&mut self, item: T)
        ensures
            final(self)@ == old(self)@.push(item),
    {
        self.items.push_back(item);
    }

    /// Appends a batch of requests, keeping their order.
    pub fn extend(&mut self, items: Vec<T>)
        ensures
            final(self)@ == old(self)@ + items@,
    {
        let mut rest = items;
        let ghost all = rest@;
        while rest.len() > 0
            invariant
                self@ + rest@ == old(self)@ + all,
            decreases rest@.len(),
        {
            let ghost before = self@;
            let ghost pending = rest@;
            let item = rest.remove(0);
            self.items.push_back(item);
            assert(self@ + rest@ =~= before + pending);
        }
        assert(self@ + rest@ =~= self@);
    }

    /// Takes the oldest request, if any.
    pub fn pop(&mut self) -> (r: Option<T>)
        ensures
            old(self)@.len() == 0 ==> r is None && final(self)@ == old(self)@,
            old(self)@.len() > 0 ==> r == Some(old(self)@[0]) && final(self)@ == old(self)@.drop_first(),
    {
        self.items.pop_front()
    }

    /// The number of pending requests.
    pub fn len(&self) -> (r: usize)
        ensures
            r == self@.len(),
    {
        self.items.len()
    }

    /// Whether no request is pending.
    pub fn is_empty(&self) -> (r: bool)
        ensures
            r == (self@.len() == 0),
    {
        self.items.len() == 0
    }
}

} // verus!
