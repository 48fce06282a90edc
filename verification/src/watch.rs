//! Queues between tasks.

use vstd::prelude::*;

verus! {

/// A queue whose other end may go away.
#[derive(Debug)]
pub struct Queue<T> {
    pub items: Vec<T>,
    /// Whether somebody is at the other end.
    pub open: bool,
}

impl<T> View for Queue<T> {
    type V = Seq<T>;

    open spec fn view(&self) -> Seq<T> {
        self.items@
    }
}

impl<T> Queue<T> {
    /// A queue with nothing in it.
    pub fn new() -> (r: Queue<T>)
        ensures
            r@ == Seq::<T>::empty(),
            r.open,
    {
        Queue { items: Vec::new(), open: true }
    }

    /// Puts an item at the end. It comes back where nobody is at the other end.
    pub fn push(&mut self, item: T) -> (r: Result<(), T>)
        ensures
            final(self).open == old(self).open,
            if old(self).open {
                r is Ok && final(self)@ == old(self)@.push(item)
            } else {
                r == Err::<(), T>(item) && final(self)@ == old(self)@
            },
    {
        if self.open {
            self.items.push(item);
            Ok(())
        } else {
            Err(item)
        }
    }

    /// Takes the item in front.
    pub fn pop(&mut self) -> (r: Option<T>)
        ensures
            final(self).open == old(self).open,
            if old(self)@.len() > 0 {
                r == Some(old(self)@[0]) && final(self)@ == old(self)@.skip(1)
            } else {
                r is None && final(self)@ == old(self)@
            },
    {
        if self.items.len() == 0 {
            return None;
        }
        let item: T = self.items.remove(0);
        assert(self@ == old(self)@.skip(1));
        Some(item)
    }
}

/// What is put in while somebody is at the other end comes out again, the first first,
/// and once. Otherwise it comes back and nothing changes.
pub proof fn items_come_out_in_order<T>(
    q: &mut Queue<T>,
    a: T,
    ra: Result<(), T>,
    p: &mut Queue<T>,
    b: T,
    rb: Result<(), T>,
    s: &mut Queue<T>,
    first: Option<T>,
    t: &mut Queue<T>,
    second: Option<T>,
    u: &mut Queue<T>,
    third: Option<T>,
)
    requires
        call_ensures(Queue::<T>::push, (q, a), ra),
        *old(p) == *final(q),
        call_ensures(Queue::<T>::push, (p, b), rb),
        *old(s) == *final(p),
        call_ensures(Queue::<T>::pop, (s,), first),
        *old(t) == *final(s),
        call_ensures(Queue::<T>::pop, (t,), second),
        *old(u) == *final(t),
        call_ensures(Queue::<T>::pop, (u,), third),
    ensures
        old(q).open && old(q).items@.len() == 0 ==> ra is Ok && rb is Ok && first == Some(a)
            && second == Some(b) && third is None,
        old(q).open && old(q).items@.len() > 0 ==> first == Some(old(q).items@[0])
            && final(p).items@.len() == old(q).items@.len() + 2,
        !old(q).open ==> ra == Err::<(), T>(a) && rb == Err::<(), T>(b)
            && final(p).items@ == old(q).items@,
        final(u).open == old(q).open,
{
}

/// A new queue is empty, and somebody is at the other end.
pub proof fn a_queue_starts_empty<T>(q: Queue<T>)
    requires
        call_ensures(Queue::<T>::new, (), q),
    ensures
        q.items@.len() == 0,
        q.open,
{
}

} // verus!
