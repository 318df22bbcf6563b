use crate::resource::{release_order, ResourceContext};
use std::collections::VecDeque;
use vstd::prelude::*;

verus! {

/// A bounded FIFO queue of idle sandboxes. A lease takes the sandbox at the
/// front; ending it drains the lease's resource context and puts the sandbox
/// at the back.
pub struct Pool<S> {
    idle: VecDeque<S>,
}

/// One sandbox, held exclusively, with the resource context of the lease.
pub struct Lease<S, T> {
    pub sandbox: S,
    pub context: ResourceContext<T>,
}

impl<S> Pool<S> {
    pub closed spec fn idle(&self) -> Seq<S> {
        self.idle@
    }

    /// A pool holding the given sandboxes, in order.
    pub fn new(sandboxes: Vec<S>) -> (r: Self)
        ensures
            r.idle() == sandboxes@,
    {
        let mut idle: VecDeque<S> = VecDeque::new();
        let mut sandboxes = sandboxes;
        let ghost all = sandboxes@;
        proof {
            assert(idle@ + sandboxes@ =~= all);
        }
        while sandboxes.len() > 0
            invariant
                idle@ + sandboxes@ == all,
            decreases sandboxes@.len(),
        {
            let ghost before = sandboxes@;
            let s = sandboxes.remove(0);
            let ghost ib = idle@;
            idle.push_back(s);
            proof {
                assert(before =~= seq![s] + sandboxes@);
                assert(idle@ + sandboxes@ =~= ib + before);
            }
        }
        proof {
            assert(idle@ =~= all);
        }
        Pool { idle }
    }

    /// Takes the sandbox at the front of the queue with a fresh, empty
    /// resource context; `None` while every sandbox is leased.
    pub fn lease<T>(&mut self) -> (r: Option<Lease<S, T>>)
        ensures
            old(self).idle().len() == 0 ==> r is None && final(self).idle() == old(self).idle(),
            old(self).idle().len() > 0 ==> (r matches Some(l) && l.sandbox == old(self).idle()[0]
                && l.context.entries().len() == 0 && final(self).idle() == old(
                self,
            ).idle().drop_first()),
    {
        match self.idle.pop_front() {
            Some(sandbox) => Some(Lease { sandbox, context: ResourceContext::new() }),
            None => None,
        }
    }

    /// Ends a lease: its context is drained, and the sandbox goes back to
    /// the end of the queue. Returns what the context still held, in the
    /// order it must be released (last registered first).
    pub fn end_lease<T>(&mut self, lease: Lease<S, T>) -> (r: Vec<T>)
        ensures
            r@ == release_order(lease.context.entries()),
            final(self).idle() == old(self).idle().push(lease.sandbox),
    {
        let Lease { sandbox, context } = lease;
        let released = context.drain();
        self.idle.push_back(sandbox);
        released
    }
}

} // verus!
