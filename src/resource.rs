use crate::error::ErrorKind;
use vstd::prelude::*;

verus! {

/// The entries still open, last registered first: the order of release.
pub open spec fn release_order<T>(s: Seq<Option<T>>) -> Seq<T>
    decreases s.len(),
{
    if s.len() == 0 {
        Seq::empty()
    } else {
        let rest = release_order(s.drop_last());
        match s.last() {
            Some(t) => seq![t] + rest,
            None => rest,
        }
    }
}

/// The host resources registered during one lease. Registration appends;
/// an entry closed explicitly is `None`; the context is drained once, when
/// the lease ends, releasing what is still open in reverse order.
pub struct ResourceContext<T> {
    entries: Vec<Option<T>>,
}

impl<T> ResourceContext<T> {
    pub closed spec fn entries(&self) -> Seq<Option<T>> {
        self.entries@
    }

    pub fn new() -> (r: Self)
        ensures
            r.entries().len() == 0,
    {
        ResourceContext { entries: Vec::new() }
    }

    /// Registers a resource; the index returned names it in this context.
    pub fn register(&mut self, resource: T) -> (r: usize)
        requires
            old(self).entries().len() < usize::MAX,
        ensures
            r == old(self).entries().len(),
            final(self).entries() == old(self).entries().push(Some(resource)),
    {
        let r = self.entries.len();
        self.entries.push(Some(resource));
        r
    }

    /// How many resources were registered.
    pub fn len(&self) -> (r: usize)
        ensures
            r == self.entries().len(),
    {
        self.entries.len()
    }

    /// The open resource named by `index`, to work on in place.
    pub fn get_mut(&mut self, index: usize) -> (r: Result<&mut T, ErrorKind>)
        ensures
            old(self).entries().len() <= index || old(self).entries()[index as int] is None ==> {
                &&& r matches Err(ErrorKind::UseAfterClose)
                &&& final(self).entries() == old(self).entries()
            },
            index < old(self).entries().len() && old(self).entries()[index as int] is Some ==> {
                &&& r is Ok
                &&& *r->Ok_0 == old(self).entries()[index as int]->Some_0
                &&& final(self).entries() == old(self).entries().update(index as int, Some(*final(r->Ok_0)))
            },
    {
        if index >= self.entries.len() || self.entries[index].is_none() {
            return Err(ErrorKind::UseAfterClose);
        }
        match self.entries[index].as_mut() {
            Some(t) => Ok(t),
            None => Err(ErrorKind::UseAfterClose),
        }
    }

    /// Whether the resource named by `index` is still open.
    pub fn is_open(&self, index: usize) -> (r: bool)
        ensures
            r == (index < self.entries().len() && self.entries()[index as int] is Some),
    {
        index < self.entries.len() && self.entries[index].is_some()
    }

    /// Closes a resource from the script's side: it is handed back to be
    /// released now, and the drain will skip it. A resource already closed
    /// gives `UseAfterClose`.
    pub fn close(&mut self, index: usize) -> (r: Result<T, ErrorKind>)
        ensures
            old(self).entries().len() <= index || old(self).entries()[index as int] is None ==> {
                &&& r matches Err(ErrorKind::UseAfterClose)
                &&& final(self).entries() == old(self).entries()
            },
            index < old(self).entries().len() && old(self).entries()[index as int] is Some ==> {
                &&& r == Ok::<T, ErrorKind>(old(self).entries()[index as int]->Some_0)
                &&& final(self).entries() == old(self).entries().update(index as int, None)
            },
    {
        if index >= self.entries.len() || self.entries[index].is_none() {
            return Err(ErrorKind::UseAfterClose);
        }
        let mut entries = Vec::new();
        std::mem::swap(&mut entries, &mut self.entries);
        let mut tail = entries.split_off(index);
        let old_slot = tail.remove(0);
        tail.insert(0, None);
        entries.append(&mut tail);
        std::mem::swap(&mut entries, &mut self.entries);
        proof {
            assert(self.entries@ =~= old(self).entries().update(index as int, None));
        }
        match old_slot {
            Some(t) => Ok(t),
            None => Err(ErrorKind::UseAfterClose),
        }
    }

    /// Ends the context: every resource still open is handed back, last
    /// registered first, and nothing stays registered.
    pub fn drain(self) -> (r: Vec<T>)
        ensures
            r@ == release_order(self.entries()),
    {
        let mut entries = self.entries;
        let mut r: Vec<T> = Vec::new();
        while entries.len() > 0
            invariant
                r@ + release_order(entries@) == release_order(self.entries()),
            decreases entries@.len(),
        {
            let ghost before = entries@;
            let last = entries.pop();
            proof {
                assert(entries@ =~= before.drop_last());
            }
            match last {
                Some(Some(t)) => {
                    let ghost rr = r@;
                    r.push(t);
                    proof {
                        assert(r@ + release_order(entries@) =~= rr + release_order(before));
                    }
                },
                _ => {},
            }
        }
        proof {
            assert(r@ + release_order(entries@) =~= r@);
        }
        r
    }
}

} // verus!
