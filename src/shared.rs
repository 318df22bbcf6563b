use crate::error::ErrorKind;
use vstd::prelude::*;

verus! {

/// A value held in a shared table. `Table` refers to another table of the
/// same store by its index.
#[derive(Debug)]
pub enum SharedValue {
    Nil,
    Bool(bool),
    Int(i64),
    Bytes(Vec<u8>),
    Table(usize),
}

/// One shared table: byte-string keys, each present once, and the array
/// flag that picks its JSON shape.
#[derive(Debug)]
pub struct SharedTable {
    pub entries: Vec<(Vec<u8>, SharedValue)>,
    pub array: bool,
}

/// The index of the entry under `key`, or -1.
pub open spec fn find_entry(entries: Seq<(Vec<u8>, SharedValue)>, key: Seq<u8>) -> int
    decreases entries.len(),
{
    if entries.len() == 0 {
        -1
    } else if entries.last().0@ == key {
        let k = find_entry(entries.drop_last(), key);
        if k < 0 {
            entries.len() - 1
        } else {
            k
        }
    } else {
        find_entry(entries.drop_last(), key)
    }
}

proof fn lemma_find_entry(entries: Seq<(Vec<u8>, SharedValue)>, key: Seq<u8>, i: int)
    requires
        0 <= i <= entries.len(),
        forall|j: int| 0 <= j < i ==> (#[trigger] entries[j]).0@ != key,
        i == entries.len() || entries[i].0@ == key,
    ensures
        find_entry(entries, key) == if i < entries.len() {
            i
        } else {
            -1
        },
    decreases entries.len(),
{
    if entries.len() > 0 {
        if i == entries.len() {
            lemma_find_entry(entries.drop_last(), key, i - 1);
        } else {
            lemma_find_entry(entries.drop_last(), key, i);
        }
    }
}

fn find_exec(entries: &Vec<(Vec<u8>, SharedValue)>, key: &[u8]) -> (r: usize)
    ensures
        r <= entries@.len(),
        r == entries@.len() ==> find_entry(entries@, key@) == -1,
        r < entries@.len() ==> find_entry(entries@, key@) == r,
{
    let mut i: usize = 0;
    while i < entries.len() && !bytes_equal(entries[i].0.as_slice(), key)
        invariant
            i <= entries@.len(),
            forall|j: int| 0 <= j < i ==> (#[trigger] entries@[j]).0@ != key@,
        decreases entries@.len() - i,
    {
        i = i + 1;
    }
    proof {
        lemma_find_entry(entries@, key@, i as int);
    }
    i
}

fn bytes_equal(a: &[u8], b: &[u8]) -> (r: bool)
    ensures
        r == (a@ == b@),
{
    if a.len() != b.len() {
        return false;
    }
    let mut i: usize = 0;
    while i < a.len()
        invariant
            a@.len() == b@.len(),
            i <= a@.len(),
            forall|j: int| 0 <= j < i ==> a@[j] == b@[j],
        decreases a@.len() - i,
    {
        if a[i] != b[i] {
            return false;
        }
        i = i + 1;
    }
    proof {
        assert(a@ =~= b@);
    }
    true
}

/// The entries after `key` is set to `value`: `Nil` removes the entry, an
/// existing entry is replaced in place, a new one goes at the end.
pub open spec fn set_entries(entries: Seq<(Vec<u8>, SharedValue)>, key: Vec<u8>, value: SharedValue) -> Seq<
    (Vec<u8>, SharedValue),
> {
    let k = find_entry(entries, key@);
    if value is Nil {
        if k < 0 {
            entries
        } else {
            entries.remove(k)
        }
    } else if k < 0 {
        entries.push((key, value))
    } else {
        entries.update(k, (key, value))
    }
}

/// A value refers only to tables of a store with `n` tables.
pub open spec fn value_in(v: SharedValue, n: int) -> bool {
    v matches SharedValue::Table(t) ==> t < n
}

/// A deep copy of a shared table, owned by the caller.
#[derive(Debug, PartialEq)]
pub enum PlainValue {
    Nil,
    Bool(bool),
    Int(i64),
    Bytes(Vec<u8>),
    Table(PlainTable),
}

#[derive(Debug, PartialEq)]
pub struct PlainTable {
    pub entries: Vec<(Vec<u8>, PlainValue)>,
    pub array: bool,
}

/// Following table references from `id`, within `fuel` steps, never comes
/// back to a table on the current path `path`.
pub open spec fn copyable(tables: Seq<SharedTable>, id: int, path: Seq<int>, fuel: nat) -> bool
    decreases fuel,
{
    if fuel == 0 || !(0 <= id < tables.len()) || path.contains(id) {
        false
    } else {
        forall|i: int|
            0 <= i < tables[id].entries@.len() ==> match #[trigger] tables[id].entries@[i].1 {
                SharedValue::Table(t) => copyable(tables, t as int, path.push(id), (fuel - 1) as nat),
                _ => true,
            }
    }
}

/// `v` copies table `id`: the same flag, the same keys in the same order,
/// equal scalars, and nested tables copied in turn.
pub open spec fn copy_of(v: PlainTable, tables: Seq<SharedTable>, id: int, fuel: nat) -> bool
    decreases fuel,
{
    if fuel == 0 || !(0 <= id < tables.len()) {
        false
    } else {
        &&& v.array == tables[id].array
        &&& v.entries@.len() == tables[id].entries@.len()
        &&& forall|i: int|
            0 <= i < v.entries@.len() ==> (#[trigger] v.entries@[i]).0@ == tables[id].entries@[i].0@
                && match (v.entries@[i].1, tables[id].entries@[i].1) {
                (PlainValue::Nil, SharedValue::Nil) => true,
                (PlainValue::Bool(a), SharedValue::Bool(b)) => a == b,
                (PlainValue::Int(a), SharedValue::Int(b)) => a == b,
                (PlainValue::Bytes(a), SharedValue::Bytes(b)) => a@ == b@,
                (PlainValue::Table(p), SharedValue::Table(t)) => copy_of(p, tables, t as int, (fuel - 1) as nat),
                _ => false,
            }
    }
}

pub open spec fn path_view(p: Seq<usize>) -> Seq<int> {
    p.map_values(|x: usize| x as int)
}

fn on_path(path: &Vec<usize>, id: usize) -> (r: bool)
    ensures
        r == path_view(path@).contains(id as int),
{
    let mut i: usize = 0;
    while i < path.len()
        invariant
            i <= path@.len(),
            forall|j: int| 0 <= j < i ==> path@[j] != id,
        decreases path@.len() - i,
    {
        if path[i] == id {
            proof {
                assert(path_view(path@)[i as int] == id as int);
            }
            return true;
        }
        i = i + 1;
    }
    proof {
        if path_view(path@).contains(id as int) {
            let j = choose|j: int| 0 <= j < path_view(path@).len() && path_view(path@)[j] == id as int;
            assert(path@[j] == id);
        }
    }
    false
}

fn copy_bytes(b: &Vec<u8>) -> (r: Vec<u8>)
    ensures
        r@ == b@,
{
    let mut r: Vec<u8> = Vec::new();
    let mut i: usize = 0;
    while i < b.len()
        invariant
            i <= b@.len(),
            r@ == b@.subrange(0, i as int),
        decreases b@.len() - i,
    {
        r.push(b[i]);
        i = i + 1;
        proof {
            assert(r@ =~= b@.subrange(0, i as int));
        }
    }
    proof {
        assert(r@ =~= b@);
    }
    r
}

/// Every shared table, by index. Tables are never freed while the store
/// lives, so an index stays valid.
pub struct SharedStore {
    tables: Vec<SharedTable>,
}

impl SharedStore {
    pub closed spec fn tables(&self) -> Seq<SharedTable> {
        self.tables@
    }

    pub open spec fn entries_of(&self, id: int) -> Seq<(Vec<u8>, SharedValue)> {
        self.tables()[id].entries@
    }

    pub open spec fn array_of(&self, id: int) -> bool {
        self.tables()[id].array
    }

    /// Every reference held in the store is to a table of the store.
    pub open spec fn wf(&self) -> bool {
        forall|id: int, i: int|
            0 <= id < self.tables().len() && 0 <= i < self.entries_of(id).len() ==> value_in(
                #[trigger] self.entries_of(id)[i].1,
                self.tables().len() as int,
            )
    }

    pub fn new() -> (r: Self)
        ensures
            r.wf(),
            r.tables().len() == 0,
    {
        SharedStore { tables: Vec::new() }
    }

    /// A new empty table, not an array; its index is returned.
    pub fn create(&mut self) -> (r: usize)
        requires
            old(self).wf(),
            old(self).tables().len() < usize::MAX,
        ensures
            final(self).wf(),
            r == old(self).tables().len(),
            final(self).tables().len() == old(self).tables().len() + 1,
            final(self).entries_of(r as int).len() == 0,
            !final(self).array_of(r as int),
            forall|id: int| 0 <= id < old(self).tables().len() ==> final(self).tables()[id] == old(
                self,
            ).tables()[id],
    {
        let r = self.tables.len();
        self.tables.push(SharedTable { entries: Vec::new(), array: false });
        proof {
            assert forall|id: int, i: int|
                0 <= id < self.tables().len() && 0 <= i < self.entries_of(id).len() implies value_in(
                #[trigger] self.entries_of(id)[i].1,
                self.tables().len() as int,
            ) by {
                assert(id < old(self).tables().len());
                assert(self.entries_of(id) == old(self).entries_of(id));
            }
        }
        r
    }

    /// The number of entries of table `id`.
    pub fn len(&self, id: usize) -> (r: usize)
        requires
            id < self.tables().len(),
        ensures
            r == self.entries_of(id as int).len(),
    {
        self.tables[id].entries.len()
    }

    /// The value under `key` in table `id`; `None` reads as nil.
    pub fn get(&self, id: usize, key: &[u8]) -> (r: Option<&SharedValue>)
        requires
            id < self.tables().len(),
        ensures
            find_entry(self.entries_of(id as int), key@) < 0 ==> r is None,
            find_entry(self.entries_of(id as int), key@) >= 0 ==> r == Some(
                &self.entries_of(id as int)[find_entry(self.entries_of(id as int), key@)].1,
            ),
    {
        let t = &self.tables[id];
        let k = find_exec(&t.entries, key);
        if k == t.entries.len() {
            None
        } else {
            Some(&t.entries[k].1)
        }
    }

    pub fn is_array(&self, id: usize) -> (r: bool)
        requires
            id < self.tables().len(),
        ensures
            r == self.array_of(id as int),
    {
        self.tables[id].array
    }

    /// Marks table `id` as an array, or not; its identity stays.
    pub fn set_array(&mut self, id: usize, array: bool)
        requires
            old(self).wf(),
            id < old(self).tables().len(),
        ensures
            final(self).wf(),
            final(self).tables().len() == old(self).tables().len(),
            final(self).array_of(id as int) == array,
            final(self).entries_of(id as int) == old(self).entries_of(id as int),
            forall|j: int| 0 <= j < old(self).tables().len() && j != id ==> final(self).tables()[j]
                == old(self).tables()[j],
    {
        let mut t = self.tables.remove(id);
        t.array = array;
        self.tables.insert(id, t);
        proof {
            assert forall|j: int| 0 <= j < old(self).tables().len() && j != id implies self.tables()[j]
                == old(self).tables()[j] by {}
            assert forall|j: int, i: int|
                0 <= j < self.tables().len() && 0 <= i < self.entries_of(j).len() implies value_in(
                #[trigger] self.entries_of(j)[i].1,
                self.tables().len() as int,
            ) by {
                assert(self.entries_of(j) == old(self).entries_of(j));
            }
        }
    }

    /// Sets `key` in table `id`; `Nil` removes the entry.
    pub fn set(&mut self, id: usize, key: Vec<u8>, value: SharedValue)
        requires
            old(self).wf(),
            id < old(self).tables().len(),
            value_in(value, old(self).tables().len() as int),
        ensures
            final(self).wf(),
            final(self).tables().len() == old(self).tables().len(),
            final(self).entries_of(id as int) == set_entries(old(self).entries_of(id as int), key, value),
            final(self).array_of(id as int) == old(self).array_of(id as int),
            forall|j: int| 0 <= j < old(self).tables().len() && j != id ==> final(self).tables()[j]
                == old(self).tables()[j],
    {
        let mut t = self.tables.remove(id);
        let ghost before = t.entries@;
        let k = find_exec(&t.entries, key.as_slice());
        let is_nil = matches!(value, SharedValue::Nil);
        if is_nil {
            if k < t.entries.len() {
                t.entries.remove(k);
            }
        } else if k == t.entries.len() {
            t.entries.push((key, value));
        } else {
            t.entries.set(k, (key, value));
        }
        self.tables.insert(id, t);
        proof {
            assert(self.entries_of(id as int) =~= set_entries(before, key, value));
            assert forall|j: int| 0 <= j < old(self).tables().len() && j != id implies self.tables()[j]
                == old(self).tables()[j] by {}
            assert forall|j: int, i: int|
                0 <= j < self.tables().len() && 0 <= i < self.entries_of(j).len() implies value_in(
                #[trigger] self.entries_of(j)[i].1,
                self.tables().len() as int,
            ) by {
                if j != id {
                    assert(self.entries_of(j) == old(self).entries_of(j));
                } else {
                    let e = self.entries_of(j)[i];
                    if e.1 != value {
                        let k2 = find_entry(before, key@);
                        if is_nil {
                            if k2 < 0 {
                                assert(e == before[i]);
                            } else if i < k2 {
                                assert(e == before[i]);
                            } else {
                                assert(e == before[i + 1]);
                            }
                        } else if k2 >= 0 && i != k2 {
                            assert(e == before[i]);
                        } else if k2 < 0 {
                            assert(e == before[i]);
                        }
                    }
                }
            }
        }
    }

    /// Copies table `id` and every table it reaches into an owned tree.
    /// Fails with `CycleDetected` when following references from `id` comes
    /// back to a table already on the way: a cycle is never copied.
    pub fn deep_copy(&self, id: usize) -> (r: Result<PlainTable, ErrorKind>)
        requires
            self.wf(),
            id < self.tables().len(),
        ensures
            r is Ok <==> copyable(self.tables(), id as int, seq![], self.tables().len()),
            r matches Ok(v) ==> copy_of(v, self.tables(), id as int, self.tables().len()),
            r is Err ==> r matches Err(ErrorKind::CycleDetected),
    {
        let mut path: Vec<usize> = Vec::new();
        proof {
            assert(path_view(path@) =~= seq![]);
        }
        self.deep_copy_at(id, &mut path, self.tables.len())
    }

    fn deep_copy_at(&self, id: usize, path: &mut Vec<usize>, fuel: usize) -> (r: Result<
        PlainTable,
        ErrorKind,
    >)
        requires
            self.wf(),
            id < self.tables().len(),
            old(path)@.len() + fuel <= usize::MAX,
        ensures
            final(path)@ == old(path)@,
            r is Ok <==> copyable(self.tables(), id as int, path_view(old(path)@), fuel as nat),
            r matches Ok(v) ==> copy_of(v, self.tables(), id as int, fuel as nat),
            r is Err ==> r matches Err(ErrorKind::CycleDetected),
        decreases fuel,
    {
        if fuel == 0 || on_path(path, id) {
            return Err(ErrorKind::CycleDetected);
        }
        let ghost pv = path_view(path@);
        let ghost old_path = path@;
        path.push(id);
        proof {
            assert(path_view(path@) =~= pv.push(id as int));
        }
        let entries = &self.tables[id].entries;
        let mut out: Vec<(Vec<u8>, PlainValue)> = Vec::new();
        let mut i: usize = 0;
        while i < entries.len()
            invariant
                self.wf(),
                id < self.tables().len(),
                0 < fuel,
                *entries == self.tables()[id as int].entries,
                old_path == old(path)@,
                pv == path_view(old_path),
                path@ == old_path.push(id),
                path_view(path@) == pv.push(id as int),
                old_path.len() + fuel <= usize::MAX,
                i <= entries@.len(),
                out@.len() == i,
                forall|j: int| 0 <= j < i ==> match #[trigger] entries@[j].1 {
                    SharedValue::Table(t) => copyable(self.tables(), t as int, pv.push(id as int), (fuel - 1) as nat),
                    _ => true,
                },
                forall|j: int| 0 <= j < i ==> (#[trigger] out@[j]).0@ == entries@[j].0@
                    && match (out@[j].1, entries@[j].1) {
                    (PlainValue::Nil, SharedValue::Nil) => true,
                    (PlainValue::Bool(a), SharedValue::Bool(b)) => a == b,
                    (PlainValue::Int(a), SharedValue::Int(b)) => a == b,
                    (PlainValue::Bytes(a), SharedValue::Bytes(b)) => a@ == b@,
                    (PlainValue::Table(p), SharedValue::Table(t)) => copy_of(p, self.tables(), t as int, (fuel - 1) as nat),
                    _ => false,
                },
            decreases entries@.len() - i,
        {
            let key = copy_bytes(&entries[i].0);
            let v = match &entries[i].1 {
                SharedValue::Nil => PlainValue::Nil,
                SharedValue::Bool(b) => PlainValue::Bool(*b),
                SharedValue::Int(n) => PlainValue::Int(*n),
                SharedValue::Bytes(b) => PlainValue::Bytes(copy_bytes(b)),
                SharedValue::Table(t) => {
                    proof {
                        assert(value_in(self.entries_of(id as int)[i as int].1, self.tables().len() as int));
                    }
                    match self.deep_copy_at(*t, path, fuel - 1) {
                        Ok(p) => PlainValue::Table(p),
                        Err(e) => {
                            path.pop();
                            proof {
                                assert(path@ =~= old_path);
                                assert(!copyable(self.tables(), id as int, pv, fuel as nat)) by {
                                    assert(!match self.tables()[id as int].entries@[i as int].1 {
                                        SharedValue::Table(t) => copyable(self.tables(), t as int, pv.push(id as int), (fuel - 1) as nat),
                                        _ => true,
                                    });
                                }
                            }
                            return Err(e);
                        },
                    }
                },
            };
            out.push((key, v));
            i = i + 1;
        }
        path.pop();
        proof {
            assert(path@ =~= old_path);
        }
        let r = PlainTable { entries: out, array: self.tables[id].array };
        proof {
            assert(copy_of(r, self.tables(), id as int, fuel as nat));
        }
        Ok(r)
    }
}

} // verus!
