use crate::error::ErrorKind;
use crate::path::{normalize, normalize_path};
use vstd::prelude::*;

verus! {

/// The two kinds of access that a permission atom grants.
#[derive(Debug, Clone, Copy, PartialEq, Eq, Structural)]
pub enum Access {
    Read,
    Write,
}

/// A granted capability: `access` to every host path under `path`, kept as
/// normalized components.
#[derive(Debug)]
pub struct Permission {
    pub access: Access,
    pub path: Vec<Vec<u8>>,
}

pub open spec fn is_prefix(a: Seq<Seq<u8>>, b: Seq<Seq<u8>>) -> bool {
    a.len() <= b.len() && b.subrange(0, a.len() as int) == a
}

impl Permission {
    /// A permission for the host path `path`, normalized.
    pub fn new(access: Access, path: &[u8]) -> (r: Self)
        ensures
            r.access == access,
            r.path.deep_view() == normalize(path@),
    {
        Permission { access, path: normalize_path(path) }
    }

    /// This atom grants `access` on the normalized path `path`.
    pub open spec fn grants(&self, access: Access, path: Seq<Seq<u8>>) -> bool {
        self.access == access && is_prefix(self.path.deep_view(), path)
    }
}

/// An immutable set of permission atoms.
#[derive(Debug)]
pub struct PermissionSet {
    atoms: Vec<Permission>,
}

fn bytes_eq(a: &Vec<u8>, b: &Vec<u8>) -> (r: bool)
    ensures
        r == (a@ == b@),
{
    if a.len() != b.len() {
        return false;
    }
    let mut i: usize = 0;
    while i < a.len()
        invariant
            a@.len() == b@.len(),
            i <= a@.len(),
            forall|j: int| 0 <= j < i ==> a@[j] == b@[j],
        decreases a@.len() - i,
    {
        if a[i] != b[i] {
            return false;
        }
        i = i + 1;
    }
    proof {
        assert(a@ =~= b@);
    }
    true
}

fn components_prefix(a: &Vec<Vec<u8>>, b: &Vec<Vec<u8>>) -> (r: bool)
    ensures
        r == is_prefix(a.deep_view(), b.deep_view()),
{
    if a.len() > b.len() {
        return false;
    }
    let mut i: usize = 0;
    while i < a.len()
        invariant
            a@.len() <= b@.len(),
            i <= a@.len(),
            forall|j: int| 0 <= j < i ==> a.deep_view()[j] == b.deep_view()[j],
        decreases a@.len() - i,
    {
        proof {
            assert(a@[i as int].deep_view() =~= a@[i as int]@);
            assert(b@[i as int].deep_view() =~= b@[i as int]@);
        }
        if !bytes_eq(&a[i], &b[i]) {
            proof {
                assert(a.deep_view()[i as int] != b.deep_view().subrange(0, a@.len() as int)[i as int]);
            }
            return false;
        }
        i = i + 1;
    }
    proof {
        assert(b.deep_view().subrange(0, a@.len() as int) =~= a.deep_view());
    }
    true
}

impl PermissionSet {
    pub closed spec fn atoms(&self) -> Seq<Permission> {
        self.atoms@
    }

    pub fn new(atoms: Vec<Permission>) -> (r: Self)
        ensures
            r.atoms() == atoms@,
    {
        PermissionSet { atoms }
    }

    /// Some atom of the set grants `access` on `path`.
    pub open spec fn allows(&self, access: Access, path: Seq<Seq<u8>>) -> bool {
        exists|i: int| 0 <= i < self.atoms().len() && (#[trigger] self.atoms()[i]).grants(access, path)
    }

    /// Succeeds when an atom grants `access` on the normalized host path
    /// `path`; otherwise `PermissionDenied`.
    pub fn check(&self, access: Access, path: &Vec<Vec<u8>>) -> (r: Result<(), ErrorKind>)
        ensures
            r is Ok <==> self.allows(access, path.deep_view()),
            r is Err ==> r matches Err(ErrorKind::PermissionDenied),
    {
        let mut i: usize = 0;
        while i < self.atoms.len()
            invariant
                i <= self.atoms@.len(),
                forall|j: int| 0 <= j < i ==> !(#[trigger] self.atoms()[j]).grants(access, path.deep_view()),
            decreases self.atoms@.len() - i,
        {
            let atom = &self.atoms[i];
            if atom.access == access && components_prefix(&atom.path, path) {
                return Ok(());
            }
            i = i + 1;
        }
        Err(ErrorKind::PermissionDenied)
    }
}

} // verus!
