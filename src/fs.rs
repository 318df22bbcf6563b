use crate::error::ErrorKind;
use crate::path::{normalize, normalize_path};
use crate::permission::{Access, PermissionSet};
use vstd::prelude::*;

verus! {

pub const COLON: u8 = 58;

pub const NEWLINE: u8 = 10;

pub const CARRIAGE_RETURN: u8 = 13;

/// Whether the bytes are valid UTF-8.
pub uninterp spec fn utf8_valid(b: Seq<u8>) -> bool;

/// Relies on std::str::from_utf8: it succeeds exactly on valid UTF-8, and
/// ASCII bytes are valid UTF-8.
#[verifier::external_body]
fn is_utf8(b: &[u8]) -> (r: bool)
    ensures
        r == utf8_valid(b@),
        (forall|i: int| 0 <= i < b@.len() ==> b@[i] < 128) ==> r,
{
    std::str::from_utf8(b).is_ok()
}

fn eq_bytes(a: &[u8], b: &[u8]) -> (r: bool)
    ensures
        r == (a@ == b@),
{
    if a.len() != b.len() {
        return false;
    }
    let mut i: usize = 0;
    while i < a.len()
        invariant
            a@.len() == b@.len(),
            i <= a@.len(),
            forall|j: int| 0 <= j < i ==> a@[j] == b@[j],
        decreases a@.len() - i,
    {
        if a[i] != b[i] {
            return false;
        }
        i = i + 1;
    }
    proof {
        assert(a@ =~= b@);
    }
    true
}

pub open spec fn lit_local() -> Seq<u8> {
    seq![108u8, 111u8, 99u8, 97u8, 108u8]
}

pub open spec fn lit_external() -> Seq<u8> {
    seq![101u8, 120u8, 116u8, 101u8, 114u8, 110u8, 97u8, 108u8]
}

pub open spec fn lit_source() -> Seq<u8> {
    seq![115u8, 111u8, 117u8, 114u8, 99u8, 101u8]
}

/// The index of the first `:` in `s`, or -1.
pub open spec fn first_colon(s: Seq<u8>) -> int
    decreases s.len(),
{
    if s.len() == 0 {
        -1
    } else if s[0] == COLON {
        0
    } else {
        let k = first_colon(s.drop_first());
        if k < 0 {
            -1
        } else {
            k + 1
        }
    }
}

/// A path's scheme and the rest: split at the first `:`; without one, the
/// scheme is `local`.
pub open spec fn split_scheme_spec(s: Seq<u8>) -> (Seq<u8>, Seq<u8>) {
    let k = first_colon(s);
    if k < 0 {
        (lit_local(), s)
    } else {
        (s.subrange(0, k), s.subrange(k + 1, s.len() as int))
    }
}

proof fn lemma_first_colon(s: Seq<u8>, i: int)
    requires
        0 <= i <= s.len(),
        forall|j: int| 0 <= j < i ==> s[j] != COLON,
        i == s.len() || s[i] == COLON,
    ensures
        first_colon(s) == if i < s.len() {
            i
        } else {
            -1
        },
    decreases s.len(),
{
    if s.len() > 0 && i > 0 {
        assert(s[0] != COLON);
        assert forall|j: int| 0 <= j < i - 1 implies s.drop_first()[j] != COLON by {
            assert(s.drop_first()[j] == s[j + 1]);
        }
        lemma_first_colon(s.drop_first(), i - 1);
    }
}

/// The bytes of `s` from `from` up to `to`.
pub fn copy_range(s: &[u8], from: usize, to: usize) -> (r: Vec<u8>)
    requires
        from <= to <= s@.len(),
    ensures
        r@ == s@.subrange(from as int, to as int),
{
    let mut r: Vec<u8> = Vec::new();
    let mut j: usize = from;
    while j < to
        invariant
            from <= j <= to <= s@.len(),
            r@ == s@.subrange(from as int, j as int),
        decreases to - j,
    {
        r.push(s[j]);
        j = j + 1;
        proof {
            assert(r@ =~= s@.subrange(from as int, j as int));
        }
    }
    r
}

/// Splits `scheme:rest` at its first colon; a path without one is `local`.
pub fn split_scheme(path: &[u8]) -> (r: (Vec<u8>, Vec<u8>))
    ensures
        (r.0@, r.1@) == split_scheme_spec(path@),
{
    let mut i: usize = 0;
    while i < path.len() && path[i] != COLON
        invariant
            i <= path@.len(),
            forall|j: int| 0 <= j < i ==> path@[j] != COLON,
        decreases path@.len() - i,
    {
        i = i + 1;
    }
    proof {
        lemma_first_colon(path@, i as int);
    }
    if i == path.len() {
        let local: Vec<u8> = vec![108u8, 111u8, 99u8, 97u8, 108u8];
        proof {
            assert(local@ =~= lit_local());
        }
        (local, copy_range(path, 0, path.len()))
    } else {
        (copy_range(path, 0, i), copy_range(path, i + 1, path.len()))
    }
}

/// Where a path may lead.
#[derive(Debug, Clone, Copy, PartialEq, Eq, Structural)]
pub enum Scheme {
    Local,
    External,
    Source,
}

pub open spec fn scheme_of(b: Seq<u8>) -> Option<Scheme> {
    if b == lit_local() {
        Some(Scheme::Local)
    } else if b == lit_external() {
        Some(Scheme::External)
    } else if b == lit_source() {
        Some(Scheme::Source)
    } else {
        None
    }
}

impl Scheme {
    /// The scheme that the bytes name, if any.
    pub fn from_bytes(b: &[u8]) -> (r: Option<Scheme>)
        ensures
            r == scheme_of(b@),
    {
        let local: Vec<u8> = vec![108u8, 111u8, 99u8, 97u8, 108u8];
        let external: Vec<u8> = vec![101u8, 120u8, 116u8, 101u8, 114u8, 110u8, 97u8, 108u8];
        let source: Vec<u8> = vec![115u8, 111u8, 117u8, 114u8, 99u8, 101u8];
        proof {
            assert(local@ =~= lit_local());
            assert(external@ =~= lit_external());
            assert(source@ =~= lit_source());
        }
        if eq_bytes(b, local.as_slice()) {
            Some(Scheme::Local)
        } else if eq_bytes(b, external.as_slice()) {
            Some(Scheme::External)
        } else if eq_bytes(b, source.as_slice()) {
            Some(Scheme::Source)
        } else {
            None
        }
    }
}


/// The POSIX open modes `r`, `w`, `a`, `r+`, `w+`, `a+`.
#[derive(Debug, Clone, Copy, PartialEq, Eq, Structural)]
pub enum OpenMode {
    Read,
    Write,
    Append,
    ReadWrite,
    ReadWriteNew,
    ReadAppend,
}

pub open spec fn open_mode_of(m: Seq<u8>) -> Option<OpenMode> {
    if m == seq![114u8] {
        Some(OpenMode::Read)
    } else if m == seq![119u8] {
        Some(OpenMode::Write)
    } else if m == seq![97u8] {
        Some(OpenMode::Append)
    } else if m == seq![114u8, 43u8] {
        Some(OpenMode::ReadWrite)
    } else if m == seq![119u8, 43u8] {
        Some(OpenMode::ReadWriteNew)
    } else if m == seq![97u8, 43u8] {
        Some(OpenMode::ReadAppend)
    } else {
        None
    }
}

/// The mode that an optional mode argument names; absent means `r`.
pub open spec fn open_mode_arg(m: Option<Seq<u8>>) -> Option<OpenMode> {
    match m {
        Some(m) => open_mode_of(m),
        None => Some(OpenMode::Read),
    }
}

pub open spec fn opt_view(m: Option<&[u8]>) -> Option<Seq<u8>> {
    match m {
        Some(m) => Some(m@),
        None => None,
    }
}

/// The flags that a file is opened with.
#[derive(Debug, Clone, Copy, PartialEq, Eq, Structural)]
pub struct OpenFlags {
    pub read: bool,
    pub write: bool,
    pub append: bool,
    pub create: bool,
    pub truncate: bool,
}

impl OpenMode {
    /// Parses an optional mode argument; absent means `r`.
    pub fn from_bytes(mode: Option<&[u8]>) -> (r: Result<OpenMode, ErrorKind>)
        ensures
            r is Ok <==> open_mode_arg(opt_view(mode)) is Some,
            r matches Ok(m) ==> open_mode_arg(opt_view(mode)) == Some(m),
            r is Err ==> r matches Err(ErrorKind::InvalidOpenMode),
    {
        match mode {
            None => Ok(OpenMode::Read),
            Some(m) => {
                let n = m.len();
                if n == 1 && m[0] == 114u8 {
                    proof { assert(m@ =~= seq![114u8]); }
                    Ok(OpenMode::Read)
                } else if n == 1 && m[0] == 119u8 {
                    proof { assert(m@ =~= seq![119u8]); }
                    Ok(OpenMode::Write)
                } else if n == 1 && m[0] == 97u8 {
                    proof { assert(m@ =~= seq![97u8]); }
                    Ok(OpenMode::Append)
                } else if n == 2 && m[0] == 114u8 && m[1] == 43u8 {
                    proof { assert(m@ =~= seq![114u8, 43u8]); }
                    Ok(OpenMode::ReadWrite)
                } else if n == 2 && m[0] == 119u8 && m[1] == 43u8 {
                    proof { assert(m@ =~= seq![119u8, 43u8]); }
                    Ok(OpenMode::ReadWriteNew)
                } else if n == 2 && m[0] == 97u8 && m[1] == 43u8 {
                    proof { assert(m@ =~= seq![97u8, 43u8]); }
                    Ok(OpenMode::ReadAppend)
                } else {
                    proof {
                        if n == 1 {
                            assert(m@ != seq![114u8] && m@ != seq![119u8] && m@ != seq![97u8]) by {
                                assert(seq![114u8][0] == 114u8);
                                assert(seq![119u8][0] == 119u8);
                                assert(seq![97u8][0] == 97u8);
                            }
                        }
                        if n == 2 {
                            assert(m@ != seq![114u8, 43u8] && m@ != seq![119u8, 43u8] && m@ != seq![97u8, 43u8]) by {
                                assert(seq![114u8, 43u8][0] == 114u8 && seq![114u8, 43u8][1] == 43u8);
                                assert(seq![119u8, 43u8][0] == 119u8 && seq![119u8, 43u8][1] == 43u8);
                                assert(seq![97u8, 43u8][0] == 97u8 && seq![97u8, 43u8][1] == 43u8);
                            }
                        }
                    }
                    Err(ErrorKind::InvalidOpenMode)
                }
            },
        }
    }

    pub open spec fn flags_spec(self) -> OpenFlags {
        match self {
            OpenMode::Read => OpenFlags { read: true, write: false, append: false, create: false, truncate: false },
            OpenMode::Write => OpenFlags { read: false, write: true, append: false, create: true, truncate: true },
            OpenMode::Append => OpenFlags { read: false, write: false, append: true, create: true, truncate: false },
            OpenMode::ReadWrite => OpenFlags { read: true, write: true, append: false, create: false, truncate: false },
            OpenMode::ReadWriteNew => OpenFlags { read: true, write: true, append: false, create: true, truncate: true },
            OpenMode::ReadAppend => OpenFlags { read: true, write: false, append: true, create: true, truncate: false },
        }
    }

    /// The open flags of the mode, as POSIX `fopen` defines them.
    pub fn to_open_options(self) -> (r: OpenFlags)
        ensures
            r == self.flags_spec(),
    {
        match self {
            OpenMode::Read => OpenFlags { read: true, write: false, append: false, create: false, truncate: false },
            OpenMode::Write => OpenFlags { read: false, write: true, append: false, create: true, truncate: true },
            OpenMode::Append => OpenFlags { read: false, write: false, append: true, create: true, truncate: false },
            OpenMode::ReadWrite => OpenFlags { read: true, write: true, append: false, create: false, truncate: false },
            OpenMode::ReadWriteNew => OpenFlags { read: true, write: true, append: false, create: true, truncate: true },
            OpenMode::ReadAppend => OpenFlags { read: true, write: false, append: true, create: true, truncate: false },
        }
    }

    /// `r` and the three `+` modes need `Read`.
    pub open spec fn needs_read(self) -> bool {
        !(self is Write || self is Append)
    }

    /// Every mode but `r` needs `Write`.
    pub open spec fn needs_write(self) -> bool {
        !(self is Read)
    }

    pub fn requires_read(self) -> (r: bool)
        ensures
            r == self.needs_read(),
    {
        !matches!(self, OpenMode::Write | OpenMode::Append)
    }

    pub fn requires_write(self) -> (r: bool)
        ensures
            r == self.needs_write(),
    {
        !matches!(self, OpenMode::Read)
    }
}

/// What a path resolves to: components under the service's local storage,
/// components of a host-absolute path, or a path inside the service source.
#[derive(Debug)]
pub enum Target {
    Local(Vec<Vec<u8>>),
    External(Vec<Vec<u8>>),
    Source(Vec<u8>),
}

/// The permission check for `mode` on the host path `n` passes.
pub open spec fn mode_allowed(perms: PermissionSet, mode: OpenMode, n: Seq<Seq<u8>>) -> bool {
    (mode.needs_read() ==> perms.allows(Access::Read, n)) && (mode.needs_write() ==> perms.allows(
        Access::Write,
        n,
    ))
}

/// Resolves the target of `open(path, mode)`. The mode is checked first;
/// `source:` paths open only for reading; `external:` paths are checked
/// against the permission set, `Read` and/or `Write` as the mode needs,
/// before anything else is done with them. A path that passes these checks
/// must still be valid UTF-8.
pub fn plan_open(path: &[u8], mode: Option<&[u8]>, perms: &PermissionSet) -> (r: Result<
    Target,
    ErrorKind,
>)
    ensures
        open_mode_arg(opt_view(mode)) is None ==> (r matches Err(ErrorKind::InvalidOpenMode)),
        open_mode_arg(opt_view(mode)) is Some ==> {
            let (scheme, rest) = split_scheme_spec(path@);
            let m = open_mode_arg(opt_view(mode))->Some_0;
            &&& scheme_of(scheme) is None ==> (r matches Err(ErrorKind::SchemeNotSupported(s))
                && s@ == scheme)
            &&& scheme_of(scheme) == Some(Scheme::Source) && m != OpenMode::Read ==> (r matches Err(
                ErrorKind::InvalidOpenMode,
            ))
            &&& scheme_of(scheme) == Some(Scheme::External) && !mode_allowed(
                *perms,
                m,
                normalize(rest),
            ) ==> (r matches Err(ErrorKind::PermissionDenied))
            &&& scheme_of(scheme) is Some && !(scheme_of(scheme) == Some(Scheme::Source) && m
                != OpenMode::Read) && !(scheme_of(scheme) == Some(Scheme::External)
                && !mode_allowed(*perms, m, normalize(rest))) ==> {
                &&& !utf8_valid(path@) ==> (r matches Err(ErrorKind::InvalidPath))
                &&& utf8_valid(path@) && scheme_of(scheme) == Some(Scheme::Local) ==> (r matches Ok(
                    Target::Local(c),
                ) && c.deep_view() == normalize(rest))
                &&& utf8_valid(path@) && scheme_of(scheme) == Some(Scheme::External) ==> (r matches Ok(
                    Target::External(c),
                ) && c.deep_view() == normalize(rest))
                &&& utf8_valid(path@) && scheme_of(scheme) == Some(Scheme::Source) ==> (r matches Ok(
                    Target::Source(p),
                ) && p@ == rest)
            }
        },
{
    let m = match OpenMode::from_bytes(mode) {
        Ok(m) => m,
        Err(e) => return Err(e),
    };
    let (scheme, rest) = split_scheme(path);
    let target = match Scheme::from_bytes(scheme.as_slice()) {
        Some(Scheme::Local) => Target::Local(normalize_path(rest.as_slice())),
        Some(Scheme::External) => {
            let n = normalize_path(rest.as_slice());
            if m.requires_read() {
                match perms.check(Access::Read, &n) {
                    Ok(()) => {},
                    Err(e) => return Err(e),
                }
            }
            if m.requires_write() {
                match perms.check(Access::Write, &n) {
                    Ok(()) => {},
                    Err(e) => return Err(e),
                }
            }
            Target::External(n)
        },
        Some(Scheme::Source) => {
            if m == OpenMode::Read {
                Target::Source(rest)
            } else {
                return Err(ErrorKind::InvalidOpenMode);
            }
        },
        None => return Err(ErrorKind::SchemeNotSupported(scheme)),
    };
    if !is_utf8(path) {
        return Err(ErrorKind::InvalidPath);
    }
    Ok(target)
}

/// Resolves the target of `mkdir(path)` or `remove(path)`. The service
/// source cannot be modified; `external:` paths need `Write`, checked
/// before anything else is done with them. A path that passes these checks
/// must still be valid UTF-8.
pub fn plan_modify(path: &[u8], perms: &PermissionSet) -> (r: Result<Target, ErrorKind>)
    ensures
        ({
            let (scheme, rest) = split_scheme_spec(path@);
            &&& scheme_of(scheme) is None ==> (r matches Err(ErrorKind::SchemeNotSupported(s))
                && s@ == scheme)
            &&& scheme_of(scheme) == Some(Scheme::Source) ==> (r matches Err(
                ErrorKind::CannotModifyServiceSource,
            ))
            &&& scheme_of(scheme) == Some(Scheme::External) && !perms.allows(
                Access::Write,
                normalize(rest),
            ) ==> (r matches Err(ErrorKind::PermissionDenied))
            &&& (scheme_of(scheme) == Some(Scheme::Local) || (scheme_of(scheme) == Some(
                Scheme::External,
            ) && perms.allows(Access::Write, normalize(rest)))) ==> {
                &&& !utf8_valid(path@) ==> (r matches Err(ErrorKind::InvalidPath))
                &&& utf8_valid(path@) && scheme_of(scheme) == Some(Scheme::Local) ==> (r matches Ok(
                    Target::Local(c),
                ) && c.deep_view() == normalize(rest))
                &&& utf8_valid(path@) && scheme_of(scheme) == Some(Scheme::External) ==> (r matches Ok(
                    Target::External(c),
                ) && c.deep_view() == normalize(rest))
            }
        }),
{
    let (scheme, rest) = split_scheme(path);
    let target = match Scheme::from_bytes(scheme.as_slice()) {
        Some(Scheme::Local) => Target::Local(normalize_path(rest.as_slice())),
        Some(Scheme::External) => {
            let n = normalize_path(rest.as_slice());
            match perms.check(Access::Write, &n) {
                Ok(()) => Target::External(n),
                Err(e) => return Err(e),
            }
        },
        Some(Scheme::Source) => return Err(ErrorKind::CannotModifyServiceSource),
        None => return Err(ErrorKind::SchemeNotSupported(scheme)),
    };
    if !is_utf8(path) {
        return Err(ErrorKind::InvalidPath);
    }
    Ok(target)
}

/// How `remove` deletes what it found.
#[derive(Debug, Clone, Copy, PartialEq, Eq, Structural)]
pub enum RemoveAction {
    RemoveFile,
    RemoveDirAll,
}

/// A file is removed whatever `recursive` says; a directory is removed,
/// with its contents, only when `recursive` is set, and is refused
/// otherwise.
pub fn remove_action(is_dir: bool, recursive: bool) -> (r: Result<RemoveAction, ErrorKind>)
    ensures
        !is_dir ==> r == Ok::<RemoveAction, ErrorKind>(RemoveAction::RemoveFile),
        is_dir && recursive ==> r == Ok::<RemoveAction, ErrorKind>(RemoveAction::RemoveDirAll),
        is_dir && !recursive ==> (r matches Err(ErrorKind::DirectoryNeedsRecursive)),
{
    if !is_dir {
        Ok(RemoveAction::RemoveFile)
    } else if recursive {
        Ok(RemoveAction::RemoveDirAll)
    } else {
        Err(ErrorKind::DirectoryNeedsRecursive)
    }
}

} // verus!
