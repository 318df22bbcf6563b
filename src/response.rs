use crate::error::{Detail, ErrorKind};
use vstd::prelude::*;

verus! {

pub const BAD_REQUEST: u16 = 400;

pub const NOT_FOUND: u16 = 404;

pub const METHOD_NOT_ALLOWED: u16 = 405;

pub const CONFLICT: u16 = 409;

pub const INTERNAL_SERVER_ERROR: u16 = 500;

/// An HTTP status code that a response can carry.
pub open spec fn valid_status(s: u16) -> bool {
    100 <= s <= 999
}

/// The index of the first entry under `key`, or -1.
pub open spec fn find_key(entries: Seq<(String, Detail)>, key: Seq<char>) -> int
    decreases entries.len(),
{
    if entries.len() == 0 {
        -1
    } else if entries.last().0@ == key {
        let k = find_key(entries.drop_last(), key);
        if k < 0 {
            entries.len() - 1
        } else {
            k
        }
    } else {
        find_key(entries.drop_last(), key)
    }
}

/// An object's entries after `key` is set to `value`: an existing entry is
/// replaced in place, a new one goes at the end.
pub open spec fn object_insert(entries: Seq<(String, Detail)>, key: String, value: Detail) -> Seq<
    (String, Detail),
> {
    let k = find_key(entries, key@);
    if k < 0 {
        entries.push((key, value))
    } else {
        entries.update(k, (key, value))
    }
}

proof fn lemma_find_key(entries: Seq<(String, Detail)>, key: Seq<char>, i: int)
    requires
        0 <= i <= entries.len(),
        forall|j: int| 0 <= j < i ==> (#[trigger] entries[j]).0@ != key,
        i == entries.len() || entries[i].0@ == key,
    ensures
        find_key(entries, key) == if i < entries.len() {
            i
        } else {
            -1
        },
    decreases entries.len(),
{
    if entries.len() > 0 {
        if i == entries.len() {
            lemma_find_key(entries.drop_last(), key, i - 1);
        } else {
            lemma_find_key(entries.drop_last(), key, i);
        }
    }
}

fn object_insert_exec(entries: &mut Vec<(String, Detail)>, key: String, value: Detail)
    ensures
        final(entries)@ == object_insert(old(entries)@, key, value),
{
    let mut i: usize = 0;
    while i < entries.len() && !(entries[i].0 == key)
        invariant
            i <= entries@.len(),
            forall|j: int| 0 <= j < i ==> (#[trigger] entries@[j]).0@ != key@,
        decreases entries@.len() - i,
    {
        i = i + 1;
    }
    proof {
        lemma_find_key(entries@, key@, i as int);
    }
    if i == entries.len() {
        entries.push((key, value));
    } else {
        entries.set(i, (key, value));
    }
}

/// An error as the HTTP front end reports it: a status, a short message and
/// a JSON-shaped detail.
#[derive(Debug)]
pub struct Error {
    pub status: u16,
    pub error: String,
    pub detail: Detail,
}

impl Error {
    /// An error with the given status and message; a text detail is
    /// wrapped as `{"msg": text}`.
    pub fn new(status: u16, error: String, detail: Detail) -> (r: Self)
        requires
            valid_status(status),
        ensures
            r.status == status,
            r.error == error,
            detail matches Detail::Text(s) ==> (r.detail matches Detail::Object(o) && o@.len() == 1
                && o@[0].0@ == "msg"@ && o@[0].1 == Detail::Text(s)),
            !(detail is Text) ==> r.detail == detail,
    {
        let detail = match detail {
            Detail::Text(s) => {
                let mut o: Vec<(String, Detail)> = Vec::new();
                o.push(("msg".to_owned(), Detail::Text(s)));
                Detail::Object(o)
            },
            other => other,
        };
        Error { status, error, detail }
    }

    /// A client error with no detail.
    pub fn bad_request(msg: String) -> (r: Self)
        ensures
            r.status == BAD_REQUEST,
            r.error == msg,
            r.detail == Detail::Null,
    {
        Error::new(BAD_REQUEST, msg, Detail::Null)
    }

    /// Whether the status is a server error (5xx).
    pub fn is_server_error(&self) -> (r: bool)
        ensures
            r == (500 <= self.status <= 599),
    {
        500 <= self.status && self.status <= 599
    }

    /// Sets `key` in the detail object. A detail that is not an object
    /// first becomes `{"msg": detail}`.
    pub fn add_detail(&mut self, key: String, info: Detail)
        ensures
            final(self).status == old(self).status,
            final(self).error == old(self).error,
            old(self).detail matches Detail::Object(o) ==> (final(self).detail matches Detail::Object(
                n,
            ) && n@ == object_insert(o@, key, info)),
            !(old(self).detail is Object) ==> (final(self).detail matches Detail::Object(n) && {
                &&& n@.len() >= 1
                &&& n@[0].0@ == "msg"@
                &&& key@ != "msg"@ ==> n@ == seq![(n@[0].0, old(self).detail), (key, info)]
                &&& key@ == "msg"@ ==> n@ == seq![(key, info)]
            }),
    {
        let mut detail = Detail::Null;
        std::mem::swap(&mut detail, &mut self.detail);
        let mut entries: Vec<(String, Detail)> = match detail {
            Detail::Object(o) => o,
            other => {
                let mut o: Vec<(String, Detail)> = Vec::new();
                o.push(("msg".to_owned(), other));
                o
            },
        };
        proof {
            if !(old(self).detail is Object) {
                assert(find_key(entries@.drop_last(), key@) == -1);
            }
        }
        object_insert_exec(&mut entries, key, info);
        self.detail = Detail::Object(entries);
    }
}


/// The status that the front end answers a core error with.
pub open spec fn status_of_kind(k: ErrorKind) -> u16 {
    match k {
        ErrorKind::InvalidServiceName(_) => BAD_REQUEST,
        ErrorKind::ServiceNotFound(_) => NOT_FOUND,
        ErrorKind::ServicePathNotFound { .. } => NOT_FOUND,
        ErrorKind::ServiceExists(_) => CONFLICT,
        ErrorKind::ScriptCustom { status, .. } => if valid_status(status) {
            status
        } else {
            INTERNAL_SERVER_ERROR
        },
        _ => INTERNAL_SERVER_ERROR,
    }
}

fn one_entry(key: &str, value: Detail) -> (r: Detail)
    ensures
        r matches Detail::Object(o) && o@.len() == 1 && o@[0].0@ == key@ && o@[0].1 == value,
{
    let mut o: Vec<(String, Detail)> = Vec::new();
    o.push((key.to_owned(), value));
    Detail::Object(o)
}

fn text(s: &str) -> (r: Detail)
    ensures
        r matches Detail::Text(t) && t@ == s@,
{
    Detail::Text(s.to_owned())
}

/// A short description of a core error that carries no detail of its own.
pub open spec fn description_of(k: ErrorKind) -> Seq<char> {
    match k {
        ErrorKind::ServiceRunning(_) => "service is running"@,
        ErrorKind::ServiceStopped(_) => "service is stopped"@,
        ErrorKind::ServiceDropped => "service dropped"@,
        ErrorKind::PermissionDenied => "permission denied"@,
        ErrorKind::InvalidPath => "invalid path"@,
        ErrorKind::SchemeNotSupported(_) => "scheme currently not supported"@,
        ErrorKind::InvalidOpenMode => "invalid open mode"@,
        ErrorKind::InvalidReadMode => "invalid file read mode"@,
        ErrorKind::InvalidSeekBase(_) => "invalid seek base"@,
        ErrorKind::InvalidSeekOffset => "invalid seek offset"@,
        ErrorKind::CannotModifyServiceSource => "cannot modify service source"@,
        ErrorKind::DirectoryNeedsRecursive => "removing a directory requires recursive"@,
        ErrorKind::Io(_) => "I/O error"@,
        ErrorKind::CycleDetected => "cycle detected"@,
        ErrorKind::UseAfterClose => "use after close"@,
        _ => "hive core error"@,
    }
}


fn kind_description(k: &ErrorKind) -> (r: &'static str)
    ensures
        r@ == description_of(*k),
{
    match k {
        ErrorKind::ServiceRunning(_) => "service is running",
        ErrorKind::ServiceStopped(_) => "service is stopped",
        ErrorKind::ServiceDropped => "service dropped",
        ErrorKind::PermissionDenied => "permission denied",
        ErrorKind::InvalidPath => "invalid path",
        ErrorKind::SchemeNotSupported(_) => "scheme currently not supported",
        ErrorKind::InvalidOpenMode => "invalid open mode",
        ErrorKind::InvalidReadMode => "invalid file read mode",
        ErrorKind::InvalidSeekBase(_) => "invalid seek base",
        ErrorKind::InvalidSeekOffset => "invalid seek offset",
        ErrorKind::CannotModifyServiceSource => "cannot modify service source",
        ErrorKind::DirectoryNeedsRecursive => "removing a directory requires recursive",
        ErrorKind::Io(_) => "I/O error",
        ErrorKind::CycleDetected => "cycle detected",
        ErrorKind::UseAfterClose => "use after close",
        _ => "hive core error",
    }
}

impl Error {
    /// How the front end reports a core error: client errors for bad or
    /// unknown names, a conflict for a taken name, the script's own status
    /// for a custom script error, and a server error otherwise.
    pub fn from_kind(kind: ErrorKind) -> (r: Self)
        ensures
            r.status == status_of_kind(kind),
            kind is InvalidServiceName ==> r.error@ == "invalid service name"@,
            kind is ServiceNotFound ==> r.error@ == "service not found"@,
            kind is ServicePathNotFound ==> r.error@ == "path not found in service"@,
            kind is ServiceExists ==> r.error@ == "service already exists"@,
            kind is ScriptError ==> r.error@ == "Lua error"@,
            kind matches ErrorKind::ScriptCustom { error, .. } ==> r.error == error,
            kind matches ErrorKind::ServicePathNotFound { service, path } ==> (r.detail matches Detail::Object(o)
                && o@.len() == 2 && o@[0].0@ == "service"@ && o@[0].1 == Detail::Text(service)
                && o@[1].0@ == "path"@ && o@[1].1 == Detail::Text(path)),
            kind matches ErrorKind::ScriptError { traceback, cause } ==> (r.detail matches Detail::Object(o)
                && o@.len() == 2 && o@[0].0@ == "msg"@ && o@[0].1 == Detail::Text(cause)
                && o@[1].0@ == "traceback"@ && o@[1].1 == Detail::Text(traceback)),
            kind matches ErrorKind::ScriptCustom { detail, .. } ==> (detail matches Detail::Text(t)
                ==> (r.detail matches Detail::Object(o) && o@.len() == 1 && o@[0].0@ == "msg"@
                && o@[0].1 == Detail::Text(t))),
            kind matches ErrorKind::ScriptCustom { detail, .. } ==> (!(detail is Text) ==> r.detail
                == detail),
            !(kind is InvalidServiceName || kind is ServiceNotFound || kind is ServicePathNotFound
                || kind is ServiceExists || kind is ScriptError || kind is ScriptCustom) ==> {
                &&& r.error@ == "hive core error"@
                &&& r.detail is Object
                &&& r.detail->Object_0@.len() == 1
                &&& r.detail->Object_0@[0].0@ == "msg"@
                &&& r.detail->Object_0@[0].1 is Text
                &&& r.detail->Object_0@[0].1->Text_0@ == description_of(kind)
            },
            kind matches ErrorKind::ServiceNotFound(n) ==> (r.detail matches Detail::Object(o)
                && o@.len() == 1 && o@[0].0@ == "name"@ && o@[0].1 == Detail::Text(n)),
            kind matches ErrorKind::ServiceExists(n) ==> (r.detail matches Detail::Object(o)
                && o@.len() == 1 && o@[0].0@ == "name"@ && o@[0].1 == Detail::Text(n)),
            kind matches ErrorKind::InvalidServiceName(n) ==> (r.detail matches Detail::Object(o)
                && o@.len() == 1 && o@[0].0@ == "name"@ && o@[0].1 == Detail::Text(n)),
    {
        match kind {
            ErrorKind::InvalidServiceName(name) => Error::new(
                BAD_REQUEST,
                "invalid service name".to_owned(),
                one_entry("name", Detail::Text(name)),
            ),
            ErrorKind::ServiceNotFound(name) => Error::new(
                NOT_FOUND,
                "service not found".to_owned(),
                one_entry("name", Detail::Text(name)),
            ),
            ErrorKind::ServicePathNotFound { service, path } => {
                let mut o: Vec<(String, Detail)> = Vec::new();
                o.push(("service".to_owned(), Detail::Text(service)));
                o.push(("path".to_owned(), Detail::Text(path)));
                Error::new(NOT_FOUND, "path not found in service".to_owned(), Detail::Object(o))
            },
            ErrorKind::ServiceExists(name) => Error::new(
                CONFLICT,
                "service already exists".to_owned(),
                one_entry("name", Detail::Text(name)),
            ),
            ErrorKind::ScriptError { traceback, cause } => {
                let mut o: Vec<(String, Detail)> = Vec::new();
                o.push(("msg".to_owned(), Detail::Text(cause)));
                o.push(("traceback".to_owned(), Detail::Text(traceback)));
                Error::new(INTERNAL_SERVER_ERROR, "Lua error".to_owned(), Detail::Object(o))
            },
            ErrorKind::ScriptCustom { status, error, detail } => {
                let status = if 100 <= status && status <= 999 {
                    status
                } else {
                    INTERNAL_SERVER_ERROR
                };
                Error::new(status, error, detail)
            },
            other => {
                let d = kind_description(&other);
                Error::new(INTERNAL_SERVER_ERROR, "hive core error".to_owned(), text(d))
            },
        }
    }

    /// The response: the status, and the JSON body `{"error", "detail"}`.
    /// A server error shown to a caller that is not authenticated hides both
    /// behind a generic message.
    pub fn into_response(self, authed: bool) -> (r: (u16, Detail))
        ensures
            r.0 == self.status,
            r.1 matches Detail::Object(o) && o@.len() == 2 && o@[0].0@ == "error"@ && o@[1].0@
                == "detail"@,
            !(500 <= self.status <= 599) || authed ==> (r.1 matches Detail::Object(o) && o@[0].1
                matches Detail::Text(e) && e == self.error && o@[1].1 == self.detail),
            500 <= self.status <= 599 && !authed ==> (r.1 matches Detail::Object(o) && o@[0].1
                matches Detail::Text(e) && e@ == "internal server error"@),
            500 <= self.status <= 599 && !authed ==> {
                &&& r.1->Object_0@[1].1 is Object
                &&& r.1->Object_0@[1].1->Object_0@.len() == 1
                &&& r.1->Object_0@[1].1->Object_0@[0].0@ == "msg"@
                &&& r.1->Object_0@[1].1->Object_0@[0].1 is Text
                &&& r.1->Object_0@[1].1->Object_0@[0].1->Text_0@ == "Contact system administrator for help"@
            },
    {
        let status = self.status;
        let hide = self.is_server_error() && !authed;
        let mut o: Vec<(String, Detail)> = Vec::new();
        if hide {
            o.push(("error".to_owned(), text("internal server error")));
            o.push(
                (
                    "detail".to_owned(),
                    one_entry("msg", text("Contact system administrator for help")),
                ),
            );
        } else {
            o.push(("error".to_owned(), Detail::Text(self.error)));
            o.push(("detail".to_owned(), self.detail));
        }
        (status, Detail::Object(o))
    }
}

/// The error for a request whose method the route does not take.
pub fn method_not_allowed(expected: Vec<String>, got: String) -> (r: Error)
    ensures
        r.status == METHOD_NOT_ALLOWED,
        r.error@ == "method not allowed"@,
        (r.detail matches Detail::Object(o) && o@.len() == 2 && o@[0].0@ == "expected"@ && o@[1].0@
            == "got"@ && o@[1].1 == Detail::Text(got)),
        (r.detail matches Detail::Object(o) && o@[0].1 matches Detail::List(l) && l@.len()
            == expected@.len() && forall|i: int|
            0 <= i < l@.len() ==> #[trigger] l@[i] == Detail::Text(expected@[i])),
{
    let mut list: Vec<Detail> = Vec::new();
    let mut expected = expected;
    let ghost all = expected@;
    while expected.len() > 0
        invariant
            list@.len() + expected@.len() == all.len(),
            expected@ == all.subrange(list@.len() as int, all.len() as int),
            forall|i: int| 0 <= i < list@.len() ==> #[trigger] list@[i] == Detail::Text(all[i]),
        decreases expected@.len(),
    {
        let e = expected.remove(0);
        list.push(Detail::Text(e));
        proof {
            assert(expected@ =~= all.subrange(list@.len() as int, all.len() as int));
        }
    }
    let mut o: Vec<(String, Detail)> = Vec::new();
    o.push(("expected".to_owned(), Detail::List(list)));
    o.push(("got".to_owned(), Detail::Text(got)));
    Error::new(METHOD_NOT_ALLOWED, "method not allowed".to_owned(), Detail::Object(o))
}

} // verus!
