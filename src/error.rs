use vstd::prelude::*;

verus! {

/// A structured, JSON-shaped detail attached to an error.
#[derive(Debug, PartialEq)]
pub enum Detail {
    Null,
    Bool(bool),
    Int(i64),
    Text(String),
    List(Vec<Detail>),
    Object(Vec<(String, Detail)>),
}

/// Every failure that a core operation reports.
#[derive(Debug)]
pub enum ErrorKind {
    InvalidServiceName(String),
    ServiceNotFound(String),
    ServicePathNotFound { service: String, path: String },
    ServiceExists(String),
    ServiceRunning(String),
    ServiceStopped(String),
    ServiceDropped,
    PermissionDenied,
    InvalidPath,
    SchemeNotSupported(Vec<u8>),
    InvalidOpenMode,
    InvalidReadMode,
    InvalidSeekBase(Vec<u8>),
    InvalidSeekOffset,
    CannotModifyServiceSource,
    DirectoryNeedsRecursive,
    ScriptError { traceback: String, cause: String },
    ScriptCustom { status: u16, error: String, detail: Detail },
    Io(String),
    CycleDetected,
    UseAfterClose,
}

} // verus!
