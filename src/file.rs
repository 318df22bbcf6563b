use crate::error::ErrorKind;
use crate::fs::{CARRIAGE_RETURN, NEWLINE};
use vstd::prelude::*;

verus! {

/// One mode of a variadic `read`.
#[derive(Debug, Clone, Copy, PartialEq, Eq, Structural)]
pub enum ReadMode {
    /// `"a"`: the rest of the file.
    All,
    /// A positive count: up to that many bytes.
    Exact(u64),
    /// `"l"`: one line, without its delimiter.
    Line,
    /// `"L"`: one line, with its delimiter.
    LineWithDelimiter,
}

/// A `read` argument as the script passed it.
#[derive(Debug)]
pub enum ReadArg {
    Integer(i64),
    Bytes(Vec<u8>),
    Other,
}

pub open spec fn read_mode_of(arg: ReadArg) -> Option<ReadMode> {
    match arg {
        ReadArg::Integer(i) => if i > 0 {
            Some(ReadMode::Exact(i as u64))
        } else {
            None
        },
        ReadArg::Bytes(b) => if b@ == seq![97u8] {
            Some(ReadMode::All)
        } else if b@ == seq![108u8] {
            Some(ReadMode::Line)
        } else if b@ == seq![76u8] {
            Some(ReadMode::LineWithDelimiter)
        } else {
            None
        },
        ReadArg::Other => None,
    }
}

impl ReadMode {
    /// Parses one `read` argument: a positive integer, `"a"`, `"l"` or `"L"`.
    pub fn from_arg(arg: &ReadArg) -> (r: Result<ReadMode, ErrorKind>)
        ensures
            r is Ok <==> read_mode_of(*arg) is Some,
            r matches Ok(m) ==> read_mode_of(*arg) == Some(m),
            r is Err ==> r matches Err(ErrorKind::InvalidReadMode),
    {
        match arg {
            ReadArg::Integer(i) => {
                if *i > 0 {
                    Ok(ReadMode::Exact(*i as u64))
                } else {
                    Err(ErrorKind::InvalidReadMode)
                }
            },
            ReadArg::Bytes(b) => {
                proof {
                    assert(seq![97u8][0] == 97u8 && seq![108u8][0] == 108u8 && seq![76u8][0] == 76u8);
                }
                if b.len() == 1 && b[0] == 97u8 {
                    proof { assert(b@ =~= seq![97u8]); }
                    Ok(ReadMode::All)
                } else if b.len() == 1 && b[0] == 108u8 {
                    proof { assert(b@ =~= seq![108u8]); }
                    Ok(ReadMode::Line)
                } else if b.len() == 1 && b[0] == 76u8 {
                    proof { assert(b@ =~= seq![76u8]); }
                    Ok(ReadMode::LineWithDelimiter)
                } else {
                    Err(ErrorKind::InvalidReadMode)
                }
            },
            ReadArg::Other => Err(ErrorKind::InvalidReadMode),
        }
    }
}

/// The modes of one `read` call, each as its argument parses: its
/// arguments in order, and `"l"` when it has none.
pub open spec fn session_modes(args: Seq<ReadArg>) -> Seq<Option<ReadMode>> {
    if args.len() == 0 {
        seq![Some(ReadMode::Line)]
    } else {
        args.map_values(|a: ReadArg| read_mode_of(a))
    }
}

/// Walks the arguments of one `read` call. Each argument is parsed only
/// when it is reached; results are returned positionally, and the first
/// `nil` ends the call: no argument after it is parsed or used.
pub struct ReadSession {
    args: Vec<ReadArg>,
    next: usize,
    halted: bool,
}

impl ReadSession {
    pub closed spec fn modes(&self) -> Seq<Option<ReadMode>> {
        session_modes(self.args@)
    }

    /// How many arguments have been taken.
    pub closed spec fn consumed(&self) -> nat {
        self.next as nat
    }

    /// Whether a `nil` result has ended the call.
    pub closed spec fn halted(&self) -> bool {
        self.halted
    }

    pub closed spec fn wf(&self) -> bool {
        self.next <= session_modes(self.args@).len()
    }

    pub fn new(args: Vec<ReadArg>) -> (r: Self)
        ensures
            r.wf(),
            r.modes() == session_modes(args@),
            r.consumed() == 0,
            !r.halted(),
    {
        ReadSession { args, next: 0, halted: false }
    }

    /// Takes the next argument: `Ok(Some(mode))` when it parses,
    /// `InvalidReadMode` when it does not, and `Ok(None)` once all are done
    /// or a `nil` came back.
    pub fn next_mode(&mut self) -> (r: Result<Option<ReadMode>, ErrorKind>)
        requires
            old(self).wf(),
        ensures
            final(self).wf(),
            final(self).modes() == old(self).modes(),
            final(self).halted() == old(self).halted(),
            old(self).halted() || old(self).consumed() >= old(self).modes().len() ==> {
                &&& r == Ok::<Option<ReadMode>, ErrorKind>(None)
                &&& final(self).consumed() == old(self).consumed()
            },
            !old(self).halted() && old(self).consumed() < old(self).modes().len() ==> {
                &&& final(self).consumed() == old(self).consumed() + 1
                &&& old(self).modes()[old(self).consumed() as int] matches Some(m) ==> r == Ok::<
                    Option<ReadMode>,
                    ErrorKind,
                >(Some(m))
                &&& old(self).modes()[old(self).consumed() as int] is None ==> (r matches Err(
                    ErrorKind::InvalidReadMode,
                ))
            },
    {
        let n = if self.args.len() == 0 {
            1
        } else {
            self.args.len()
        };
        if self.halted || self.next >= n {
            return Ok(None);
        }
        let parsed = if self.args.len() == 0 {
            Ok(ReadMode::Line)
        } else {
            ReadMode::from_arg(&self.args[self.next])
        };
        self.next = self.next + 1;
        match parsed {
            Ok(m) => Ok(Some(m)),
            Err(e) => Err(e),
        }
    }

    /// Records whether the last read returned `nil`.
    pub fn record(&mut self, was_nil: bool)
        requires
            old(self).wf(),
        ensures
            final(self).wf(),
            final(self).modes() == old(self).modes(),
            final(self).consumed() == old(self).consumed(),
            final(self).halted() == (old(self).halted() || was_nil),
    {
        if was_nil {
            self.halted = true;
        }
    }
}

/// How many bytes a count read asks the file for: the count, clamped to
/// the file's length.
pub fn exact_read_len(count: u64, file_len: u64) -> (r: u64)
    ensures
        r == if count < file_len {
            count
        } else {
            file_len
        },
{
    if count < file_len {
        count
    } else {
        file_len
    }
}

/// The result of a count read that got `got`: `nil` at a clean end of file,
/// else the (possibly short) bytes.
pub fn exact_result(got: Vec<u8>) -> (r: Option<Vec<u8>>)
    ensures
        got@.len() == 0 ==> r is None,
        got@.len() > 0 ==> (r matches Some(b) && b@ == got@),
{
    if got.len() == 0 {
        None
    } else {
        Some(got)
    }
}

/// A line without its trailing `\n` or `\r\n`.
pub open spec fn strip_line_spec(s: Seq<u8>) -> Seq<u8> {
    if s.len() > 0 && s.last() == NEWLINE {
        let t = s.drop_last();
        if t.len() > 0 && t.last() == CARRIAGE_RETURN {
            t.drop_last()
        } else {
            t
        }
    } else {
        s
    }
}

/// The result of a line read that got `line` (delimiter included): `nil` at
/// end of file, else the line, its delimiter kept only for `"L"`.
pub fn line_result(line: Vec<u8>, keep_delimiter: bool) -> (r: Option<Vec<u8>>)
    ensures
        line@.len() == 0 ==> r is None,
        line@.len() > 0 && keep_delimiter ==> (r matches Some(b) && b@ == line@),
        line@.len() > 0 && !keep_delimiter ==> (r matches Some(b) && b@ == strip_line_spec(line@)),
{
    if line.len() == 0 {
        return None;
    }
    if keep_delimiter {
        return Some(line);
    }
    let mut line = line;
    let n = line.len();
    if line[n - 1] == NEWLINE {
        line.pop();
        let m = line.len();
        if m > 0 && line[m - 1] == CARRIAGE_RETURN {
            line.pop();
        }
    }
    Some(line)
}

/// Where a `seek` goes.
#[derive(Debug, Clone, Copy, PartialEq, Eq, Structural)]
pub enum SeekTarget {
    Start(u64),
    Current(i64),
    End(i64),
}

pub open spec fn lit_set() -> Seq<u8> {
    seq![115u8, 101u8, 116u8]
}

pub open spec fn lit_cur() -> Seq<u8> {
    seq![99u8, 117u8, 114u8]
}

pub open spec fn lit_end() -> Seq<u8> {
    seq![101u8, 110u8, 100u8]
}

/// Resolves `seek(whence, offset)`: the offset defaults to 0, the base to
/// the current position; `"set"` takes no negative offset.
pub fn seek_target(whence: Option<&[u8]>, offset: Option<i64>) -> (r: Result<SeekTarget, ErrorKind>)
    ensures
        ({
            let off: i64 = match offset {
                Some(o) => o,
                None => 0,
            };
            match whence {
                None => r == Ok::<SeekTarget, ErrorKind>(SeekTarget::Current(0)),
                Some(w) => if w@ == lit_set() {
                    if off >= 0 {
                        r == Ok::<SeekTarget, ErrorKind>(SeekTarget::Start(off as u64))
                    } else {
                        r matches Err(ErrorKind::InvalidSeekOffset)
                    }
                } else if w@ == lit_cur() {
                    r == Ok::<SeekTarget, ErrorKind>(SeekTarget::Current(off))
                } else if w@ == lit_end() {
                    r == Ok::<SeekTarget, ErrorKind>(SeekTarget::End(off))
                } else {
                    (r matches Err(ErrorKind::InvalidSeekBase(b)) && b@ == w@)
                },
            }
        }),
{
    let off: i64 = match offset {
        Some(o) => o,
        None => 0,
    };
    match whence {
        None => Ok(SeekTarget::Current(0)),
        Some(w) => {
            let is3 = w.len() == 3;
            if is3 && w[0] == 115u8 && w[1] == 101u8 && w[2] == 116u8 {
                proof { assert(w@ =~= lit_set()); }
                if off >= 0 {
                    Ok(SeekTarget::Start(off as u64))
                } else {
                    Err(ErrorKind::InvalidSeekOffset)
                }
            } else if is3 && w[0] == 99u8 && w[1] == 117u8 && w[2] == 114u8 {
                proof {
                    assert(w@ =~= lit_cur());
                    assert(lit_set()[0] != lit_cur()[0]);
                }
                Ok(SeekTarget::Current(off))
            } else if is3 && w[0] == 101u8 && w[1] == 110u8 && w[2] == 100u8 {
                proof {
                    assert(w@ =~= lit_end());
                    assert(lit_set()[0] != lit_end()[0]);
                    assert(lit_cur()[0] != lit_end()[0]);
                }
                Ok(SeekTarget::End(off))
            } else {
                proof {
                    if w@.len() == 3 {
                        assert(lit_set()[0] == 115u8 && lit_set()[1] == 101u8 && lit_set()[2] == 116u8);
                        assert(lit_cur()[0] == 99u8 && lit_cur()[1] == 117u8 && lit_cur()[2] == 114u8);
                        assert(lit_end()[0] == 101u8 && lit_end()[1] == 110u8 && lit_end()[2] == 100u8);
                    }
                }
                let mut b: Vec<u8> = Vec::new();
                let mut i: usize = 0;
                while i < w.len()
                    invariant
                        i <= w@.len(),
                        b@ == w@.subrange(0, i as int),
                    decreases w@.len() - i,
                {
                    b.push(w[i]);
                    i = i + 1;
                    proof { assert(b@ =~= w@.subrange(0, i as int)); }
                }
                proof { assert(b@ =~= w@); }
                Err(ErrorKind::InvalidSeekBase(b))
            }
        },
    }
}

} // verus!
