use hive_core::error::ErrorKind;
use hive_core::file::{
    exact_read_len, exact_result, line_result, seek_target, ReadArg, ReadMode, ReadSession,
    SeekTarget,
};

#[test]
fn read_mode_arguments() {
    assert_eq!(ReadMode::from_arg(&ReadArg::Integer(5)).unwrap(), ReadMode::Exact(5));
    assert_eq!(ReadMode::from_arg(&ReadArg::Bytes(b"a".to_vec())).unwrap(), ReadMode::All);
    assert_eq!(ReadMode::from_arg(&ReadArg::Bytes(b"l".to_vec())).unwrap(), ReadMode::Line);
    assert_eq!(
        ReadMode::from_arg(&ReadArg::Bytes(b"L".to_vec())).unwrap(),
        ReadMode::LineWithDelimiter
    );
    assert!(matches!(ReadMode::from_arg(&ReadArg::Integer(0)), Err(ErrorKind::InvalidReadMode)));
    assert!(matches!(
        ReadMode::from_arg(&ReadArg::Bytes(b"n".to_vec())),
        Err(ErrorKind::InvalidReadMode)
    ));
    assert!(matches!(ReadMode::from_arg(&ReadArg::Other), Err(ErrorKind::InvalidReadMode)));
}

fn count(n: i64) -> ReadArg {
    ReadArg::Integer(n)
}

fn text(b: &[u8]) -> ReadArg {
    ReadArg::Bytes(b.to_vec())
}

#[test]
fn no_mode_means_one_line() {
    let mut s = ReadSession::new(Vec::new());
    assert_eq!(s.next_mode().unwrap(), Some(ReadMode::Line));
    assert_eq!(s.next_mode().unwrap(), None);
}

#[test]
fn nil_halts_the_remaining_modes() {
    let mut s = ReadSession::new(vec![count(4), text(b"a"), text(b"l")]);
    assert_eq!(s.next_mode().unwrap(), Some(ReadMode::Exact(4)));
    s.record(exact_result(Vec::new()).is_none());
    assert_eq!(s.next_mode().unwrap(), None);
    assert_eq!(s.next_mode().unwrap(), None);
}

#[test]
fn arguments_after_nil_are_not_parsed() {
    let mut s = ReadSession::new(vec![count(1), text(b"bogus"), ReadArg::Other]);
    assert_eq!(s.next_mode().unwrap(), Some(ReadMode::Exact(1)));
    s.record(true);
    assert_eq!(s.next_mode().unwrap(), None);
}

#[test]
fn invalid_argument_is_reported_when_reached() {
    let mut s = ReadSession::new(vec![text(b"l"), count(0)]);
    assert_eq!(s.next_mode().unwrap(), Some(ReadMode::Line));
    s.record(false);
    assert!(matches!(s.next_mode(), Err(ErrorKind::InvalidReadMode)));
}

#[test]
fn modes_are_consumed_in_order() {
    let mut s = ReadSession::new(vec![text(b"l"), text(b"a")]);
    assert_eq!(s.next_mode().unwrap(), Some(ReadMode::Line));
    s.record(false);
    assert_eq!(s.next_mode().unwrap(), Some(ReadMode::All));
    s.record(false);
    assert_eq!(s.next_mode().unwrap(), None);
}

#[test]
fn count_reads() {
    assert_eq!(exact_read_len(10, 3), 3);
    assert_eq!(exact_read_len(2, 3), 2);
    assert_eq!(exact_result(Vec::new()), None);
    assert_eq!(exact_result(b"hi".to_vec()), Some(b"hi".to_vec()));
}

#[test]
fn line_reads() {
    assert_eq!(line_result(b"abc\r\n".to_vec(), false), Some(b"abc".to_vec()));
    assert_eq!(line_result(b"abc\n".to_vec(), false), Some(b"abc".to_vec()));
    assert_eq!(line_result(b"abc\r".to_vec(), false), Some(b"abc\r".to_vec()));
    assert_eq!(line_result(b"abc".to_vec(), false), Some(b"abc".to_vec()));
    assert_eq!(line_result(b"abc\r\n".to_vec(), true), Some(b"abc\r\n".to_vec()));
    assert_eq!(line_result(b"\n".to_vec(), false), Some(Vec::new()));
    assert_eq!(line_result(Vec::new(), true), None);
}

#[test]
fn seek_bases() {
    assert_eq!(seek_target(None, Some(7)).unwrap(), SeekTarget::Current(0));
    assert_eq!(seek_target(Some(b"set"), Some(7)).unwrap(), SeekTarget::Start(7));
    assert_eq!(seek_target(Some(b"cur"), Some(-2)).unwrap(), SeekTarget::Current(-2));
    assert_eq!(seek_target(Some(b"end"), None).unwrap(), SeekTarget::End(0));
    assert!(matches!(seek_target(Some(b"set"), Some(-1)), Err(ErrorKind::InvalidSeekOffset)));
    assert!(matches!(
        seek_target(Some(b"top"), None),
        Err(ErrorKind::InvalidSeekBase(ref b)) if b == b"top"
    ));
}
