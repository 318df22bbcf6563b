use hive_core::error::ErrorKind;
use hive_core::fs::{
    plan_modify, plan_open, remove_action, split_scheme, OpenFlags, OpenMode,
    RemoveAction, Scheme, Target,
};
use hive_core::path::normalize_path;
use hive_core::service::{Service, ServicePool};
use hive_core::permission::{Access, Permission, PermissionSet};

fn comps(parts: &[&str]) -> Vec<Vec<u8>> {
    parts.iter().map(|p| p.as_bytes().to_vec()).collect()
}

fn empty() -> PermissionSet {
    PermissionSet::new(Vec::new())
}

#[test]
fn normalize_clamps_at_root() {
    assert_eq!(normalize_path(b"a/./b//c"), comps(&["a", "b", "c"]));
    assert_eq!(normalize_path(b"../../x/../y"), comps(&["y"]));
    assert_eq!(normalize_path(b"/etc/passwd"), comps(&["etc", "passwd"]));
    assert_eq!(normalize_path(b""), comps(&[]));
    assert_eq!(normalize_path(b"a/.."), comps(&[]));
    assert_eq!(normalize_path(b"..a/b."), comps(&["..a", "b."]));
}

#[test]
fn split_scheme_at_first_colon() {
    assert_eq!(split_scheme(b"external:/a:b"), (b"external".to_vec(), b"/a:b".to_vec()));
    assert_eq!(split_scheme(b"a.txt"), (b"local".to_vec(), b"a.txt".to_vec()));
    assert_eq!(split_scheme(b":x"), (b"".to_vec(), b"x".to_vec()));
}

#[test]
fn invalid_utf8_is_refused_after_the_checks() {
    assert!(matches!(plan_open(b"local:\xff", None, &empty()), Err(ErrorKind::InvalidPath)));
    assert!(matches!(plan_open(b"source:\xff", Some(b"w"), &empty()), Err(ErrorKind::InvalidOpenMode)));
    assert!(matches!(
        plan_open(b"external:/\xff", None, &empty()),
        Err(ErrorKind::PermissionDenied)
    ));
    let perms = PermissionSet::new(vec![Permission::new(Access::Read, b"/")]);
    assert!(matches!(plan_open(b"external:/\xff", None, &perms), Err(ErrorKind::InvalidPath)));
    assert!(matches!(plan_modify(b"source:\xff", &empty()), Err(ErrorKind::CannotModifyServiceSource)));
}

#[test]
fn scheme_names() {
    assert_eq!(Scheme::from_bytes(b"local"), Some(Scheme::Local));
    assert_eq!(Scheme::from_bytes(b"external"), Some(Scheme::External));
    assert_eq!(Scheme::from_bytes(b"source"), Some(Scheme::Source));
    assert_eq!(Scheme::from_bytes(b"http"), None);
}

#[test]
fn open_modes() {
    assert_eq!(OpenMode::from_bytes(None).unwrap(), OpenMode::Read);
    assert_eq!(OpenMode::from_bytes(Some(b"a+")).unwrap(), OpenMode::ReadAppend);
    assert!(matches!(OpenMode::from_bytes(Some(b"rw")), Err(ErrorKind::InvalidOpenMode)));
    assert_eq!(
        OpenMode::Write.to_open_options(),
        OpenFlags { read: false, write: true, append: false, create: true, truncate: true }
    );
    assert_eq!(
        OpenMode::ReadAppend.to_open_options(),
        OpenFlags { read: true, write: false, append: true, create: true, truncate: false }
    );
    assert!(OpenMode::ReadWrite.requires_read() && OpenMode::ReadWrite.requires_write());
    assert!(!OpenMode::Append.requires_read());
}

#[test]
fn source_opens_only_for_reading() {
    for m in [&b"w"[..], b"a", b"r+", b"w+", b"a+"] {
        assert!(matches!(
            plan_open(b"source:main.lua", Some(m), &empty()),
            Err(ErrorKind::InvalidOpenMode)
        ));
    }
    assert!(matches!(
        plan_open(b"source:main.lua", None, &empty()),
        Ok(Target::Source(ref p)) if p == b"main.lua"
    ));
}

#[test]
fn denied_external_read() {
    let mut pool = ServicePool::new();
    pool.create_service("denied", vec!["/denied".to_string()], "src".to_string()).unwrap();
    let r = plan_open(b"external:/etc/passwd", Some(b"r"), &empty());
    assert!(matches!(r, Err(ErrorKind::PermissionDenied)));
    let r = plan_open(b"external:/etc/passwd", None, &empty());
    assert!(matches!(r, Err(ErrorKind::PermissionDenied)));
    assert!(matches!(pool.get("denied"), Some(Service::Running(_))));
}

#[test]
fn external_needs_matching_atoms() {
    let perms = PermissionSet::new(vec![Permission::new(Access::Read, b"/data")]);
    assert!(matches!(
        plan_open(b"external:/data/x.txt", None, &perms),
        Ok(Target::External(ref c)) if *c == comps(&["data", "x.txt"])
    ));
    assert!(matches!(
        plan_open(b"external:/data/x.txt", Some(b"r+"), &perms),
        Err(ErrorKind::PermissionDenied)
    ));
    assert!(matches!(
        plan_open(b"external:/datax/y", None, &perms),
        Err(ErrorKind::PermissionDenied)
    ));
    assert!(matches!(
        plan_open(b"external:/data/../etc/passwd", None, &perms),
        Err(ErrorKind::PermissionDenied)
    ));
    let both = PermissionSet::new(vec![
        Permission::new(Access::Read, b"/data"),
        Permission::new(Access::Write, b"/data/out"),
    ]);
    assert!(plan_open(b"external:/data/out/a", Some(b"w+"), &both).is_ok());
    assert!(plan_modify(b"external:/data/out/d", &both).is_ok());
    assert!(matches!(plan_modify(b"external:/data/d", &both), Err(ErrorKind::PermissionDenied)));
}

#[test]
fn local_paths_stay_under_storage() {
    assert!(matches!(
        plan_open(b"../../etc/passwd", Some(b"w"), &empty()),
        Ok(Target::Local(ref c)) if *c == comps(&["etc", "passwd"])
    ));
    assert!(matches!(
        plan_modify(b"local:a/b", &empty()),
        Ok(Target::Local(ref c)) if *c == comps(&["a", "b"])
    ));
}

#[test]
fn modify_rules() {
    assert!(matches!(plan_modify(b"source:x", &empty()), Err(ErrorKind::CannotModifyServiceSource)));
    assert!(matches!(
        plan_modify(b"ftp:x", &empty()),
        Err(ErrorKind::SchemeNotSupported(ref s)) if s == b"ftp"
    ));
    assert!(matches!(
        plan_open(b"ftp:x", None, &empty()),
        Err(ErrorKind::SchemeNotSupported(_))
    ));
    assert!(matches!(plan_modify(&[0xc3], &empty()), Err(ErrorKind::InvalidPath)));
    assert!(matches!(plan_open(b"a.txt", Some(b"x"), &empty()), Err(ErrorKind::InvalidOpenMode)));
}

#[test]
fn remove_actions() {
    assert_eq!(remove_action(false, true).unwrap(), RemoveAction::RemoveFile);
    assert_eq!(remove_action(false, false).unwrap(), RemoveAction::RemoveFile);
    assert!(matches!(remove_action(true, false), Err(ErrorKind::DirectoryNeedsRecursive)));
    assert_eq!(remove_action(true, true).unwrap(), RemoveAction::RemoveDirAll);
}

#[test]
fn permission_check_is_by_component_prefix() {
    let perms = PermissionSet::new(vec![Permission::new(Access::Write, b"/srv/./app/")]);
    assert!(perms.check(Access::Write, &comps(&["srv", "app", "log"])).is_ok());
    assert!(perms.check(Access::Write, &comps(&["srv", "app"])).is_ok());
    assert!(matches!(perms.check(Access::Read, &comps(&["srv", "app"])), Err(ErrorKind::PermissionDenied)));
    assert!(matches!(perms.check(Access::Write, &comps(&["srv"])), Err(ErrorKind::PermissionDenied)));
}
