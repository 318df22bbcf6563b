use hive_core::error::ErrorKind;
use hive_core::service::{Service, ServicePool};

fn paths() -> Vec<String> {
    vec!["/echo".to_string()]
}

#[test]
fn create_then_get_is_running() {
    let mut pool = ServicePool::new();
    let h = pool.create_service("echo", paths(), "bundle/echo".to_string()).unwrap();
    assert_eq!(h.name, "echo");
    assert!(matches!(pool.get("echo"), Some(Service::Running(_))));
    let g = h.try_upgrade(&pool).unwrap();
    assert_eq!(g.name(), "echo");
    assert_eq!(g.paths(), &paths());
    assert_eq!(g.source(), "bundle/echo");
    assert_eq!((g.uuid() >> 76) & 0xf, 4);
}

#[test]
fn create_twice_is_service_exists() {
    let mut pool = ServicePool::new();
    pool.create_service("echo", paths(), "a".to_string()).unwrap();
    let e = pool.create_service("echo", paths(), "b".to_string()).unwrap_err();
    assert!(matches!(e, ErrorKind::ServiceExists(ref n) if n == "echo"));
    let g = pool.get_running("echo").unwrap().upgrade(&pool);
    assert_eq!(g.source(), "a");
}

#[test]
fn identities_differ_between_services() {
    let mut pool = ServicePool::new();
    let a = pool.create_service("a", paths(), "a".to_string()).unwrap();
    let b = pool.create_service("b", paths(), "b".to_string()).unwrap();
    assert_ne!(a.upgrade(&pool).uuid(), b.upgrade(&pool).uuid());
    assert!(!a.ptr_eq(&b));
    assert!(a.ptr_eq(&a.clone()));
}

#[test]
fn stop_start_remove_walk() {
    let mut pool = ServicePool::new();
    let h = pool.create_service("fs1", paths(), "src".to_string()).unwrap();
    let uuid = h.upgrade(&pool).uuid();

    let target = pool.begin_stop("fs1").unwrap();
    assert!(target.ptr_eq(&h));
    let stopped = pool.stop("fs1", Ok(())).unwrap();
    assert_eq!(stopped.record.name, "fs1");
    assert_eq!(stopped.record.uuid, uuid);
    assert!(matches!(pool.get("fs1"), Some(Service::Stopped(_))));
    assert!(pool.get_running("fs1").is_none());
    assert!(h.is_dropped(&pool));
    assert!(matches!(h.try_upgrade(&pool), Err(ErrorKind::ServiceDropped)));

    let h2 = pool.begin_start("fs1").unwrap();
    let h3 = pool.start(&h2, Ok(())).unwrap();
    assert!(h3.ptr_eq(&h2));
    assert!(!h2.ptr_eq(&h));
    assert_eq!(h3.upgrade(&pool).uuid(), uuid);

    assert!(matches!(pool.remove("fs1"), Err(ErrorKind::ServiceRunning(_))));
    pool.begin_stop("fs1").unwrap();
    pool.stop("fs1", Ok(())).unwrap();
    let record = pool.remove("fs1").unwrap();
    assert_eq!(record.name, "fs1");
    assert!(pool.get("fs1").is_none());
}

#[test]
fn errors_on_missing_and_wrong_state() {
    let mut pool = ServicePool::new();
    assert!(matches!(pool.begin_stop("x"), Err(ErrorKind::ServiceNotFound(_))));
    assert!(matches!(pool.stop("x", Ok(())), Err(ErrorKind::ServiceNotFound(_))));
    assert!(matches!(pool.begin_start("x"), Err(ErrorKind::ServiceNotFound(_))));
    assert!(matches!(pool.remove("x"), Err(ErrorKind::ServiceNotFound(_))));
    pool.create_service("x", paths(), "s".to_string()).unwrap();
    assert!(matches!(pool.begin_start("x"), Err(ErrorKind::ServiceRunning(_))));
    pool.stop("x", Ok(())).unwrap();
    assert!(matches!(pool.begin_stop("x"), Err(ErrorKind::ServiceStopped(_))));
    assert!(matches!(pool.stop("x", Ok(())), Err(ErrorKind::ServiceStopped(_))));
}

#[test]
fn failed_stop_hook_still_stops() {
    let mut pool = ServicePool::new();
    pool.create_service("svc", paths(), "s".to_string()).unwrap();
    let r = pool.stop("svc", Err(ErrorKind::Io("hook failed".to_string())));
    assert!(matches!(r, Err(ErrorKind::Io(ref m)) if m == "hook failed"));
    assert!(matches!(pool.get("svc"), Some(Service::Stopped(_))));
}

#[test]
fn failed_start_hook_goes_back_to_stopped() {
    let mut pool = ServicePool::new();
    pool.create_service("svc", paths(), "s".to_string()).unwrap();
    pool.stop("svc", Ok(())).unwrap();
    let h = pool.begin_start("svc").unwrap();
    assert!(matches!(pool.get("svc"), Some(Service::Running(_))));
    let r = pool.start(&h, Err(ErrorKind::PermissionDenied));
    assert!(matches!(r, Err(ErrorKind::PermissionDenied)));
    assert!(matches!(pool.get("svc"), Some(Service::Stopped(_))));
}

#[test]
fn stop_during_start_sees_running_state() {
    let mut pool = ServicePool::new();
    pool.create_service("slow", paths(), "s".to_string()).unwrap();
    pool.stop("slow", Ok(())).unwrap();
    let h = pool.begin_start("slow").unwrap();
    // A second caller while the start hook runs sees one whole state.
    assert!(matches!(pool.begin_start("slow"), Err(ErrorKind::ServiceRunning(_))));
    assert!(matches!(pool.get("slow"), Some(Service::Running(_))));
    pool.start(&h, Ok(())).unwrap();
    assert!(pool.get_running("slow").is_some());
}

#[test]
fn start_with_stale_handle_is_dropped() {
    let mut pool = ServicePool::new();
    let h = pool.create_service("svc", paths(), "s".to_string()).unwrap();
    pool.stop("svc", Ok(())).unwrap();
    assert!(matches!(pool.start(&h, Ok(())), Err(ErrorKind::ServiceDropped)));
}

#[test]
fn list_and_running_services() {
    let mut pool = ServicePool::new();
    pool.create_service("a", paths(), "s".to_string()).unwrap();
    pool.create_service("b", paths(), "s".to_string()).unwrap();
    pool.create_service("c", paths(), "s".to_string()).unwrap();
    pool.stop("b", Ok(())).unwrap();
    let list = pool.list();
    assert_eq!(list.len(), 3);
    let stopped: Vec<_> = list
        .iter()
        .filter_map(|s| match s {
            Service::Stopped(v) => Some(v.record.name.clone()),
            _ => None,
        })
        .collect();
    assert_eq!(stopped, vec!["b".to_string()]);
    let mut running: Vec<String> = pool.running_services().into_iter().map(|h| h.name).collect();
    running.sort();
    assert_eq!(running, vec!["a".to_string(), "c".to_string()]);
}

#[test]
fn names_are_case_sensitive() {
    let mut pool = ServicePool::new();
    pool.create_service("Echo", paths(), "s".to_string()).unwrap();
    assert!(pool.get("echo").is_none());
    assert!(pool.create_service("echo", paths(), "s".to_string()).is_ok());
}
