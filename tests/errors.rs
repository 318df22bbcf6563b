use hive_core::error::{Detail, ErrorKind};
use hive_core::response::{method_not_allowed, Error};

fn obj(entries: Vec<(&str, Detail)>) -> Detail {
    Detail::Object(entries.into_iter().map(|(k, v)| (k.to_string(), v)).collect())
}

fn text(s: &str) -> Detail {
    Detail::Text(s.to_string())
}

#[test]
fn statuses_of_core_errors() {
    let e = Error::from_kind(ErrorKind::ServiceNotFound("x".to_string()));
    assert_eq!(e.status, 404);
    assert_eq!(e.error, "service not found");
    assert_eq!(e.detail, obj(vec![("name", text("x"))]));
    assert_eq!(Error::from_kind(ErrorKind::InvalidServiceName("x".to_string())).status, 400);
    assert_eq!(Error::from_kind(ErrorKind::ServiceExists("x".to_string())).status, 409);
    let p = Error::from_kind(ErrorKind::ServicePathNotFound {
        service: "s".to_string(),
        path: "/p".to_string(),
    });
    assert_eq!(p.status, 404);
    assert_eq!(p.detail, obj(vec![("service", text("s")), ("path", text("/p"))]));
    let d = Error::from_kind(ErrorKind::PermissionDenied);
    assert_eq!(d.status, 500);
    assert_eq!(d.error, "hive core error");
    assert_eq!(d.detail, obj(vec![("msg", text("permission denied"))]));
    let l = Error::from_kind(ErrorKind::ScriptError {
        traceback: "tb".to_string(),
        cause: "boom".to_string(),
    });
    assert_eq!(l.status, 500);
    assert_eq!(l.error, "Lua error");
    assert_eq!(l.detail, obj(vec![("msg", text("boom")), ("traceback", text("tb"))]));
    let r = Error::from_kind(ErrorKind::DirectoryNeedsRecursive);
    assert_eq!(r.status, 500);
    assert_eq!(r.detail, obj(vec![("msg", text("removing a directory requires recursive"))]));
}

#[test]
fn custom_script_errors_keep_their_status() {
    let c = Error::from_kind(ErrorKind::ScriptCustom {
        status: 418,
        error: "teapot".to_string(),
        detail: text("short and stout"),
    });
    assert_eq!(c.status, 418);
    assert_eq!(c.error, "teapot");
    assert_eq!(c.detail, obj(vec![("msg", text("short and stout"))]));
    let bad = Error::from_kind(ErrorKind::ScriptCustom {
        status: 7,
        error: "odd".to_string(),
        detail: Detail::Null,
    });
    assert_eq!(bad.status, 500);
}

#[test]
fn add_detail_wraps_and_replaces() {
    let mut e = Error::new(400, "bad".to_string(), Detail::Int(3));
    e.add_detail("k".to_string(), Detail::Bool(true));
    assert_eq!(e.detail, obj(vec![("msg", Detail::Int(3)), ("k", Detail::Bool(true))]));
    e.add_detail("k".to_string(), Detail::Bool(false));
    assert_eq!(e.detail, obj(vec![("msg", Detail::Int(3)), ("k", Detail::Bool(false))]));
    let mut t = Error::new(400, "bad".to_string(), text("m"));
    t.add_detail("x".to_string(), Detail::Null);
    assert_eq!(t.detail, obj(vec![("msg", text("m")), ("x", Detail::Null)]));
    let mut n = Error::bad_request("nope".to_string());
    n.add_detail("msg".to_string(), Detail::Int(1));
    assert_eq!(n.detail, obj(vec![("msg", Detail::Int(1))]));
}

#[test]
fn server_errors_are_hidden_from_anonymous_callers() {
    let e = Error::new(503, "down".to_string(), text("db"));
    assert!(e.is_server_error());
    assert_eq!(Error::new(503, "down".to_string(), text("db")).into_response(false).0, 503);
    assert_eq!(
        e.into_response(false).1,
        obj(vec![
            ("error", text("internal server error")),
            ("detail", obj(vec![("msg", text("Contact system administrator for help"))])),
        ])
    );
    let e = Error::new(503, "down".to_string(), text("db"));
    assert_eq!(
        e.into_response(true).1,
        obj(vec![("error", text("down")), ("detail", obj(vec![("msg", text("db"))]))])
    );
    let c = Error::bad_request("bad".to_string());
    assert!(!c.is_server_error());
    assert_eq!(c.into_response(false).1, obj(vec![("error", text("bad")), ("detail", Detail::Null)]));
}

#[test]
fn method_not_allowed_lists_methods() {
    let e = method_not_allowed(vec!["GET".to_string(), "POST".to_string()], "PUT".to_string());
    assert_eq!(e.status, 405);
    assert_eq!(e.error, "method not allowed");
    assert_eq!(
        e.detail,
        obj(vec![
            ("expected", Detail::List(vec![text("GET"), text("POST")])),
            ("got", text("PUT")),
        ])
    );
}
