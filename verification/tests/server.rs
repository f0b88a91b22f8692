use claude_kanban::server::security::{guard, Asked, VERSION_HEADER};
use claude_kanban::server::sse::{announced, interesting, EVENT};
use claude_kanban::server::{
    allowed_hosts, allowed_origins, already_served, assets, bind_failure_hint, bind_listener, live_serve, open_browser,
    poller_delay, project_title, ui_owner, url, BindFacts, BindOutcome, Bound, DEFAULT_PORT,
};

#[test]
fn no_open_opens_nothing() {
    assert!(open_browser("http://127.0.0.1:4747/", true).is_none());
    assert_eq!(open_browser("http://127.0.0.1:4747/", false).as_deref(), Some("http://127.0.0.1:4747/"));
}

#[test]
fn only_loopback_names_of_the_port_are_answered() {
    assert_eq!(url(DEFAULT_PORT), "http://127.0.0.1:4747/");
    assert_eq!(allowed_hosts(80), vec!["127.0.0.1:80", "localhost:80"]);
    assert_eq!(allowed_origins(80), vec!["http://127.0.0.1:80", "http://localhost:80"]);
}

fn asked(method: &str, host: Option<&str>, has_version: bool, origin: Option<&str>) -> Asked {
    Asked { method: method.into(), host: host.map(str::to_owned), has_version, origin: origin.map(|o| Some(o.to_owned())) }
}

#[test]
fn loopback_hardening_rejects_what_it_should() {
    let (hosts, origins) = (allowed_hosts(4747), allowed_origins(4747));
    let refused = |a: &Asked| guard(a, &hosts, &origins).is_some();
    assert_eq!(VERSION_HEADER, "x-board-version");
    assert!(refused(&asked("GET", Some("evil.example:4747"), false, None)), "a wrong host is refused even for reads");
    assert!(refused(&asked("GET", None, false, None)));
    assert!(refused(&asked("POST", Some("127.0.0.1:4747"), false, None)), "a mutation needs the custom header");
    assert!(
        refused(&asked("POST", Some("127.0.0.1:4747"), true, Some("https://evil.example"))),
        "a foreign origin is refused even with the header present"
    );
    assert!(!refused(&asked("GET", Some("localhost:4747"), false, None)));
    assert!(!refused(&asked("POST", Some("127.0.0.1:4747"), true, None)));
    assert!(!refused(&asked("POST", Some("127.0.0.1:4747"), true, Some("http://127.0.0.1:4747"))));
}

#[test]
fn the_default_port_hunts_but_an_explicit_port_fails_loudly() {
    let none = BindFacts::default();
    assert_eq!(bind_listener(None, 4747, "hint", &none), Bound::Bind(4747));
    assert_eq!(bind_listener(Some(80), 4747, "hint", &none), Bound::Bind(80));
    let ok = BindFacts { first: Some(BindOutcome::Bound), ..BindFacts::default() };
    assert_eq!(bind_listener(None, 4747, "hint", &ok), Bound::Listener);

    let taken = |served, second| BindFacts { first: Some(BindOutcome::InUse("in use".into())), served, second };
    assert_eq!(bind_listener(None, 4747, "hint", &taken(None, None)), Bound::AskServed);
    assert_eq!(bind_listener(None, 4747, "hint", &taken(Some(None), None)), Bound::Bind(0), "hunt to a free port");
    assert_eq!(bind_listener(None, 4747, "hint", &taken(Some(None), Some(BindOutcome::Bound))), Bound::Listener);
    assert_eq!(
        bind_listener(None, 4747, "hint", &taken(Some(Some((17, 5000))), None)),
        Bound::AlreadyServed { pid: 17, port: 5000 },
        "a live serve is reported, not duplicated"
    );
    assert!(matches!(bind_listener(Some(4747), 4747, "hint", &taken(None, None)), Bound::Fail(e) if e.contains("hint")));
    let failed = BindFacts { first: Some(BindOutcome::Failed("denied".into())), ..BindFacts::default() };
    assert!(matches!(bind_listener(None, 4747, "hint", &failed), Bound::Fail(e) if e.contains("denied")));
}

#[test]
fn the_pid_file_names_the_running_serve() {
    assert_eq!(live_serve(r#"{"pid": 17, "port": 5000}"#), Some((17, 5000)));
    assert_eq!(live_serve(r#"{"pid": 17, "port": 70000}"#), None, "no such port");
    assert_eq!(live_serve("garbage"), None);
    let hint = bind_failure_hint(4747, Some(r#"{"pid": 17, "port": 5000}"#), "remove /x/serve.pid");
    assert!(hint.contains("already seems to be running (pid 17, port 5000; "), "{hint}");
    let odd = bind_failure_hint(4747, Some(r#"{"pid": -1.5}"#), "x");
    assert!(odd.contains("(pid -1.5, port null; "), "{odd}");
    let odd = bind_failure_hint(4747, Some(r#"{"pid": true, "port": "a"}"#), "x");
    assert!(odd.contains("(pid true, port \"a\"; "), "{odd}");
    assert_eq!(bind_failure_hint(4747, None, "x"), "could not bind 127.0.0.1:4747");
    assert_eq!(bind_failure_hint(4747, Some("garbage"), "x"), "could not bind 127.0.0.1:4747");
    let line = already_served(17, 5000);
    assert!(line.contains("17") && line.contains("5000"), "{line}");
}

#[test]
fn the_poller_rests_as_long_as_configured_and_rechecks_when_off() {
    assert_eq!(poller_delay(Some(5), Some(90)), (5, true), "a pinned pace wins");
    assert_eq!(poller_delay(None, Some(90)), (90, true));
    assert_eq!(poller_delay(None, None), (60, false), "switched off, but looking again in a minute");
}

#[test]
fn names_fall_back() {
    assert_eq!(project_title(Some("repo".into())), "repo");
    assert_eq!(project_title(None), "kanban");
    assert_eq!(ui_owner(Some("Ada".into()), Some("ada".into())), "Ada");
    assert_eq!(ui_owner(None, Some("ada".into())), "ada");
    assert_eq!(ui_owner(None, None), "user");
}

#[test]
fn only_board_and_claims_writes_are_announced() {
    assert!(interesting(&vec!["lock".into(), "board.json".into()]));
    assert!(interesting(&vec!["claims.json".into()]));
    assert!(!interesting(&vec!["board.json.tmp".into(), "serve.pid".into()]));
    assert_eq!(announced(Some(7)), 7);
    assert_eq!(announced(None), 0);
    assert_eq!(EVENT, "board-changed");
}

#[test]
fn assets_have_their_content_types() {
    assert_eq!(assets::content_type("glue.js"), "text/javascript; charset=utf-8");
    assert_eq!(assets::content_type("diff.css"), "text/css; charset=utf-8");
    assert_eq!(assets::content_type("logo.svg"), "image/svg+xml");
    assert_eq!(assets::content_type("unknown.bin"), "application/octet-stream");
}

#[test]
fn an_unreadable_origin_is_refused() {
    let (hosts, origins) = (allowed_hosts(4747), allowed_origins(4747));
    let mut a = asked("POST", Some("127.0.0.1:4747"), true, None);
    assert!(guard(&a, &hosts, &origins).is_none());
    a.origin = Some(None);
    assert_eq!(guard(&a, &hosts, &origins), Some("cross-origin mutations are not allowed"));
    a.method = "GET".into();
    assert!(guard(&a, &hosts, &origins).is_none(), "reads are not guarded by origin");
}
