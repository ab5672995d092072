use knot::reindex::{Pending, WorkerAction, WorkerEvent};
use knot::startup::{
    first_step, migrate_code, migrate_refusal, normalize_addr, run_server, AppState, Next,
    ServerConfig, Step,
};

fn config() -> ServerConfig {
    ServerConfig {
        addr: ":3000".to_string(),
        database_url: "postgres://db".to_string(),
        tracing_enabled: true,
        otlp_endpoint: "http://otel".to_string(),
        oidc_enabled: true,
        session_key: "kéy".to_string(),
        base_url: "https://knot.example".to_string(),
        cookie_secure: false,
        blob_backend: "s3".to_string(),
        s3_bucket: "bucket".to_string(),
    }
}

/// The steps of a start in which all but `failing` succeed, and its end.
fn start(cfg: &ServerConfig, failing: Option<Step>) -> (Vec<Step>, Next) {
    let mut steps = vec![first_step(cfg)];
    loop {
        let step = steps[steps.len() - 1];
        match run_server(cfg, step, Some(step) != failing) {
            Next::Do(s) => steps.push(s),
            end => return (steps, end),
        }
    }
}

#[test]
fn a_full_start_takes_every_step() {
    let (steps, end) = start(&config(), None);
    assert_eq!(
        steps,
        vec![
            Step::TracingWithOtlp,
            Step::Metrics,
            Step::DiscoverOidc,
            Step::ConnectDatabase,
            Step::ConnectBus,
            Step::OpenS3,
            Step::Bind,
            Step::Serve,
        ]
    );
    assert_eq!(end, Next::Done);
}

#[test]
fn a_bare_start_serves_from_memory() {
    let mut cfg = config();
    cfg.database_url = String::new();
    cfg.oidc_enabled = false;
    cfg.tracing_enabled = false;
    let (steps, end) = start(&cfg, None);
    assert_eq!(steps, vec![Step::Logging, Step::Metrics, Step::Bind, Step::Serve]);
    assert_eq!(end, Next::Done);
    cfg.tracing_enabled = true;
    cfg.otlp_endpoint = String::new();
    assert_eq!(first_step(&cfg), Step::Logging);
    cfg.oidc_enabled = true;
    assert_eq!(run_server(&cfg, Step::DiscoverOidc, true), Next::Do(Step::Bind));
}

#[test]
fn failed_steps_end_the_process_with_their_code() {
    for (step, code) in [
        (Step::TracingWithOtlp, 2),
        (Step::DiscoverOidc, 2),
        (Step::ConnectDatabase, 3),
        (Step::ConnectBus, 2),
        (Step::OpenS3, 2),
        (Step::Bind, 4),
        (Step::Serve, 5),
    ] {
        assert_eq!(start(&config(), Some(step)).1, Next::Exit(code), "{step:?}");
    }
    assert_eq!(run_server(&config(), Step::Logging, false), Next::Exit(2));
    // Without metrics the server starts all the same.
    assert_eq!(start(&config(), Some(Step::Metrics)).1, Next::Done);
}

#[test]
fn a_blob_store_in_s3_needs_a_bucket() {
    let mut cfg = config();
    cfg.s3_bucket = String::new();
    assert_eq!(start(&cfg, None).1, Next::Exit(2));
    cfg.blob_backend = "postgres".to_string();
    let (steps, end) = start(&cfg, None);
    assert!(!steps.contains(&Step::OpenS3));
    assert_eq!(end, Next::Done);
}

#[test]
fn migrations_need_a_database() {
    assert_eq!(migrate_refusal(""), Some(2));
    assert_eq!(migrate_refusal("postgres://db"), None);
    assert_eq!(migrate_code(true), 0);
    assert_eq!(migrate_code(false), 1);
}

#[test]
fn listen_addresses_are_written_in_full() {
    assert_eq!(normalize_addr(":3000"), "0.0.0.0:3000");
    assert_eq!(normalize_addr("localhost:3000"), "localhost:3000");
}

#[test]
fn a_server_is_wired_by_its_configuration() {
    let s = AppState::configured(&config());
    assert!(s.pool && s.docs && s.acl && s.notifications && s.tasks && s.comments);
    assert!(s.bus && s.rooms_v2 && s.board_rooms);
    assert_eq!(s.session_key, "kéy".as_bytes());
    assert_eq!(s.base_url, "https://knot.example");
    assert!(!s.cookie_secure);
    assert!(s.oidc_enabled && s.oidc);
    assert_eq!(s.session_deps().unwrap(), "kéy".as_bytes());
    let w = s.workers();
    assert!(w.reindex && w.acl_listener && w.comments_listener && w.sweep);
}

#[test]
fn a_server_without_a_database_keeps_its_defaults() {
    let mut cfg = config();
    cfg.database_url = String::new();
    let s = AppState::configured(&cfg);
    assert!(!s.pool && !s.sessions && !s.rooms_v2);
    assert_eq!(s.base_url, "http://localhost:3000");
    assert!(s.cookie_secure && !s.oidc_enabled);
    assert!(s.session_deps().is_none());
    let w = s.workers();
    assert!(!w.reindex && !w.acl_listener && !w.comments_listener && !w.sweep);
    assert!(AppState::in_memory().session_deps().is_none());
    let p = AppState::with_pool();
    assert_eq!(p.session_deps().unwrap(), Vec::<u8>::new());
    assert!(p.workers().sweep && !p.workers().reindex);
}

#[test]
fn changed_documents_are_refreshed_once_per_tick() {
    let mut p = Pending::new();
    assert!(matches!(p.step(WorkerEvent::Tick), WorkerAction::Wait));
    for id in [3, 1, 3, 2, 1] {
        assert!(matches!(p.step(WorkerEvent::Dirty(id)), WorkerAction::Wait));
    }
    match p.step(WorkerEvent::Tick) {
        WorkerAction::Flush(mut ids) => {
            ids.sort();
            assert_eq!(ids, vec![1, 2, 3]);
        }
        other => panic!("{other:?}"),
    }
    assert!(matches!(p.step(WorkerEvent::Tick), WorkerAction::Wait));
    p.step(WorkerEvent::Dirty(9));
    assert!(matches!(p.step(WorkerEvent::Closed), WorkerAction::Stop));
}
