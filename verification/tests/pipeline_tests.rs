use terminal_velocity::assets::{plan_mirror, DirListing};
use terminal_velocity::config::Config;
use terminal_velocity::errors::Error;
use terminal_velocity::init::{validate_site_directory, SiteDirProbe};
use terminal_velocity::serve::{
    check_output_ready, resolve_request_path, route, RouteDecision, Server,
};
use terminal_velocity::watch::{Debouncer, WatchAction};

#[test]
fn test_copy_static_files() {
    let listing = DirListing {
        exists: true,
        files: vec!["css/style.css".to_string()],
    };
    let plan = plan_mirror("/site/static", &listing, "/site/dist");
    assert_eq!(plan.len(), 1);
    assert_eq!(plan[0].source, "/site/static/css/style.css");
    assert_eq!(plan[0].dest, "/site/dist/css/style.css");
}

#[test]
fn test_mirror_absent_source_plans_nothing() {
    let listing = DirListing {
        exists: false,
        files: vec![],
    };
    let plan = plan_mirror("/site/missing", &listing, "/site/dist");
    assert!(plan.is_empty());
}

#[test]
fn test_mirror_preserves_relative_structure() {
    let listing = DirListing {
        exists: true,
        files: vec!["a.txt".to_string(), "deep/nested/b.txt".to_string()],
    };
    let plan = plan_mirror("/src", &listing, "/dst");
    assert_eq!(plan.len(), 2);
    assert_eq!(plan[1].source, "/src/deep/nested/b.txt");
    assert_eq!(plan[1].dest, "/dst/deep/nested/b.txt");
}

#[test]
fn test_validate_site_directory_ok() {
    let probe = SiteDirProbe {
        exists: true,
        has_posts: true,
        has_templates: true,
        has_static_css: true,
    };
    assert!(validate_site_directory("/site", &probe).is_ok());
}

#[test]
fn test_validate_site_directory_missing() {
    let probe = SiteDirProbe {
        exists: false,
        has_posts: false,
        has_templates: false,
        has_static_css: false,
    };
    let err = validate_site_directory("/site", &probe).unwrap_err();
    assert!(matches!(err, Error::DirectoryNotFound(_)));
    assert_eq!(err.describe(), "Directory not found: /site");

    let probe = SiteDirProbe {
        exists: true,
        has_posts: false,
        has_templates: true,
        has_static_css: true,
    };
    let err = validate_site_directory("/site", &probe).unwrap_err();
    match &err {
        Error::MissingDirectory(d) => assert_eq!(d, "posts"),
        _ => panic!("expected a missing-directory error"),
    }
    assert_eq!(err.describe(), "Required directory missing: posts");

    let probe = SiteDirProbe {
        exists: true,
        has_posts: true,
        has_templates: true,
        has_static_css: false,
    };
    let err = validate_site_directory("/site", &probe).unwrap_err();
    match err {
        Error::MissingDirectory(d) => assert_eq!(d, "static/css"),
        _ => panic!("expected a missing-directory error"),
    }
}

#[test]
fn test_debounce_burst_single_rebuild() {
    let mut d = Debouncer::new(500, 0);
    // A burst of many events: the first arrives after the window has
    // elapsed; the rest arrive while the next window is still open.
    let events: Vec<(u64, u64)> = vec![
        (600, 650),
        (700, 700),
        (800, 800),
        (900, 900),
        (1000, 1000),
        (1100, 1100),
    ];
    let mut rebuilds = 0;
    for (t, end) in events {
        match d.on_event(t) {
            WatchAction::Rebuild => {
                rebuilds += 1;
                d.rebuild_finished(end);
            }
            WatchAction::Ignore => {}
        }
    }
    assert_eq!(rebuilds, 1);
}

#[test]
fn test_process_events_counts_one_rebuild_per_burst() {
    let mut d = Debouncer::new(500, 0);
    let events: Vec<(u64, u64)> = vec![(600, 650), (700, 700), (800, 800), (1000, 1000)];
    let n = terminal_velocity::watch::process_events(&mut d, &events);
    assert_eq!(n, 1);
}

#[test]
fn test_debounce_next_window_rebuilds_again() {
    let mut d = Debouncer::new(500, 0);
    assert_eq!(d.on_event(600), WatchAction::Rebuild);
    d.rebuild_finished(650);
    assert_eq!(d.on_event(700), WatchAction::Ignore);
    assert_eq!(d.on_event(1149), WatchAction::Ignore);
    assert_eq!(d.on_event(1150), WatchAction::Rebuild);
}

#[test]
fn test_route_not_found_for_unmatched_path() {
    assert!(matches!(
        route("/nonexistent", false),
        RouteDecision::NotFound
    ));
}

#[test]
fn test_route_serves_index_for_root() {
    match route("/", true) {
        RouteDecision::ServeFile(f) => assert_eq!(f, "index.html"),
        RouteDecision::NotFound => panic!("the root must resolve to the index file"),
    }
}

#[test]
fn test_resolve_request_paths() {
    assert_eq!(resolve_request_path("/"), Some("index.html".to_string()));
    assert_eq!(
        resolve_request_path("/posts/test-post/"),
        Some("posts/test-post/index.html".to_string())
    );
    assert_eq!(
        resolve_request_path("/css/style.css"),
        Some("css/style.css".to_string())
    );
    assert_eq!(resolve_request_path("/../etc/passwd"), None);
    assert_eq!(resolve_request_path("no-leading-slash"), None);
}

#[test]
fn test_check_output_ready() {
    assert!(check_output_ready("/site/dist", true).is_ok());
    let err = check_output_ready("/site/dist", false).unwrap_err();
    assert_eq!(
        err.describe(),
        "Output directory not found: /site/dist. Run `termv build` first."
    );
}

#[test]
fn test_server_holds_config() {
    let mut config = Config::default();
    config.server.port = 9000;
    let server = Server::new(config);
    assert_eq!(server.config.server.port, 9000);
}

#[test]
fn test_io_error_message() {
    let err = Error::Io("disk full".to_string());
    assert_eq!(err.describe(), "IO error: disk full");
}
