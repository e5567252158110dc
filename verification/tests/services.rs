use zoro_desktop::chat::ChatLoop;
use zoro_desktop::services::{update_updater_settings, UpdaterConfigResponse, update_log_settings, LogConfigResponse, session_file_path, navigation_action, query_value, NavigationAction, can_start_engine, download_file_name, local_paper_dir, remote_paper_file, tracks_sync_changes, needs_initial_sync, sort_latest_first, ChatSessionMeta, SyncRun};
use zoro_desktop::text::text_less_than;
use zoro_desktop::services::{
    build_status, cli_command_failure, cli_status, connector_config, connector_status, dark_mode_js,
    effective_password, frontend_log_entry, frontend_log_target, is_session_file, log_entries_since, log_level_name,
    max_file_size_bytes, mcp_args, needs_jianguoyun_limits, push_log, sessions_dir, stop_mcp_process,
    update_check_response, update_connector_settings, update_mcp_settings, CompatServerAction, ConnectorSettings,
    LogEntry, McpSettings, SyncScheduler, UpdateConnectorConfigInput, UpdateMcpConfigInput, DARK_MODE_OFF,
    DARK_MODE_ON, LOG_CAPACITY,
};

fn s(x: &str) -> String {
    x.to_string()
}

fn mcp() -> McpSettings {
    McpSettings { enabled: true, transport: s("http"), port: 3000 }
}

#[test]
fn mcp_status_forgets_an_ended_process() {
    let mut child = Some(42);
    let st = build_status(&mcp(), &mut child, true, true);
    assert!(st.running);
    assert_eq!(st.pid, Some(42));
    assert_eq!(child, Some(42));
    let st = build_status(&mcp(), &mut child, false, true);
    assert!(!st.running);
    assert_eq!(st.pid, None);
    assert_eq!(child, None);
    let st = build_status(&mcp(), &mut child, true, false);
    assert!(!st.running);
    assert!(!st.binary_found);
    assert_eq!(st.port, 3000);
    assert_eq!(st.transport, "http");
}

#[test]
fn stopped_server_is_not_running() {
    let mut child = Some(7);
    assert_eq!(stop_mcp_process(&mut child), Some(7));
    assert_eq!(child, None);
    assert_eq!(stop_mcp_process(&mut child), None);
    assert!(!build_status(&mcp(), &mut child, true, true).running);
}

#[test]
fn mcp_arguments_and_settings() {
    assert_eq!(mcp_args("stdio", 8080, "/data"), vec![s("--transport"), s("stdio"), s("--port"), s("8080"), s("--data-dir"), s("/data")]);
    let mut c = mcp();
    update_mcp_settings(&mut c, UpdateMcpConfigInput { enabled: Some(false), transport: None, port: Some(1) });
    assert!(!c.enabled);
    assert_eq!(c.transport, "http");
    assert_eq!(c.port, 1);
}

fn connector() -> ConnectorSettings {
    ConnectorSettings { enabled: true, port: 23119, zotero_compat_enabled: false, zotero_compat_port: 23120 }
}

#[test]
fn connector_reports() {
    let st = connector_status(&connector(), false, Some(s("port busy")));
    assert!(st.running);
    assert!(!st.zotero_compat_running);
    assert_eq!(st.zotero_compat_error, Some(s("port busy")));
    let cfg = connector_config(&connector());
    assert_eq!(cfg.port, 23119);
    assert_eq!(cfg.zotero_compat_port, 23120);
}

#[test]
fn compat_server_starts_and_stops_on_switch_only() {
    let mut c = connector();
    let a = update_connector_settings(&mut c, UpdateConnectorConfigInput { zotero_compat_enabled: Some(true), zotero_compat_port: Some(9000) });
    assert!(matches!(a, CompatServerAction::Start(9000)));
    let b = update_connector_settings(&mut c, UpdateConnectorConfigInput { zotero_compat_enabled: None, zotero_compat_port: Some(9001) });
    assert!(matches!(b, CompatServerAction::Keep));
    assert_eq!(c.zotero_compat_port, 9001);
    let d = update_connector_settings(&mut c, UpdateConnectorConfigInput { zotero_compat_enabled: Some(false), zotero_compat_port: None });
    assert!(matches!(d, CompatServerAction::Stop));
    assert!(c.enabled);
}

#[test]
fn cli_reports() {
    let st = cli_status(Some(s("/usr/local/bin/zoro")), true);
    assert!(st.installed);
    assert_eq!(st.path, Some(s("/usr/local/bin/zoro")));
    assert!(!cli_status(None, false).installed);
    assert_eq!(cli_command_failure("install", "  out \n", "\terr "), "install failed: outerr");
}

#[test]
fn session_files() {
    assert_eq!(sessions_dir("/data"), "/data/agent-sessions");
    assert_eq!(sessions_dir("/data/"), "/data/agent-sessions");
    assert!(is_session_file("abc.json"));
    assert!(!is_session_file("abc.JSON"));
    assert!(!is_session_file(".json"));
    assert!(!is_session_file("abc.txt"));
}

#[test]
fn dark_mode_scripts() {
    assert_eq!(dark_mode_js(true), DARK_MODE_ON);
    assert_eq!(dark_mode_js(false), DARK_MODE_OFF);
    assert!(DARK_MODE_ON.contains("zoro-dark-mode"));
}

fn entry(id: u64) -> LogEntry {
    LogEntry { id, timestamp: s("t"), level: s("INFO"), target: s("x"), message: s("m") }
}

#[test]
fn log_ring_keeps_the_newest() {
    let mut buf: Vec<LogEntry> = Vec::new();
    for i in 0..(LOG_CAPACITY as u64 + 5) {
        push_log(&mut buf, entry(i));
    }
    assert_eq!(buf.len(), LOG_CAPACITY);
    assert_eq!(buf[0].id, 5);
    assert_eq!(buf[LOG_CAPACITY - 1].id, LOG_CAPACITY as u64 + 4);
}

#[test]
fn log_entries_and_levels() {
    assert_eq!(log_entries_since(&vec![3, 5, 7, 9], Some(5)), vec![2, 3]);
    assert_eq!(log_entries_since(&vec![3, 5], None), vec![0, 1]);
    assert_eq!(log_level_name(true), "DEBUG");
    assert_eq!(log_level_name(false), "INFO");
    assert_eq!(frontend_log_target("reader"), "frontend::reader");
    let e = frontend_log_entry(9, s("WARN"), "ui", s("hi"));
    assert_eq!(e.id, 9);
    assert_eq!(e.target, "frontend::ui");
    assert!(!e.timestamp.is_empty());
    assert!(e.timestamp.ends_with("+00:00"));
    assert_eq!(&e.timestamp[10..11], "T");
    assert_eq!(&e.timestamp[13..14], ":");
}

#[test]
fn update_check_results() {
    let r = update_check_response(Some((s("1.2.0"), None)), s("1.1.0"));
    assert!(r.available);
    assert_eq!(r.version, "1.2.0");
    assert_eq!(r.body, "");
    let n = update_check_response(None, s("1.1.0"));
    assert!(!n.available);
    assert_eq!(n.current_version, "1.1.0");
}

#[test]
fn sync_settings_helpers() {
    assert!(needs_jianguoyun_limits("https://dav.jianguoyun.com/dav/"));
    assert!(needs_jianguoyun_limits("https://nutstore.example"));
    assert!(!needs_jianguoyun_limits("https://example.org/dav"));
    assert_eq!(effective_password(s(""), &s("saved")), "saved");
    assert_eq!(effective_password(s("new"), &s("saved")), "new");
    assert_eq!(max_file_size_bytes(0), 0);
    assert_eq!(max_file_size_bytes(5), 5 * 1024 * 1024);
    assert_eq!(max_file_size_bytes(u32::MAX), u32::MAX as u64 * 1048576);
}

#[test]
fn sync_backoff() {
    let mut sch = SyncScheduler::new();
    assert_eq!(sch.wait_secs(false, 10), 30);
    assert_eq!(sch.wait_secs(true, 10), 600);
    assert_eq!(sch.wait_secs(true, 0), 60);
    sch.record(false);
    assert_eq!(sch.backoff_secs, 60);
    assert_eq!(sch.wait_secs(true, 10), 60);
    for _ in 0..10 {
        sch.record(false);
    }
    assert_eq!(sch.backoff_secs, 1800);
    sch.record(true);
    assert_eq!(sch.backoff_secs, 0);
}

#[test]
fn manual_sync_runs_one_at_a_time() {
    let mut run = SyncRun::new();
    assert_eq!(run.begin(false), Err(s("Sync engine not initialized. Please configure WebDAV sync first.")));
    assert!(!run.syncing);
    assert_eq!(run.begin(true), Ok(()));
    assert!(run.syncing);
    assert_eq!(run.begin(true), Err(s("Sync is already in progress")));
    assert_eq!(run.finish(Err(s("timeout"))), Err(s("timeout")));
    assert!(!run.syncing);
    assert_eq!(run.last_error, Some(s("timeout")));
    assert_eq!(run.begin(true), Ok(()));
    assert_eq!(run.last_error, None);
    assert_eq!(run.finish(Ok(())), Ok(()));
    assert!(!run.syncing);
    assert_eq!(run.last_error, None);
    assert!(needs_initial_sync(&None));
    assert!(!needs_initial_sync(&Some(s("2024-01-01T00:00:00Z"))));
}

fn session_meta(id: &str, updated_at: &str) -> ChatSessionMeta {
    ChatSessionMeta {
        id: id.to_string(),
        agent_name: "agent".to_string(),
        title: "t".to_string(),
        message_count: 0,
        created_at: "2024-01-01T00:00:00Z".to_string(),
        updated_at: updated_at.to_string(),
        cwd: None,
    }
}

#[test]
fn sessions_listed_latest_first() {
    let sessions = vec![
        session_meta("a", "2024-03-01T10:00:00Z"),
        session_meta("b", "2024-05-01T10:00:00Z"),
        session_meta("c", "2024-03-01T10:00:00Z"),
        session_meta("d", "2023-12-31T23:59:59Z"),
        session_meta("e", "2024-05-01T10:00:00Z1"),
    ];
    let sorted = sort_latest_first(sessions);
    let ids: Vec<&str> = sorted.iter().map(|s| s.id.as_str()).collect();
    assert_eq!(ids, vec!["e", "b", "a", "c", "d"]);
    assert!(sort_latest_first(Vec::new()).is_empty());
}

#[test]
fn text_order_matches_string_order() {
    let words = ["", "a", "ab", "b", "B", "é", "z", "aa"];
    for x in words.iter() {
        for y in words.iter() {
            assert_eq!(text_less_than(x, y), x < y, "{} < {}", x, y);
        }
    }
}

#[test]
fn paper_file_download_paths() {
    assert_eq!(download_file_name("pdf"), Ok("paper.pdf".to_string()));
    assert_eq!(download_file_name("html"), Ok("paper.html".to_string()));
    assert_eq!(download_file_name("epub"), Err("Unknown file type: epub".to_string()));
    assert_eq!(
        remote_paper_file("/dav//", "smith-2020", "paper.pdf"),
        "/dav/zoro/library/papers/smith-2020/paper.pdf"
    );
    assert_eq!(remote_paper_file("", "s", "paper.html"), "/zoro/library/papers/s/paper.html");
    assert_eq!(local_paper_dir("/data", "s"), "/data/library/papers/s");
    assert_eq!(local_paper_dir("/data/", "s"), "/data/library/papers/s");
}

#[test]
fn sync_setup_conditions() {
    assert!(tracks_sync_changes(true, "dev-1"));
    assert!(!tracks_sync_changes(true, ""));
    assert!(!tracks_sync_changes(false, "dev-1"));
    assert!(can_start_engine(true, "https://dav.example"));
    assert!(!can_start_engine(true, ""));
    assert!(!can_start_engine(false, "https://dav.example"));
}

fn pairs(items: &[(&str, &str)]) -> Vec<(String, String)> {
    items.iter().map(|(k, v)| (k.to_string(), v.to_string())).collect()
}

#[test]
fn browser_navigation_requests() {
    let p = pairs(&[("x", "1"), ("url", "https://a.example/p"), ("url", "https://b.example")]);
    match navigation_action("zoro-url-change", &p) {
        NavigationAction::ReportUrl(Some(u)) => assert_eq!(u, "https://a.example/p"),
        _ => panic!("expected a reported URL"),
    }
    assert!(matches!(navigation_action("zoro-url-change", &pairs(&[])), NavigationAction::ReportUrl(None)));
    match navigation_action("zoro-page-info", &pairs(&[("title", "Paper"), ("favicon", "https://a/icon.png")])) {
        NavigationAction::ReportPageInfo(t, f) => {
            assert_eq!(t, "Paper");
            assert_eq!(f, "https://a/icon.png");
        }
        _ => panic!("expected page info"),
    }
    match navigation_action("zoro-page-info", &pairs(&[("title", "T")])) {
        NavigationAction::ReportPageInfo(t, f) => {
            assert_eq!(t, "T");
            assert_eq!(f, "");
        }
        _ => panic!("expected page info"),
    }
    assert!(matches!(navigation_action("https", &p), NavigationAction::Allow));
    assert_eq!(query_value(&p, "url"), Some("https://a.example/p".to_string()));
    assert_eq!(query_value(&p, "y"), None);
}

#[test]
fn session_file_location() {
    assert_eq!(session_file_path("/data", "abc"), "/data/agent-sessions/abc.json");
    assert_eq!(session_file_path("/data/", "x-1"), "/data/agent-sessions/x-1.json");
}

#[test]
fn log_settings_update() {
    let mut c = LogConfigResponse { log_to_file: false, log_retention_days: 7 };
    update_log_settings(&mut c, Some(true), None);
    assert!(c.log_to_file);
    assert_eq!(c.log_retention_days, 7);
    update_log_settings(&mut c, None, Some(30));
    assert!(c.log_to_file);
    assert_eq!(c.log_retention_days, 30);
}

#[test]
fn updater_settings_update() {
    let mut c = UpdaterConfigResponse { auto_check: true, skipped_version: String::new() };
    update_updater_settings(&mut c, None, Some("1.2.0".to_string()));
    assert!(c.auto_check);
    assert_eq!(c.skipped_version, "1.2.0");
    update_updater_settings(&mut c, Some(false), None);
    assert!(!c.auto_check);
    assert_eq!(c.skipped_version, "1.2.0");
}

#[test]
fn backoff_doubles_up_to_half_an_hour() {
    let mut s = SyncScheduler::new();
    let mut waits = Vec::new();
    for _ in 0..7 {
        s.record(false);
        waits.push(s.wait_secs(true, 15));
    }
    assert_eq!(waits, vec![60, 120, 240, 480, 960, 1800, 1800]);
    s.record(true);
    assert_eq!(s.wait_secs(true, 15), 900);
    assert_eq!(s.wait_secs(true, 0), 60);
}

#[test]
fn chat_loop_request_budget() {
    let mut l = ChatLoop::new();
    let mut requests = 0;
    assert!(l.retry_without_tools(true));
    requests += 1;
    assert!(!l.retry_without_tools(true));
    while l.begin_round() {
        requests += 1;
    }
    assert_eq!(requests, 16);
}
