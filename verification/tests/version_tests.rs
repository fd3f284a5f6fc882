use dsh_desktop::version::{
    check_update, extract_version_from_registry, format_update_text, query_latest_dsh_version,
    registry_answer, registry_request, version_from_output, version_wait_step, LatestQuery,
    UpdateInfo, VersionWait, VERSION_POLL_MS,
};

#[test]
fn extract_version_from_registry_parses() {
    let body = r#"{"bin":{"dsh":"lib/bin.js"},"version":"0.1.0-rc.7","license":"MIT"}"#;
    assert_eq!(
        extract_version_from_registry(body),
        Some("0.1.0-rc.7".to_string())
    );
}

#[test]
fn extract_version_from_registry_returns_none_on_garbage() {
    assert_eq!(extract_version_from_registry("not json at all"), None);
    assert_eq!(extract_version_from_registry(""), None);
}

#[test]
fn format_update_text_covers_all_cases() {
    let mk = |l: Option<&str>, r: Option<&str>| UpdateInfo {
        local_version: l.map(String::from),
        latest_version: r.map(String::from),
        error: None,
    };
    assert_eq!(
        format_update_text(&mk(Some("0.1.0-rc.6"), Some("0.1.0-rc.6"))),
        "dsh 已是最新（v0.1.0-rc.6）"
    );
    assert_eq!(
        format_update_text(&mk(Some("0.1.0-rc.6"), Some("0.1.0-rc.7"))),
        "dsh 有更新：v0.1.0-rc.6 → v0.1.0-rc.7"
    );
    assert_eq!(
        format_update_text(&mk(Some("0.1.0-rc.6"), None)),
        "dsh v0.1.0-rc.6（最新版本查询失败）"
    );
    assert_eq!(
        format_update_text(&mk(None, Some("0.1.0-rc.7"))),
        "本机 dsh 版本未知；官方最新 v0.1.0-rc.7"
    );
    assert_eq!(format_update_text(&mk(None, None)), "dsh 版本检查失败");
}

#[test]
fn extract_version_takes_first_key_and_stops_at_quote() {
    let body = r#"{"name":"x","version":"1.2.3","other":{"version":"9.9.9"}}"#;
    assert_eq!(extract_version_from_registry(body), Some("1.2.3".to_string()));
}

#[test]
fn extract_version_without_closing_quote_is_none() {
    assert_eq!(extract_version_from_registry(r#"{"version":"1.2.3"#), None);
}

#[test]
fn extract_version_allows_empty_and_unicode() {
    assert_eq!(extract_version_from_registry(r#""version":"""#), Some(String::new()));
    assert_eq!(
        extract_version_from_registry(r#"é"version":"版本2"x"#),
        Some("版本2".to_string())
    );
}

#[test]
fn registry_version_round_trip_example() {
    let body = format!("{}{}{}{}", "abc{", "\"version\":\"", "7.0.1", "\"}tail\"");
    assert_eq!(extract_version_from_registry(&body), Some("7.0.1".to_string()));
}

#[test]
fn version_output_first_line_trimmed() {
    assert_eq!(version_from_output("0.1.0\n"), Some("0.1.0".to_string()));
    assert_eq!(version_from_output("  0.2.0  \r\nmore\n"), Some("0.2.0".to_string()));
    assert_eq!(version_from_output("\u{3000}v3\u{a0}"), Some("v3".to_string()));
    assert_eq!(version_from_output(""), None);
    assert_eq!(version_from_output("\nsecond"), Some(String::new()));
    assert_eq!(version_from_output("   "), Some(String::new()));
}

#[test]
fn check_update_reports_missing_versions() {
    let both = check_update(Some("1".to_string()), Some("2".to_string()));
    assert_eq!(both.error, None);
    assert_eq!(both.local_version, Some("1".to_string()));
    assert_eq!(both.latest_version, Some("2".to_string()));
    let no_local = check_update(None, Some("2".to_string()));
    assert_eq!(no_local.error, Some("无法解析本机 dsh 版本".to_string()));
    let neither = check_update(None, None);
    assert_eq!(neither.error, Some("无法解析本机 dsh 版本".to_string()));
    let no_latest = check_update(Some("1".to_string()), None);
    assert_eq!(no_latest.error, Some("无法查询官方最新版本（网络？）".to_string()));
}

#[test]
fn latest_query_asks_registries_in_order() {
    match query_latest_dsh_version(0, None) {
        LatestQuery::Fetch { url } => {
            assert_eq!(url, "https://registry.npmjs.org/@deepseek-ai/dsh/latest")
        }
        other => panic!("unexpected {:?}", other),
    }
    match query_latest_dsh_version(1, None) {
        LatestQuery::Fetch { url } => {
            assert_eq!(url, "https://registry.npmmirror.com/@deepseek-ai/dsh/latest")
        }
        other => panic!("unexpected {:?}", other),
    }
    match query_latest_dsh_version(2, None) {
        LatestQuery::Done { version } => assert_eq!(version, None),
        other => panic!("unexpected {:?}", other),
    }
    match query_latest_dsh_version(1, Some("0.3.0".to_string())) {
        LatestQuery::Done { version } => assert_eq!(version, Some("0.3.0".to_string())),
        other => panic!("unexpected {:?}", other),
    }
}

#[test]
fn latest_query_first_answer_wins() {
    // the first registry does not answer, the second does
    let answers = [None, Some("0.4.0".to_string())];
    let mut asked = 0usize;
    let mut last = None;
    let found = loop {
        match query_latest_dsh_version(asked, last.take()) {
            LatestQuery::Fetch { .. } => {
                last = answers[asked].clone();
                asked += 1;
            }
            LatestQuery::Done { version } => break version,
        }
    };
    assert_eq!(found, Some("0.4.0".to_string()));
    assert_eq!(asked, 2);
}

#[test]
fn registry_request_and_answer() {
    let l = registry_request("https://example.invalid/x");
    assert_eq!(l.program, "/usr/bin/curl");
    assert_eq!(l.args, vec!["--max-time", "5", "-s", "https://example.invalid/x"]);
    assert_eq!(registry_answer(false, r#"{"version":"1"}"#), None);
    assert_eq!(registry_answer(true, r#"{"version":"1"}"#), Some("1".to_string()));
    assert_eq!(registry_answer(true, "oops"), None);
}

#[test]
fn version_wait_steps() {
    assert_eq!(version_wait_step(Some(true), true), VersionWait::Read);
    assert_eq!(version_wait_step(None, false), VersionWait::GiveUp { kill: false });
    assert_eq!(version_wait_step(Some(false), true), VersionWait::GiveUp { kill: true });
    assert_eq!(version_wait_step(Some(false), false), VersionWait::Sleep { millis: VERSION_POLL_MS });
}
