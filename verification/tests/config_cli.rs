use wdyt::cli::{content_file_labels, default_title, parse_range, summarize, timeout_label};
use wdyt::client::{
    accepts_health,
    normalize_presentation_ids, presentation_url_for, timeout_query, validate_session_id,
    MAX_PRESENTATION_TABS, MAX_SESSION_ID_LEN,
};
use wdyt::config::{
    parse_port_range, validate_settings, webhook_override, Config, EnvOverrides, DEFAULT_PORT_HIGH,
    DEFAULT_PORT_LOW,
};
use wdyt::session::{Content, DocFile};

#[test]
fn parses_range_and_single_port() {
    assert_eq!(parse_port_range("3000-3010").unwrap(), (3000, 3010));
    assert_eq!(parse_port_range(" 3005 ").unwrap(), (3005, 3005));
    assert!(parse_port_range("3010-3000").is_err());
    assert!(parse_port_range("nope").is_err());
}

#[test]
fn port_range_errors_name_the_part_that_failed() {
    assert_eq!(parse_port_range("x-3000").unwrap_err(), "invalid low port");
    assert_eq!(parse_port_range("3000-70000").unwrap_err(), "invalid high port");
    assert_eq!(parse_port_range("nope").unwrap_err(), "invalid port");
    assert_eq!(
        parse_port_range("3010-3000").unwrap_err(),
        "port range \"3010-3000\" is inverted"
    );
    assert_eq!(parse_port_range(" 3000 - 3001 ").unwrap(), (3000, 3001));
}

#[test]
fn rejects_inverted_and_zero_ports() {
    let mut config = Config {
        port_low: 4000,
        port_high: 3000,
        ..Config::default()
    };
    assert!(config.validate().is_err());

    config.port_low = 0;
    config.port_high = 10;
    assert!(config.validate().is_err());
}

#[test]
fn rejects_non_http_webhook() {
    let config = Config {
        webhook_url: Some("ftp://example.com".to_owned()),
        ..Config::default()
    };
    assert!(config.validate().is_err());
}

#[test]
fn validation_messages_name_the_problem() {
    assert_eq!(
        validate_settings(4000, 3000, None).unwrap_err(),
        "port_low (4000) must not exceed port_high (3000)"
    );
    assert_eq!(validate_settings(0, 10, None).unwrap_err(), "port_low must not be 0");
    assert_eq!(
        validate_settings(DEFAULT_PORT_LOW, DEFAULT_PORT_HIGH, Some("ftp://x")).unwrap_err(),
        "webhook_url must be an http(s) URL"
    );
    assert!(validate_settings(DEFAULT_PORT_LOW, DEFAULT_PORT_HIGH, Some("https://example.com")).is_ok());
    assert!(Config::default().validate().is_ok());
}

#[test]
fn the_defaults_are_the_forwarded_range() {
    let config = Config::default();
    assert_eq!(config.ports(), (DEFAULT_PORT_LOW, DEFAULT_PORT_HIGH));
    assert_eq!(config.daemon_port(), 3000);
    assert_eq!(config.theme, "Nord");
    assert_eq!(config.webhook_field, "content");
    assert_eq!(config.public_host, "localhost");
    assert_eq!(config.session_ttl_hours, Some(24));
}

fn no_overrides() -> EnvOverrides {
    EnvOverrides { webhook_url: None, ports: None, theme: None, webhook_field: None, public_host: None }
}

#[test]
fn the_environment_wins_over_the_file() {
    let mut config = Config { webhook_url: Some("https://old".into()), ..Config::default() };
    let env = EnvOverrides {
        webhook_url: Some(String::new()),
        ports: Some("4000-4005".into()),
        theme: Some("InspiredGitHub".into()),
        webhook_field: Some("message".into()),
        public_host: Some("box".into()),
    };
    config.apply_env(env).unwrap();
    assert_eq!(config.webhook_url, None, "an empty value disables the webhook");
    assert_eq!(config.ports(), (4000, 4005));
    assert_eq!(config.theme, "InspiredGitHub");
    assert_eq!(config.webhook_field, "message");
    assert_eq!(config.public_host, "box");

    let mut unchanged = Config::default();
    unchanged.apply_env(no_overrides()).unwrap();
    assert_eq!(unchanged.ports(), (3000, 3010));
    assert_eq!(unchanged.theme, "Nord");
}

#[test]
fn a_bad_port_override_is_an_error() {
    let mut config = Config::default();
    let env = EnvOverrides { ports: Some("x".into()), ..no_overrides() };
    assert_eq!(config.apply_env(env).unwrap_err(), "invalid port");
    assert_eq!(config.ports(), (3000, 3010));
}

#[test]
fn an_empty_webhook_override_disables_it() {
    assert_eq!(webhook_override(String::new()), None);
    assert_eq!(
        webhook_override("https://hook".into()).as_deref(),
        Some("https://hook")
    );
}

#[test]
fn default_titles_describe_the_selection() {
    assert_eq!(default_title(&vec!["src/a.rs".to_owned()], "code"), "src/a.rs");
    assert_eq!(
        default_title(&vec!["a".to_owned(), "b".to_owned()], "code"),
        "2 code files"
    );
}

#[test]
fn summarize_pluralizes() {
    assert_eq!(summarize(1, "file"), "1 file");
    assert_eq!(summarize(3, "file"), "3 files");
    assert_eq!(summarize(0, "file"), "0 files");
}

#[test]
fn parse_range_rejects_bad_input() {
    assert_eq!(parse_range("3000-3010").unwrap(), (3000, 3010));
    assert!(parse_range("3000").is_err());
    assert!(parse_range("3010-3000").is_err());
}

#[test]
fn the_timeout_reads_as_a_duration_or_forever() {
    assert_eq!(timeout_label(None), "forever");
    assert_eq!(timeout_label(Some(30)), "30s");
    assert_eq!(timeout_query(Some(30)), "timeout_secs=30");
    assert_eq!(timeout_query(None), "");
}

#[test]
fn docs_content_lists_its_labels() {
    let doc = |label: &str| DocFile { label: label.into(), html: String::new(), sources: vec![] };
    let content = Content::Docs { files: vec![doc("a.md"), doc("b.md")] };
    assert_eq!(content_file_labels(&content), vec!["a.md", "b.md"]);
    let demo = Content::Demo { port: 1, path: "/".into() };
    assert!(content_file_labels(&demo).is_empty());
}

#[test]
fn presentation_ids_are_deduplicated_in_first_seen_order() {
    let ids = ["second", "first", "second", "third", "first"]
        .map(str::to_owned)
        .to_vec();
    assert_eq!(
        normalize_presentation_ids(&ids).unwrap(),
        ["second", "first", "third"]
    );
}

#[test]
fn presentation_id_limits_are_enforced_after_deduplication() {
    let mut ids = (0..MAX_PRESENTATION_TABS)
        .map(|index| format!("id{index}"))
        .collect::<Vec<_>>();
    ids.push("id0".to_owned());
    assert_eq!(
        normalize_presentation_ids(&ids).unwrap().len(),
        MAX_PRESENTATION_TABS
    );

    ids.push("overflow".to_owned());
    let error = normalize_presentation_ids(&ids).unwrap_err();
    assert!(error.contains("at most 12 unique tabs"));
}

#[test]
fn presentation_ids_are_length_bounded() {
    let error = normalize_presentation_ids(&vec!["a".repeat(MAX_SESSION_ID_LEN + 1)]).unwrap_err();
    assert!(error.contains("1-64"));
}

#[test]
fn the_first_problem_in_order_is_the_one_reported() {
    let mut ids = (0..MAX_PRESENTATION_TABS)
        .map(|index| format!("id{index}"))
        .collect::<Vec<_>>();
    ids.push("one-too-many".to_owned());
    ids.push("extra".to_owned());
    let error = normalize_presentation_ids(&ids).unwrap_err();
    assert_eq!(error, "invalid session ID \"one-too-many\": expected 1-64 lowercase ASCII letters or digits");
    ids.pop();
    ids.pop();
    ids.push("extra".to_owned());
    ids.push("Bad".to_owned());
    let error = normalize_presentation_ids(&ids).unwrap_err();
    assert_eq!(error, "a presentation supports at most 12 unique tabs");
    assert_eq!(
        normalize_presentation_ids(&vec![]).unwrap_err(),
        "a presentation requires at least one session ID"
    );
}

#[test]
fn session_ids_are_lowercase_alphanumerics() {
    assert!(validate_session_id("abc123").is_ok());
    assert!(validate_session_id("").is_err());
    assert!(validate_session_id("ABC").is_err());
    assert_eq!(
        validate_session_id("a b").unwrap_err(),
        "invalid session ID \"a b\": expected 1-64 lowercase ASCII letters or digits"
    );
}

#[test]
fn a_presentation_url_has_one_parameter_per_session() {
    assert_eq!(
        presentation_url_for("localhost", 3005, &vec!["a".into(), "b".into()]),
        "http://localhost:3005/?s=a&s=b"
    );
}

#[test]
fn only_a_current_daemon_answers_health() {

    assert!(accepts_health(r#"{"ok":true,"service":"wdyt-daemon","version":"0.1.0","protocol":3,"sessions":0}"#));
    assert!(!accepts_health(r#"{"ok":true,"service":"wdyt-daemon","protocol":2}"#), "an old daemon");
    assert!(!accepts_health(r#"{"ok":true,"service":"wdyt-daemon"}"#), "no protocol at all");
    assert!(!accepts_health(r#"{"ok":true,"protocol":3}"#), "someone else's server");
    assert!(!accepts_health("wdyt-daemon but not json"));
}

#[test]
fn titles_for_diffs_and_presentations() {
    assert_eq!(wdyt::cli::diff_title(&vec!["src/a.rs".into()]), "src/a.rs");
    assert_eq!(wdyt::cli::diff_title(&vec!["a".into(), "b".into()]), "2 changed files");
    assert_eq!(wdyt::cli::presentation_title(1), "1 wdyt session");
    assert_eq!(wdyt::cli::presentation_title(3), "3 wdyt sessions");
}

#[test]
fn an_unknown_theme_is_named() {
    let names: Vec<String> = vec!["Nord".into(), "InspiredGitHub".into()];
    assert!(wdyt::cli::check_theme("Nord", &names).is_ok());
    assert_eq!(
        wdyt::cli::check_theme("Nrod", &names).unwrap_err(),
        "unknown theme \"Nrod\". See `wdyt themes`"
    );
}

#[test]
fn a_started_daemon_is_polled_until_it_answers_exits_or_runs_out_of_time() {
    let step = wdyt::client::start_step;
    assert_eq!(step(1, true, false), wdyt::client::StartStep::Ready);
    assert_eq!(step(1, false, false), wdyt::client::StartStep::Wait);
    assert_eq!(step(3, false, true), wdyt::client::StartStep::Exited);
    assert_eq!(step(59, false, false), wdyt::client::StartStep::Wait);
    assert_eq!(step(60, false, false), wdyt::client::StartStep::GaveUp);
    assert_eq!(step(60, true, false), wdyt::client::StartStep::Ready);
}

#[test]
fn a_daemon_that_did_not_start_is_explained_by_its_log_when_there_is_one() {
    let failure = wdyt::client::start_failure;
    assert_eq!(
        failure(Some("  Error: port in use\n".to_owned()), true),
        "the wdyt daemon could not start:\nError: port in use"
    );
    assert_eq!(
        failure(Some(" \n".to_owned()), true),
        "the wdyt daemon exited without starting; try `wdyt serve` to see why"
    );
    assert_eq!(failure(None, false), "the wdyt daemon did not come up; try `wdyt serve` to see why");
}
