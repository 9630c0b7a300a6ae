use azure_functions_web_adapter::config::{
    AdapterConfig, EnvironmentSettings, ReadinessProtocol, StatusRange, WorkerStartupArgs,
    MISSING_ARGS_MESSAGE,
};

#[test]
fn test_status_range_parse_single() {
    let ranges = StatusRange::parse("200");
    assert_eq!(ranges.len(), 1);
    assert!(StatusRange::contains(&ranges, 200));
    assert!(!StatusRange::contains(&ranges, 201));
}

#[test]
fn test_status_range_parse_range() {
    let ranges = StatusRange::parse("200-399");
    assert!(StatusRange::contains(&ranges, 200));
    assert!(StatusRange::contains(&ranges, 301));
    assert!(StatusRange::contains(&ranges, 399));
    assert!(!StatusRange::contains(&ranges, 400));
}

#[test]
fn test_status_range_parse_multi() {
    let ranges = StatusRange::parse("200-299,404");
    assert!(StatusRange::contains(&ranges, 200));
    assert!(StatusRange::contains(&ranges, 250));
    assert!(StatusRange::contains(&ranges, 404));
    assert!(!StatusRange::contains(&ranges, 403));
}

#[test]
fn test_default_config() {
    let config = AdapterConfig::default();
    assert_eq!(config.port, 8080);
    assert_eq!(config.host, "127.0.0.1");
    assert_eq!(config.readiness_check_path, "/");
}

#[test]
fn status_range_parse_skips_bad_parts_and_trims() {
    let ranges = StatusRange::parse(" 200 - 204 , abc, 3x0-400 ,, +418,70000");
    assert_eq!(ranges, vec![StatusRange { min: 200, max: 204 }, StatusRange { min: 418, max: 418 }]);
}

#[test]
fn status_range_parse_keeps_reversed_bounds() {
    let ranges = StatusRange::parse("500-100");
    assert_eq!(ranges, vec![StatusRange { min: 500, max: 100 }]);
    assert!(!StatusRange::contains(&ranges, 300));
}

#[test]
fn status_range_splits_only_at_first_dash() {
    assert_eq!(StatusRange::parse("1-2-3"), vec![]);
    assert_eq!(StatusRange::parse(""), vec![]);
    assert_eq!(StatusRange::parse("-5"), vec![]);
}

#[test]
fn status_list_join_law_on_values() {
    let joined = StatusRange::parse("200-299,404");
    let mut parts = StatusRange::parse("200-299");
    parts.extend(StatusRange::parse("404"));
    assert_eq!(joined, parts);
}

#[test]
fn status_range_text_law_on_values() {
    let ranges = StatusRange::parse("100-499");
    assert_eq!(ranges, vec![StatusRange { min: 100, max: 499 }]);
    assert!(StatusRange::contains(&ranges, 100));
    assert!(StatusRange::contains(&ranges, 499));
    assert!(!StatusRange::contains(&ranges, 99));
    assert!(!StatusRange::contains(&ranges, 500));
}

#[test]
fn readiness_protocol_ignores_case() {
    assert_eq!(ReadinessProtocol::from_str("TCP"), ReadinessProtocol::Tcp);
    assert_eq!(ReadinessProtocol::from_str("Tcp"), ReadinessProtocol::Tcp);
    assert_eq!(ReadinessProtocol::from_str("http"), ReadinessProtocol::Http);
    assert_eq!(ReadinessProtocol::from_str("udp"), ReadinessProtocol::Http);
    assert_eq!(ReadinessProtocol::from_lowercase("TCP"), ReadinessProtocol::Http);
}

fn empty_settings() -> EnvironmentSettings {
    EnvironmentSettings {
        port: None,
        port_fallback: None,
        host: None,
        readiness_check_port: None,
        readiness_check_path: None,
        readiness_check_protocol: None,
        readiness_check_healthy_status: None,
        readiness_check_interval_ms: None,
        readiness_check_timeout_s: None,
        startup_command: None,
        remove_base_path: None,
        enable_compression: None,
    }
}

#[test]
fn settings_default_when_unset() {
    let c = AdapterConfig::from_settings(empty_settings());
    assert_eq!(c.port, 8080);
    assert_eq!(c.readiness_check_port, 8080);
    assert_eq!(c.host, "127.0.0.1");
    assert_eq!(c.readiness_check_path, "/");
    assert_eq!(c.readiness_check_protocol, ReadinessProtocol::Http);
    assert_eq!(c.readiness_healthy_status, vec![StatusRange { min: 100, max: 499 }]);
    assert_eq!(c.readiness_check_interval_ms, 10);
    assert_eq!(c.readiness_check_timeout_s, 120);
    assert_eq!(c.startup_command, None);
    assert_eq!(c.remove_base_path, None);
    assert!(!c.enable_compression);
}

#[test]
fn settings_port_falls_back_only_when_unset() {
    let mut s = empty_settings();
    s.port_fallback = Some("3000".to_string());
    let c = AdapterConfig::from_settings(s);
    assert_eq!(c.port, 3000);
    assert_eq!(c.readiness_check_port, 3000);

    let mut s = empty_settings();
    s.port = Some("not-a-port".to_string());
    s.port_fallback = Some("3000".to_string());
    let c = AdapterConfig::from_settings(s);
    assert_eq!(c.port, 8080);

    let mut s = empty_settings();
    s.port = Some("9000".to_string());
    s.readiness_check_port = Some("9001".to_string());
    let c = AdapterConfig::from_settings(s);
    assert_eq!(c.port, 9000);
    assert_eq!(c.readiness_check_port, 9001);
}

#[test]
fn settings_read_every_variable() {
    let mut s = empty_settings();
    s.host = Some("0.0.0.0".to_string());
    s.readiness_check_path = Some("/health".to_string());
    s.readiness_check_protocol = Some("TCP".to_string());
    s.readiness_check_healthy_status = Some("200-299".to_string());
    s.readiness_check_interval_ms = Some("250".to_string());
    s.readiness_check_timeout_s = Some("x".to_string());
    s.startup_command = Some("node index.js".to_string());
    s.remove_base_path = Some("/api".to_string());
    s.enable_compression = Some("TRUE".to_string());
    let c = AdapterConfig::from_settings(s);
    assert_eq!(c.host, "0.0.0.0");
    assert_eq!(c.readiness_check_path, "/health");
    assert_eq!(c.readiness_check_protocol, ReadinessProtocol::Tcp);
    assert_eq!(c.readiness_healthy_status, vec![StatusRange { min: 200, max: 299 }]);
    assert_eq!(c.readiness_check_interval_ms, 250);
    assert_eq!(c.readiness_check_timeout_s, 120);
    assert_eq!(c.startup_command, Some("node index.js".to_string()));
    assert_eq!(c.remove_base_path, Some("/api".to_string()));
    assert!(c.enable_compression);
}

#[test]
fn settings_compression_values() {
    for (v, on) in [("1", true), ("true", true), ("True", true), ("yes", false), ("0", false)] {
        let mut s = empty_settings();
        s.enable_compression = Some(v.to_string());
        assert_eq!(AdapterConfig::from_settings(s).enable_compression, on, "{}", v);
    }
}

#[test]
fn config_urls() {
    let mut c = AdapterConfig::default();
    c.host = "localhost".to_string();
    c.port = 3000;
    c.readiness_check_port = 3001;
    c.readiness_check_path = "/ready".to_string();
    assert_eq!(c.app_base_url(), "http://localhost:3000");
    assert_eq!(c.readiness_url(), "http://localhost:3001/ready");
    c.port = 0;
    assert_eq!(c.app_base_url(), "http://localhost:0");
    c.port = 65535;
    assert_eq!(c.app_base_url(), "http://localhost:65535");
}

fn args(list: &[&str]) -> Vec<String> {
    list.iter().map(|s| s.to_string()).collect()
}

#[test]
fn worker_args_host_format() {
    let a = WorkerStartupArgs::from_arg_list(&args(&[
        "adapter", "--host", "127.0.0.1", "--port", "50051", "--workerId", "w1", "--requestId",
        "r1", "--grpcMaxMessageLength", "2147483647",
    ]))
    .unwrap();
    assert_eq!(a.functions_uri, "http://127.0.0.1:50051");
    assert_eq!(a.worker_id, "w1");
    assert_eq!(a.request_id, "r1");
    assert_eq!(a.grpc_max_message_length, 2147483647);
}

#[test]
fn worker_args_direct_format_wins_over_host_port() {
    let a = WorkerStartupArgs::from_arg_list(&args(&[
        "adapter",
        "--host",
        "h",
        "--port",
        "1",
        "--functions-uri",
        "http://example:7071",
        "--functions-worker-id",
        "w2",
        "--functions-request-id",
        "r2",
        "--functions-grpc-max-message-length",
        "oops",
    ]))
    .unwrap();
    assert_eq!(a.functions_uri, "http://example:7071");
    assert_eq!(a.worker_id, "w2");
    assert_eq!(a.request_id, "r2");
    assert_eq!(a.grpc_max_message_length, 134217728);
}

#[test]
fn worker_args_values_are_taken_verbatim_and_unknown_skipped() {
    let a = WorkerStartupArgs::from_arg_list(&args(&[
        "--workerId", "adapter", "--verbose", "--workerId", "--host", "--functions-uri", "u",
    ]))
    .unwrap();
    assert_eq!(a.worker_id, "--host");
    assert_eq!(a.functions_uri, "u");
    assert_eq!(a.request_id, "");
}

#[test]
fn worker_args_missing() {
    let e = WorkerStartupArgs::from_arg_list(&args(&["adapter", "--host", "h", "--workerId", "w"]))
        .err()
        .unwrap();
    assert_eq!(e, MISSING_ARGS_MESSAGE);
    assert!(WorkerStartupArgs::from_arg_list(&args(&["adapter", "--functions-uri", "u", "--workerId"])).is_err());
    assert!(WorkerStartupArgs::from_arg_list(&args(&[])).is_err());
}
