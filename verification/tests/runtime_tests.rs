use azure_functions_web_adapter::config::{AdapterConfig, StatusRange, WorkerStartupArgs};
use azure_functions_web_adapter::grpc_handler::{
    function_id, function_id_of_digest, GrpcHandler, HandlerAction, HostFacts, FUNCTION_NAME,
};
use azure_functions_web_adapter::http_forwarder::HttpForwarder;
use azure_functions_web_adapter::messages::{
    Content, FunctionEnvironmentReloadRequest, FunctionLoadRequest, FunctionsMetadataRequest,
    InvocationRequest, StreamingMessage, WorkerInitRequest, DIRECTION_IN, DIRECTION_OUT,
    STATUS_SUCCESS,
};
use azure_functions_web_adapter::modes::{http_proxy_port, is_clean_exit, is_proxy_mode};
use azure_functions_web_adapter::process::{
    split_command, EMPTY_COMMAND_MESSAGE, UNTERMINATED_COMMAND_MESSAGE,
};
use azure_functions_web_adapter::proxy::{
    child_step, placeholder_mode, reply_for, startup_actions, ChildAction, ProxyAction, ProxyState,
};
use azure_functions_web_adapter::readiness::{
    is_healthy_response, next_readiness_step, probe_request, status_of_response, ReadinessStep,
    ReadinessTimeoutError,
};
use sha2::Digest;

#[test]
fn readiness_steps() {
    let config = AdapterConfig::default();
    match next_readiness_step(&config, 0, None) {
        ReadinessStep::Probe => {}
        _ => panic!("expected a probe"),
    }
    match next_readiness_step(&config, 119_999_999_999, None) {
        ReadinessStep::Probe => {}
        _ => panic!("expected a probe"),
    }
    match next_readiness_step(&config, 120_000_000_000, None) {
        ReadinessStep::TimedOut(e) => assert_eq!(e.elapsed_nanos, 120_000_000_000),
        _ => panic!("expected a time-out"),
    }
    match next_readiness_step(&config, 5, Some(true)) {
        ReadinessStep::Ready(t) => assert_eq!(t, 5),
        _ => panic!("expected ready"),
    }
    match next_readiness_step(&config, 5, Some(false)) {
        ReadinessStep::Wait(ms) => assert_eq!(ms, 10),
        _ => panic!("expected a wait"),
    }
}

#[test]
fn readiness_timeout_message() {
    let e = ReadinessTimeoutError { elapsed_nanos: 1_500_000_000 };
    assert_eq!(e.message(), "web application did not become ready within 1.5s");
    let e = ReadinessTimeoutError { elapsed_nanos: 120_000_000_000 };
    assert_eq!(e.message(), "web application did not become ready within 120s");
    let e = ReadinessTimeoutError { elapsed_nanos: 10_000_000 };
    assert_eq!(e.message(), "web application did not become ready within 10ms");
}

#[test]
fn readiness_probe_text_and_status() {
    let mut config = AdapterConfig::default();
    config.readiness_check_port = 9000;
    config.readiness_check_path = "/health".to_string();
    assert_eq!(
        probe_request(&config),
        "GET /health HTTP/1.1\r\nHost: 127.0.0.1:9000\r\nConnection: close\r\n\r\n"
    );
    assert_eq!(status_of_response("HTTP/1.1 200 OK\r\n"), Some(200));
    assert_eq!(status_of_response("  HTTP/1.1\t503 Unavailable"), Some(503));
    assert_eq!(status_of_response("HTTP/1.1"), None);
    assert_eq!(status_of_response("HTTP/1.1 abc"), None);
    let ranges = StatusRange::parse("100-499");
    assert!(is_healthy_response(b"HTTP/1.1 404 Not Found\r\n", &ranges));
    assert!(!is_healthy_response(b"HTTP/1.1 500 Oops\r\n", &ranges));
    assert!(!is_healthy_response(b"garbage", &ranges));
}

#[test]
fn startup_command_split() {
    let c = split_command("  node   app/index.js --port 3000 ").unwrap();
    assert_eq!(c.program, "node");
    assert_eq!(c.args, vec!["app/index.js", "--port", "3000"]);
    let c = split_command("server").unwrap();
    assert_eq!(c.program, "server");
    assert!(c.args.is_empty());
    assert_eq!(split_command(" \t\n").err().unwrap(), EMPTY_COMMAND_MESSAGE);
    assert_eq!(split_command("").err().unwrap(), EMPTY_COMMAND_MESSAGE);
}

#[test]
fn startup_command_split_like_a_shell() {
    let c = split_command("node server.js --name 'my app'").unwrap();
    assert_eq!(c.program, "node");
    assert_eq!(c.args, vec!["server.js", "--name", "my app"]);
    let c = split_command(r#"python -c "print(\"hi \$x\")" a\ b"#).unwrap();
    assert_eq!(c.program, "python");
    assert_eq!(c.args, vec!["-c", "print(\"hi $x\")", "a b"]);
    let c = split_command(r#"run "" 'x'"y"z "\n""#).unwrap();
    assert_eq!(c.args, vec!["", "xyz", "\\n"]);
    let c = split_command("'/opt/my app/bin'").unwrap();
    assert_eq!(c.program, "/opt/my app/bin");
    assert!(c.args.is_empty());
    assert_eq!(split_command("node 'app").err().unwrap(), UNTERMINATED_COMMAND_MESSAGE);
    assert_eq!(split_command("node \"app").err().unwrap(), UNTERMINATED_COMMAND_MESSAGE);
    assert_eq!(split_command("node app\\").err().unwrap(), UNTERMINATED_COMMAND_MESSAGE);
}

#[test]
fn function_id_is_hashed_name() {
    let digest = sha2::Sha256::digest(FUNCTION_NAME.as_bytes());
    let expected: String = digest[..16].iter().map(|b| format!("{:02x}", b)).collect();
    let id = function_id();
    assert_eq!(id, expected);
    assert_eq!(id.len(), 32);
    assert_ne!(id, FUNCTION_NAME);
}

#[test]
fn function_id_of_digest_takes_sixteen_bytes() {
    let digest: Vec<u8> = (0u8..32).map(|i| i * 8).collect();
    assert_eq!(function_id_of_digest(&digest), "00081018202830384048505860687078");
    assert_eq!(function_id_of_digest(&[0xab; 16]), "abababababababababababababababab");
}

fn handler() -> GrpcHandler {
    let args = WorkerStartupArgs {
        functions_uri: "http://127.0.0.1:50051".to_string(),
        worker_id: "worker-1".to_string(),
        request_id: "req-0".to_string(),
        grpc_max_message_length: 1024,
    };
    GrpcHandler::new(args, HttpForwarder::new(AdapterConfig::default()))
}

fn facts() -> HostFacts {
    HostFacts { arch: "x86_64".to_string(), script_file: "/bin/adapter".to_string() }
}

fn msg(id: &str, content: Option<Content>) -> StreamingMessage {
    StreamingMessage { request_id: id.to_string(), content }
}

#[test]
fn handler_start_and_init() {
    let h = handler();
    assert_eq!(h.function_name, "WebAdapterHttpTrigger");
    let start = h.start_stream();
    assert_eq!(start.request_id, "req-0");
    match start.content {
        Some(Content::StartStream(w)) => assert_eq!(w, "worker-1"),
        _ => panic!("expected a start"),
    }
    let init = WorkerInitRequest { host_version: "4.0".to_string(), function_app_directory: "/app".to_string() };
    match h.handle_message(msg("r1", Some(Content::WorkerInitRequest(init))), &facts()) {
        HandlerAction::Send(m) => {
            assert_eq!(m.request_id, "r1");
            match m.content {
                Some(Content::WorkerInitResponse(r)) => {
                    assert_eq!(r.worker_version, "0.1.0");
                    assert_eq!(r.capabilities.len(), 3);
                    assert_eq!(r.capabilities[2], ("WorkerStatus".to_string(), "true".to_string()));
                    assert_eq!(r.result.unwrap().status, STATUS_SUCCESS);
                    let md = r.worker_metadata.unwrap();
                    assert_eq!(md.worker_bitness, "x86_64");
                    assert_eq!(md.runtime_name, "web-adapter");
                }
                _ => panic!("expected an init response"),
            }
        }
        _ => panic!("expected a reply"),
    }
}

#[test]
fn handler_metadata() {
    let h = handler();
    let req = FunctionsMetadataRequest { function_app_directory: "/home/site".to_string() };
    match h.handle_message(msg("r2", Some(Content::FunctionsMetadataRequest(req))), &facts()) {
        HandlerAction::Send(m) => match m.content {
            Some(Content::FunctionMetadataResponse(r)) => {
                assert_eq!(r.function_metadata_results.len(), 1);
                let f = &r.function_metadata_results[0];
                assert_eq!(f.name, "WebAdapterHttpTrigger");
                assert_eq!(f.entry_point, "WebAdapterHttpTrigger");
                assert_eq!(f.directory, "/home/site");
                assert_eq!(f.script_file, "/bin/adapter");
                assert_eq!(f.function_id, function_id());
                assert_eq!(f.language, "web-adapter");
                assert_eq!(f.bindings[0].0, "req");
                assert_eq!(f.bindings[0].1.binding_type, "httpTrigger");
                assert_eq!(f.bindings[0].1.direction, DIRECTION_IN);
                assert_eq!(f.bindings[1].0, "$return");
                assert_eq!(f.bindings[1].1.direction, DIRECTION_OUT);
                assert_eq!(
                    f.raw_bindings[0],
                    "{\"authLevel\":\"anonymous\",\"direction\":\"in\",\"methods\":[\"get\",\"post\",\"put\",\"delete\",\"patch\",\"head\",\"options\"],\"name\":\"req\",\"route\":\"{*path}\",\"type\":\"httpTrigger\"}"
                );
                assert_eq!(f.raw_bindings[1], "{\"direction\":\"out\",\"name\":\"$return\",\"type\":\"http\"}");
            }
            _ => panic!("expected a metadata response"),
        },
        _ => panic!("expected a reply"),
    }
}

#[test]
fn handler_other_messages() {
    let h = handler();
    let loads = vec![
        FunctionLoadRequest { function_id: "a".to_string() },
        FunctionLoadRequest { function_id: "b".to_string() },
    ];
    match h.handle_message(msg("r3", Some(Content::FunctionLoadRequestCollection(loads))), &facts()) {
        HandlerAction::Send(m) => match m.content {
            Some(Content::FunctionLoadResponseCollection(rs)) => {
                assert_eq!(rs.len(), 2);
                assert_eq!(rs[1].function_id, "b");
            }
            _ => panic!("expected load responses"),
        },
        _ => panic!("expected a reply"),
    }
    let inv = InvocationRequest {
        invocation_id: "i".to_string(),
        function_id: "f".to_string(),
        input_data: vec![],
        trigger_metadata: vec![],
    };
    match h.handle_message(msg("r4", Some(Content::InvocationRequest(inv))), &facts()) {
        HandlerAction::Invoke { request_id, request } => {
            assert_eq!(request_id, "r4");
            assert_eq!(request.invocation_id, "i");
        }
        _ => panic!("expected an invocation"),
    }
    let reload = FunctionEnvironmentReloadRequest {
        environment_variables: vec![("A".to_string(), "1".to_string())],
        function_app_directory: "/app".to_string(),
    };
    match h.handle_message(msg("r5", Some(Content::FunctionEnvironmentReloadRequest(reload))), &facts()) {
        HandlerAction::ReloadEnvironment { variables, reply } => {
            assert_eq!(variables, vec![("A".to_string(), "1".to_string())]);
            assert_eq!(reply.request_id, "r5");
        }
        _ => panic!("expected a reload"),
    }
    assert!(matches!(h.handle_message(msg("r6", Some(Content::WorkerTerminate)), &facts()), HandlerAction::Terminate));
    assert!(matches!(h.handle_message(msg("r7", None), &facts()), HandlerAction::Ignore));
    assert!(matches!(h.handle_message(msg("r8", Some(Content::WorkerHeartbeat)), &facts()), HandlerAction::Send(_)));
}

#[test]
fn proxy_dedicated_mode_spawns_at_start() {
    assert_eq!(startup_actions(false), vec![ProxyAction::SpawnChild]);
    assert!(startup_actions(true).is_empty());
    let mut st = ProxyState::new(false);
    assert!(st.phase.child_running && st.phase.specialized);
    let init = || {
        msg("i", Some(Content::WorkerInitRequest(WorkerInitRequest {
            host_version: "4".to_string(),
            function_app_directory: "/".to_string(),
        })))
    };
    assert_eq!(st.on_message(&msg("x", Some(Content::WorkerStatusRequest))), vec![ProxyAction::ForwardToChild]);
    let inv = msg("v", Some(Content::InvocationRequest(InvocationRequest {
        invocation_id: "1".to_string(),
        function_id: "f".to_string(),
        input_data: vec![],
        trigger_metadata: vec![],
    })));
    assert_eq!(st.on_message(&inv), vec![ProxyAction::ForwardToChild]);
    assert_eq!(st.on_message(&init()), vec![ProxyAction::ForwardToChild]);
    assert_eq!(st.saved_init_request.as_ref().unwrap().0, "i");
    let reload = msg("r", Some(Content::FunctionEnvironmentReloadRequest(FunctionEnvironmentReloadRequest {
        environment_variables: vec![],
        function_app_directory: "/".to_string(),
    })));
    assert_eq!(st.on_message(&reload), vec![]);
    assert_eq!(st.on_message(&msg("h", Some(Content::WorkerHeartbeat))), vec![ProxyAction::SendHeartbeat]);
    assert_eq!(st.on_message(&msg("t", Some(Content::WorkerTerminate))), vec![ProxyAction::ForwardToChild, ProxyAction::Stop]);
}

#[test]
fn proxy_placeholder_mode_waits_for_reload() {
    let mut st = ProxyState::new(true);
    let init = msg("i", Some(Content::WorkerInitRequest(WorkerInitRequest {
        host_version: "4".to_string(),
        function_app_directory: "/".to_string(),
    })));
    assert_eq!(st.on_message(&init), vec![ProxyAction::SendInitResponse]);
    assert_eq!(st.on_message(&msg("m", Some(Content::FunctionsMetadataRequest(FunctionsMetadataRequest {
        function_app_directory: "/".to_string(),
    })))), vec![ProxyAction::SendEmptyMetadata]);
    assert_eq!(st.on_message(&msg("o", Some(Content::WorkerStatusResponse))), vec![]);
    let reload = || msg("r", Some(Content::FunctionEnvironmentReloadRequest(FunctionEnvironmentReloadRequest {
        environment_variables: vec![("K".to_string(), "V".to_string())],
        function_app_directory: "/".to_string(),
    })));
    assert_eq!(
        st.on_message(&reload()),
        vec![ProxyAction::ApplyEnvironment, ProxyAction::SpawnChild, ProxyAction::SendReloadResponse]
    );
    assert_eq!(st.on_message(&reload()), vec![]);
    assert_eq!(st.on_message(&init), vec![ProxyAction::SendInitResponse]);
    assert_eq!(st.on_message(&msg("h", Some(Content::WorkerHeartbeat))), vec![ProxyAction::SendHeartbeat]);
    assert_eq!(st.on_message(&msg("o", None)), vec![ProxyAction::ForwardToChild]);
}

#[test]
fn proxy_replies() {
    let m = reply_for(ProxyAction::SendInitResponse, "q");
    assert_eq!(m.request_id, "q");
    match m.content {
        Some(Content::WorkerInitResponse(r)) => {
            assert_eq!(r.capabilities.len(), 4);
            assert!(r.worker_metadata.is_none());
        }
        _ => panic!("expected an init response"),
    }
    match reply_for(ProxyAction::SendEmptyMetadata, "q").content {
        Some(Content::FunctionMetadataResponse(r)) => assert!(r.function_metadata_results.is_empty()),
        _ => panic!("expected a metadata response"),
    }
}

#[test]
fn child_adapter_steps() {
    assert!(matches!(child_step(msg("a", Some(Content::WorkerTerminate))), ChildAction::Stop));
    assert!(matches!(child_step(msg("a", Some(Content::WorkerHeartbeat))), ChildAction::Ignore));
    match child_step(msg("a", Some(Content::WorkerStatusRequest))) {
        ChildAction::Send(m) => assert_eq!(m.request_id, "a"),
        _ => panic!("expected a status reply"),
    }
}

#[test]
fn run_modes() {
    assert_eq!(http_proxy_port(Some("7071")), Some(7071));
    assert_eq!(http_proxy_port(Some("x")), None);
    assert_eq!(http_proxy_port(None), None);
    assert!(is_proxy_mode(Some("PROXY")));
    assert!(!is_proxy_mode(Some("direct")));
    assert!(!is_proxy_mode(None));
    assert!(placeholder_mode(Some("1")));
    assert!(!placeholder_mode(Some("true")));
    assert!(!placeholder_mode(None));
    assert!(is_clean_exit("status: worker terminated by host"));
    assert!(!is_clean_exit("connection reset"));
}
