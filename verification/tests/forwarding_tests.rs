use azure_functions_web_adapter::config::AdapterConfig;
use azure_functions_web_adapter::http_forwarder::{
    build_invocation_response, extract_http_trigger, forwarding_failure, header_value_text,
    is_binary_content_type, is_hop_by_hop_header, is_hop_by_hop_lowercase, HttpForwarder, INVALID_HEADER_NAME_MESSAGE, INVALID_HEADER_VALUE_MESSAGE, INVALID_METHOD_MESSAGE,
    NO_TRIGGER_MESSAGE,
};
use azure_functions_web_adapter::http_proxy::{
    bad_gateway_body, filter_proxy_headers, ProxyConfig, ProxyFailure, BAD_GATEWAY_STATUS,
};
use azure_functions_web_adapter::messages::{
    BodyData, InvocationRequest, ParameterBinding, RpcHttp, TypedData, STATUS_FAILURE,
    STATUS_SUCCESS,
};

#[test]
fn test_binary_content_type_detection() {
    assert!(!is_binary_content_type("text/html"));
    assert!(!is_binary_content_type("application/json"));
    assert!(!is_binary_content_type("application/xml; charset=utf-8"));
    assert!(is_binary_content_type("image/png"));
    assert!(is_binary_content_type("application/octet-stream"));
    assert!(is_binary_content_type("application/pdf"));
}

#[test]
fn binary_content_type_edge_cases() {
    assert!(is_binary_content_type("IMAGE/PNG"));
    assert!(!is_binary_content_type("application/vnd.api+json"));
    assert!(!is_binary_content_type("image/svg+xml"));
    assert!(!is_binary_content_type(""));
    assert!(!is_binary_content_type("application/x-unknown"));
    assert!(is_binary_content_type("application/zip"));
    assert!(is_binary_content_type("video/mp4"));
}

fn rpc(method: &str, url: &str) -> RpcHttp {
    RpcHttp {
        method: method.to_string(),
        url: url.to_string(),
        headers: Vec::new(),
        nullable_headers: Vec::new(),
        body: None,
        status_code: String::new(),
    }
}

fn forwarder(base: Option<&str>) -> HttpForwarder {
    let mut config = AdapterConfig::default();
    config.remove_base_path = base.map(|b| b.to_string());
    HttpForwarder::new(config)
}

#[test]
fn build_request_targets_local_app() {
    let mut h = rpc("get", "https://myapp.azurewebsites.net/api/hello?name=x");
    h.headers.push(("Accept".to_string(), "text/plain".to_string()));
    h.headers.push(("Host".to_string(), "myapp".to_string()));
    h.headers.push(("Connection".to_string(), "keep-alive".to_string()));
    h.nullable_headers.push(("X-Empty".to_string(), None));
    h.nullable_headers.push(("X-Trace".to_string(), Some("1".to_string())));
    h.nullable_headers.push(("Keep-Alive".to_string(), Some("5".to_string())));
    h.body = Some(BodyData::String("héllo".to_string()));
    let r = forwarder(None).build_http_request(&h).unwrap();
    assert_eq!(r.method, "GET");
    assert_eq!(r.uri, "http://127.0.0.1:8080/api/hello?name=x");
    assert_eq!(
        r.headers,
        vec![
            ("Accept".to_string(), "text/plain".to_string()),
            ("X-Trace".to_string(), "1".to_string()),
            ("Host".to_string(), "127.0.0.1:8080".to_string()),
        ]
    );
    assert_eq!(r.body, "héllo".as_bytes().to_vec());
}

#[test]
fn build_request_strips_base_path() {
    let f = forwarder(Some("/api"));
    let r = f.build_http_request(&rpc("POST", "http://h/api/users?id=1")).unwrap();
    assert_eq!(r.uri, "http://127.0.0.1:8080/users?id=1");
    let r = f.build_http_request(&rpc("POST", "http://h/apiusers")).unwrap();
    assert_eq!(r.uri, "http://127.0.0.1:8080/users");
    let r = f.build_http_request(&rpc("POST", "http://h/api")).unwrap();
    assert_eq!(r.uri, "http://127.0.0.1:8080/");
    let r = f.build_http_request(&rpc("POST", "http://h/other/api")).unwrap();
    assert_eq!(r.uri, "http://127.0.0.1:8080/other/api");
}

#[test]
fn request_from_parts_uses_given_parts() {
    let f = forwarder(Some("/api"));
    let mut h = rpc("ignored", "ignored");
    h.headers.push(("X-A".to_string(), "1".to_string()));
    let r = f
        .request_from_parts("/api/items", &Some("a=b".to_string()), "PATCH".to_string(), &h)
        .unwrap();
    assert_eq!(r.method, "PATCH");
    assert_eq!(r.uri, "http://127.0.0.1:8080/items?a=b");
    assert_eq!(r.headers[0], ("X-A".to_string(), "1".to_string()));
    assert_eq!(r.headers.last().unwrap().0, "Host");
    let r = f.request_from_parts("/x", &None, "get".to_string(), &h).unwrap();
    assert_eq!(r.method, "get");
    assert_eq!(r.uri, "http://127.0.0.1:8080/x");
    assert_eq!(
        f.request_from_parts("/x", &None, "G(T".to_string(), &h).err().unwrap(),
        INVALID_METHOD_MESSAGE
    );
}

#[test]
fn build_request_errors() {
    let f = forwarder(None);
    assert_eq!(f.build_http_request(&rpc("GE T", "http://h/")).err().unwrap(), INVALID_METHOD_MESSAGE);
    assert_eq!(f.build_http_request(&rpc("", "http://h/")).err().unwrap(), INVALID_METHOD_MESSAGE);
    assert!(f.build_http_request(&rpc("GET", "http://exa mple/")).is_err());
}

#[test]
fn build_request_body_kinds() {
    let f = forwarder(None);
    let mut h = rpc("PUT", "http://h/");
    h.body = Some(BodyData::Bytes(vec![0, 255, 7]));
    assert_eq!(f.build_http_request(&h).unwrap().body, vec![0, 255, 7]);
    h.body = Some(BodyData::Json("{\"a\":1}".to_string()));
    assert_eq!(f.build_http_request(&h).unwrap().body, b"{\"a\":1}".to_vec());
    h.body = Some(BodyData::Int(5));
    assert!(f.build_http_request(&h).unwrap().body.is_empty());
}

fn invocation(inputs: Vec<ParameterBinding>, metadata: Vec<(String, TypedData)>) -> InvocationRequest {
    InvocationRequest {
        invocation_id: "inv-1".to_string(),
        function_id: "f".to_string(),
        input_data: inputs,
        trigger_metadata: metadata,
    }
}

#[test]
fn trigger_found_in_inputs_then_metadata() {
    let inv = invocation(
        vec![
            ParameterBinding { name: "a".to_string(), data: Some(TypedData::Scalar(BodyData::Int(1))) },
            ParameterBinding { name: "req".to_string(), data: Some(TypedData::Http(rpc("GET", "http://x/in"))) },
        ],
        vec![("req".to_string(), TypedData::Http(rpc("GET", "http://x/meta")))],
    );
    assert_eq!(extract_http_trigger(&inv).unwrap().url, "http://x/in");

    let inv = invocation(
        vec![],
        vec![
            ("Request".to_string(), TypedData::Http(rpc("GET", "http://x/third"))),
            ("req".to_string(), TypedData::Scalar(BodyData::Other)),
            ("__request__".to_string(), TypedData::Http(rpc("GET", "http://x/second"))),
        ],
    );
    assert_eq!(extract_http_trigger(&inv).unwrap().url, "http://x/second");

    let inv = invocation(vec![], vec![("other".to_string(), TypedData::Http(rpc("GET", "http://x/")))]);
    assert_eq!(extract_http_trigger(&inv).err().unwrap(), NO_TRIGGER_MESSAGE);
}

#[test]
fn prepare_reports_missing_trigger() {
    let inv = invocation(vec![], vec![]);
    assert_eq!(forwarder(None).prepare(&inv).err().unwrap(), NO_TRIGGER_MESSAGE);
}

#[test]
fn failure_response_shape() {
    let r = forwarding_failure("inv-9", "connection refused");
    assert_eq!(r.invocation_id, "inv-9");
    assert!(r.output_data.is_empty());
    assert!(r.return_value.is_none());
    let res = r.result.unwrap();
    assert_eq!(res.status, STATUS_FAILURE);
    assert_eq!(res.result, "Web Adapter forwarding error: connection refused");
}

#[test]
fn invocation_response_text_body() {
    let headers = vec![
        ("content-type".to_string(), b"text/plain".to_vec()),
        ("set-cookie".to_string(), b"a=1".to_vec()),
        ("set-cookie".to_string(), b"b=2".to_vec()),
        ("x-bin".to_string(), vec![0xff, 0x41]),
    ];
    let body = vec![b'h', b'i', 0xff];
    let r = build_invocation_response("inv-2", 404, &headers, &body);
    assert_eq!(r.invocation_id, "inv-2");
    let res = r.result.as_ref().unwrap();
    assert_eq!(res.status, STATUS_SUCCESS);
    assert_eq!(res.result, "");
    assert_eq!(r.output_data.len(), 1);
    assert_eq!(r.output_data[0].name, "$return");
    for d in [r.output_data[0].data.as_ref().unwrap(), r.return_value.as_ref().unwrap()] {
        match d {
            TypedData::Http(h) => {
                assert_eq!(h.status_code, "404");
                assert_eq!(
                    h.headers,
                    vec![
                        ("content-type".to_string(), "text/plain".to_string()),
                        ("set-cookie".to_string(), "b=2".to_string()),
                        ("x-bin".to_string(), "".to_string()),
                    ]
                );
                match &h.body {
                    Some(BodyData::String(s)) => assert_eq!(s, "hi\u{fffd}"),
                    _ => panic!("expected a text body"),
                }
            }
            _ => panic!("expected HTTP data"),
        }
    }
}

#[test]
fn invocation_response_keeps_valid_text() {
    let body = "héllo → 💖".as_bytes().to_vec();
    let r = build_invocation_response("inv-4", 200, &Vec::new(), &body);
    match r.return_value.unwrap() {
        TypedData::Http(h) => match h.body {
            Some(BodyData::String(s)) => assert_eq!(s.as_bytes(), body.as_slice()),
            _ => panic!("expected a text body"),
        },
        _ => panic!("expected HTTP data"),
    }
}

#[test]
fn invocation_response_binary_body() {
    let headers = vec![("content-type".to_string(), b"Image/PNG".to_vec())];
    let body = vec![0x89, b'P', b'N', b'G'];
    let r = build_invocation_response("inv-3", 200, &headers, &body);
    match r.return_value.unwrap() {
        TypedData::Http(h) => {
            assert_eq!(h.status_code, "200");
            match h.body {
                Some(BodyData::Bytes(b)) => assert_eq!(b, body),
                _ => panic!("expected bytes"),
            }
        }
        _ => panic!("expected HTTP data"),
    }
}

#[test]
fn header_values_as_text() {
    assert_eq!(header_value_text(&b"a\tb ~".to_vec()), "a\tb ~");
    assert_eq!(header_value_text(&vec![b'a', 0x7f]), "");
    assert_eq!(header_value_text(&vec![]), "");
}

#[test]
fn hop_by_hop_headers() {
    assert!(is_hop_by_hop_header("Host"));
    assert!(is_hop_by_hop_header("TRANSFER-ENCODING"));
    assert!(is_hop_by_hop_header("connection"));
    assert!(is_hop_by_hop_header("Keep-Alive"));
    assert!(!is_hop_by_hop_header("x-host"));
    assert!(is_hop_by_hop_lowercase("keep-alive"));
    assert!(!is_hop_by_hop_lowercase("Keep-Alive"));
    assert!(!is_hop_by_hop_lowercase(""));
}

#[test]
fn proxy_targets() {
    let plain = ProxyConfig { target_base: "http://127.0.0.1:8080".to_string(), remove_base_path: None };
    assert_eq!(plain.target_url(Some("/a/b?c=d")), "http://127.0.0.1:8080/a/b?c=d");
    assert_eq!(plain.target_url(None), "http://127.0.0.1:8080/");
    let based = ProxyConfig {
        target_base: "http://127.0.0.1:8080".to_string(),
        remove_base_path: Some("/api".to_string()),
    };
    assert_eq!(based.target_url(Some("/api/users?x=1?y")), "http://127.0.0.1:8080/users?x=1?y");
    assert_eq!(based.target_url(Some("/api")), "http://127.0.0.1:8080/");
    assert_eq!(based.target_url(Some("/other")), "http://127.0.0.1:8080/other");
    assert_eq!(based.target_path(Some("api")), "/api");
}

#[test]
fn proxy_headers_and_errors() {
    let kept = filter_proxy_headers(&vec![
        ("host".to_string(), b"x".to_vec()),
        ("accept".to_string(), b"*/*".to_vec()),
        ("connection".to_string(), b"close".to_vec()),
    ]);
    assert_eq!(kept, vec![("accept".to_string(), b"*/*".to_vec())]);
    assert_eq!(BAD_GATEWAY_STATUS, 502);
    assert_eq!(bad_gateway_body(&ProxyFailure::ReadRequestBody), "Bad Gateway: failed to read request body");
    assert_eq!(bad_gateway_body(&ProxyFailure::BuildRequest), "Bad Gateway: failed to build request");
    assert_eq!(bad_gateway_body(&ProxyFailure::ReadResponse), "Bad Gateway: failed to read response");
    assert_eq!(bad_gateway_body(&ProxyFailure::Upstream("refused".to_string())), "Bad Gateway: refused");
}

#[test]
fn echo_invocation_becomes_post_with_json_body() {
    let mut h = rpc("POST", "http://localhost:8080/api/echo");
    h.headers.push(("content-type".to_string(), "application/json".to_string()));
    h.body = Some(BodyData::String("{\"test\": \"data\", \"number\": 42}".to_string()));
    let inv = invocation(
        vec![ParameterBinding { name: "req".to_string(), data: Some(TypedData::Http(h)) }],
        vec![],
    );
    let out = forwarder(None).prepare(&inv).unwrap();
    assert_eq!(out.method, "POST");
    assert_eq!(out.uri, "http://127.0.0.1:8080/api/echo");
    assert_eq!(
        out.headers,
        vec![
            ("content-type".to_string(), "application/json".to_string()),
            ("Host".to_string(), "127.0.0.1:8080".to_string()),
        ]
    );
    assert_eq!(out.body, b"{\"test\": \"data\", \"number\": 42}".to_vec());

    let headers = vec![("content-type".to_string(), b"application/json; charset=utf-8".to_vec())];
    let r = build_invocation_response("test-invocation-1", 200, &headers, &out.body);
    assert_eq!(r.result.as_ref().unwrap().status, STATUS_SUCCESS);
    assert_eq!(r.output_data[0].name, "$return");
    match r.output_data[0].data.as_ref().unwrap() {
        TypedData::Http(h) => {
            assert_eq!(h.status_code, "200");
            match &h.body {
                Some(BodyData::String(s)) => assert!(s.contains("\"test\"")),
                _ => panic!("expected a text body"),
            }
        }
        _ => panic!("expected HTTP data"),
    }
}

#[test]
fn build_request_refuses_bad_headers() {
    let f = forwarder(None);
    let mut h = rpc("GET", "http://h/");
    h.headers.push(("bad name".to_string(), "1".to_string()));
    assert_eq!(f.build_http_request(&h).err().unwrap(), INVALID_HEADER_NAME_MESSAGE);

    let mut h = rpc("GET", "http://h/");
    h.headers.push(("X-Ok".to_string(), "line\nbreak".to_string()));
    assert_eq!(f.build_http_request(&h).err().unwrap(), INVALID_HEADER_VALUE_MESSAGE);

    let mut h = rpc("GET", "http://h/");
    h.nullable_headers.push(("".to_string(), Some("x".to_string())));
    assert_eq!(f.build_http_request(&h).err().unwrap(), INVALID_HEADER_NAME_MESSAGE);

    // The first refused header decides, name before value.
    let mut h = rpc("GET", "http://h/");
    h.headers.push(("X-A".to_string(), "\u{7f}".to_string()));
    h.headers.push(("b@d".to_string(), "1".to_string()));
    assert_eq!(f.build_http_request(&h).err().unwrap(), INVALID_HEADER_VALUE_MESSAGE);

    // Dropped headers are not looked at; tabs and non-ASCII text are fine.
    let mut h = rpc("GET", "http://h/");
    h.headers.push(("Connection".to_string(), "bad\nvalue".to_string()));
    h.headers.push(("X-Text".to_string(), "caf\u{e9}\tok".to_string()));
    assert!(f.build_http_request(&h).is_ok());
}

#[test]
fn build_request_refuses_bad_target() {
    let mut config = AdapterConfig::default();
    config.host = "exa mple".to_string();
    let f = HttpForwarder::new(config);
    assert!(f.build_http_request(&rpc("GET", "http://h/")).is_err());
    let mut config = AdapterConfig::default();
    config.host = "localhost".to_string();
    let f = HttpForwarder::new(config);
    let r = f.build_http_request(&rpc("GET", "http://h/x")).unwrap();
    assert_eq!(r.uri, "http://localhost:8080/x");
}
