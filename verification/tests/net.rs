use lune::net::{
    create_user_agent_header, header_map_to_table, parse_method, parse_query, response_ok,
    response_parts, route_request, serve_keys, stop_result, table_to_hash_map, url_decode,
    url_encode, user_agent_for, response_status, HttpMethod, MapValue, OptionsInput, ProcessedRequest,
    RequestConfig, RequestConfigError, RequestConfigOptions, RequestInput, RequestTable,
    RequestHandler, ResponseInput, Route, ServeConfig, ServeConfigInput, TextOrBytes, UrlError,
};

fn request_table() -> RequestTable {
    RequestTable {
        url: Some(b"https://example.com".to_vec()),
        method: None,
        query: None,
        headers: None,
        body: None,
        options: OptionsInput::Nil,
    }
}

fn runtime_message<T: std::fmt::Debug>(r: Result<T, RequestConfigError>) -> String {
    match r {
        Err(RequestConfigError::Runtime(m)) => m,
        other => panic!("expected a runtime error, got {:?}", other),
    }
}

#[test]
fn url_encoding() {
    assert_eq!(url_encode(b"a b&c~", false).unwrap(), "a%20b%26c~");
    assert_eq!(url_encode(&[0xFF, b'a'], true).unwrap(), "%FFa");
    assert!(matches!(url_encode(&[0xFF], false), Err(UrlError::NotUtf8)));
    assert_eq!(url_encode("é".as_bytes(), false).unwrap(), "%C3%A9");
}

#[test]
fn url_decoding() {
    match url_decode(b"a%20b%zz%4", false).unwrap() {
        TextOrBytes::Text(s) => assert_eq!(s, "a b%zz%4"),
        _ => panic!("expected text"),
    }
    match url_decode(b"%FF", true).unwrap() {
        TextOrBytes::Bytes(b) => assert_eq!(b, vec![0xFF]),
        _ => panic!("expected bytes"),
    }
    match url_decode(b"%FF", false) {
        Err(UrlError::InvalidEncoding(m)) => assert!(m.starts_with("Encountered invalid encoding - ")),
        other => panic!("unexpected {:?}", other),
    }
    assert!(matches!(url_decode(&[0xFF], false), Err(UrlError::NotUtf8)));
}

#[test]
fn methods() {
    assert_eq!(parse_method(" post "), Ok(HttpMethod::Post));
    assert_eq!(parse_method("patch"), Ok(HttpMethod::Patch));
    assert_eq!(parse_method(" fetch "), Err("Invalid request config method 'FETCH'".to_string()));
}

#[test]
fn request_config_from_string() {
    let c = RequestConfig::from_lua(&RequestInput::Url(b"https://a.b".to_vec())).unwrap();
    assert_eq!(c.url, "https://a.b");
    assert_eq!(c.method, HttpMethod::Get);
    assert!(c.query.is_empty() && c.headers.is_empty() && c.body.is_none());
    assert!(c.options.decompress);
}

#[test]
fn request_config_from_table() {
    let mut t = request_table();
    t.method = Some(b"put".to_vec());
    t.query = Some(vec![Some(("q".to_string(), MapValue::Str("1".to_string())))]);
    t.headers = Some(vec![Some((
        "Accept".to_string(),
        MapValue::List(vec!["a".to_string(), "b".to_string()]),
    ))]);
    t.body = Some(b"data".to_vec());
    t.options = OptionsInput::Table(Some(Some(false)));
    let c = RequestConfig::from_lua(&RequestInput::Table(t)).unwrap();
    assert_eq!(c.method, HttpMethod::Put);
    assert_eq!(c.query, vec![("q".to_string(), vec!["1".to_string()])]);
    assert_eq!(c.headers, vec![("Accept".to_string(), vec!["a".to_string(), "b".to_string()])]);
    assert_eq!(c.body, Some(b"data".to_vec()));
    assert!(!c.options.decompress);
}

#[test]
fn request_config_errors() {
    let mut t = request_table();
    t.url = None;
    assert_eq!(
        runtime_message(RequestConfig::from_lua(&RequestInput::Table(t))),
        "Missing 'url' in request config"
    );
    let mut t = request_table();
    t.method = Some(b"nope".to_vec());
    assert_eq!(
        runtime_message(RequestConfig::from_lua(&RequestInput::Table(t))),
        "Invalid request config method 'NOPE'"
    );
    let mut t = request_table();
    t.headers = Some(vec![Some(("H".to_string(), MapValue::Other))]);
    assert_eq!(
        runtime_message(RequestConfig::from_lua(&RequestInput::Table(t))),
        "Value for 'headers' must be a string or array of strings"
    );
    let mut t = request_table();
    t.query = Some(vec![None]);
    assert!(matches!(
        RequestConfig::from_lua(&RequestInput::Table(t)),
        Err(RequestConfigError::Conversion)
    ));
    match RequestConfig::from_lua(&RequestInput::Other("number".to_string())) {
        Err(RequestConfigError::NotConvertible { to, message }) => {
            assert_eq!(to, "RequestConfig");
            assert_eq!(message, "Invalid request config - expected string or table, got number");
        }
        other => panic!("unexpected {:?}", other),
    }
}

#[test]
fn request_options() {
    assert!(RequestConfigOptions::from_lua(&OptionsInput::Nil).unwrap().decompress);
    assert!(RequestConfigOptions::from_lua(&OptionsInput::Table(Some(None))).unwrap().decompress);
    assert_eq!(
        runtime_message(RequestConfigOptions::from_lua(&OptionsInput::Table(None))),
        "Invalid option value for 'decompress' in request config options"
    );
    match RequestConfigOptions::from_lua(&OptionsInput::Other("string".to_string())) {
        Err(RequestConfigError::NotConvertible { message, .. }) => assert_eq!(
            message,
            "Invalid request config options - expected table or nil, got string"
        ),
        other => panic!("unexpected {:?}", other),
    }
}

#[test]
fn hash_maps_keep_last_value_of_a_key() {
    let m = table_to_hash_map(
        &vec![
            Some(("a".to_string(), MapValue::Str("1".to_string()))),
            Some(("b".to_string(), MapValue::Str("2".to_string()))),
            Some(("a".to_string(), MapValue::Str("3".to_string()))),
        ],
        "query",
    )
    .unwrap();
    assert_eq!(
        m,
        vec![("a".to_string(), vec!["3".to_string()]), ("b".to_string(), vec!["2".to_string()])]
    );
}

#[test]
fn headers_are_grouped() {
    let h = vec![
        ("set-cookie".to_string(), "a".to_string()),
        ("content-length".to_string(), "10".to_string()),
        ("set-cookie".to_string(), "b".to_string()),
        ("x".to_string(), "y".to_string()),
    ];
    assert_eq!(
        header_map_to_table(&h, false),
        vec![
            ("set-cookie".to_string(), vec!["a".to_string(), "b".to_string()]),
            ("content-length".to_string(), vec!["10".to_string()]),
            ("x".to_string(), vec!["y".to_string()]),
        ]
    );
    assert_eq!(
        header_map_to_table(&h, true),
        vec![
            ("set-cookie".to_string(), vec!["a".to_string(), "b".to_string()]),
            ("x".to_string(), vec!["y".to_string()]),
        ]
    );
}

#[test]
fn query_strings() {
    assert_eq!(
        parse_query("a=1&b&c=2=3"),
        vec![("a".to_string(), "1".to_string()), ("c".to_string(), "2=3".to_string())]
    );
    assert!(parse_query("").is_empty());
}

#[test]
fn processed_requests() {
    let r = ProcessedRequest::new(
        "get",
        "",
        "x=1",
        vec![(Some("a".to_string()), b"1".to_vec()), (None, b"2".to_vec())],
        b"body".to_vec(),
    );
    assert_eq!(r.method, "GET");
    assert_eq!(r.path, "/");
    assert_eq!(r.query, vec![("x".to_string(), "1".to_string())]);
    assert_eq!(r.headers, vec![("a".to_string(), b"1".to_vec()), ("a".to_string(), b"2".to_vec())]);
    assert_eq!(r.body, b"body".to_vec());
}

#[test]
fn responses() {
    let p = response_parts(ResponseInput::Text(b"hi".to_vec())).unwrap();
    assert_eq!(p.status, 200);
    assert_eq!(p.content_type, Some("text/plain".to_string()));
    assert_eq!(p.body, b"hi".to_vec());
    let p = response_parts(ResponseInput::Table { status: Some(404), body: None }).unwrap();
    assert_eq!(p.status, 404);
    assert!(p.body.is_empty() && p.content_type.is_none());
    assert_eq!(response_parts(ResponseInput::Other("boolean".to_string())).err(), Some("boolean".to_string()));
    assert!(response_ok(204));
    assert!(!response_ok(302));
    assert!(!response_ok(199));
}

#[test]
fn serve_configs() {
    let c = ServeConfig::from_lua(ServeConfigInput::Function).unwrap();
    assert_eq!(c.handle_request, RequestHandler::Given);
    assert!(!c.handle_web_socket);
    let c = ServeConfig::from_lua(ServeConfigInput::Table {
        has_request: false,
        has_web_socket: true,
        address: Some(b"0.0.0.0".to_vec()),
    })
    .unwrap();
    assert_eq!(c.handle_request, RequestHandler::UpgradeRequired);
    assert_eq!(c.address, Some(b"0.0.0.0".to_vec()));
    let e = ServeConfig::from_lua(ServeConfigInput::Table {
        has_request: false,
        has_web_socket: false,
        address: None,
    })
    .err()
    .unwrap();
    assert_eq!(e.value_kind, "table");
    assert_eq!(e.message, Some("Missing handleRequest and / or handleWebSocket".to_string()));
    let e = ServeConfig::from_lua(ServeConfigInput::Other("number".to_string())).err().unwrap();
    assert!(e.message.is_none());
    assert_eq!(route_request(true, true), Route::WebSocket);
    assert_eq!(route_request(false, true), Route::Request);
    assert_eq!(
        serve_keys(3, true),
        ("__net_serve_request_3".to_string(), Some("__net_serve_websocket_3".to_string()))
    );
    assert_eq!(serve_keys(12, false), ("__net_serve_request_12".to_string(), None));
    assert_eq!(stop_result(true), Ok(()));
    assert_eq!(stop_result(false), Err("Server already stopped".to_string()));
}

#[test]
fn user_agents() {
    assert_eq!(create_user_agent_header(), "filiptibell-lune-cli");
    assert_eq!(
        user_agent_for("https://github.com/https://github.com/a/b"),
        Some("a-b-cli".to_string())
    );
    assert_eq!(user_agent_for("https://github.com/nobody"), None);
}

#[test]
fn url_roundtrip() {
    let data: Vec<u8> = (0u8..=255).collect();
    let encoded = url_encode(&data, true).unwrap();
    match url_decode(encoded.as_bytes(), true).unwrap() {
        TextOrBytes::Bytes(b) => assert_eq!(b, data),
        other => panic!("unexpected {:?}", other),
    }
    let text = "héllo wörld/?&=%";
    let encoded = url_encode(text.as_bytes(), false).unwrap();
    match url_decode(encoded.as_bytes(), false).unwrap() {
        TextOrBytes::Text(t) => assert_eq!(t, text),
        other => panic!("unexpected {:?}", other),
    }
}

#[test]
fn response_status_fields() {
    let s = response_status(404);
    assert!(!s.ok);
    assert_eq!(s.status_code, 404);
    assert_eq!(s.status_message.as_deref(), Some("Not Found"));
    let s = response_status(200);
    assert!(s.ok);
    assert_eq!(s.status_message.as_deref(), Some("OK"));
    assert_eq!(response_status(299).status_message, None);
    assert_eq!(response_status(42).status_message, None);
}
