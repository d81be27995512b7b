use hypivisor::http::{
    classify_connection, header_value, match_route, parse_request_uri, rejection_response, RouteMatch, Verdict,
};

#[test]
fn parse_uri_standard_get() {
    let (uri, path) = parse_request_uri("GET /ws HTTP/1.1\r\nHost: localhost\r\n");
    assert_eq!(uri, "/ws");
    assert_eq!(path, "/ws");
}

#[test]
fn parse_uri_with_query_string() {
    let (uri, path) = parse_request_uri("GET /ws?token=abc123 HTTP/1.1\r\nHost: localhost\r\n");
    assert_eq!(uri, "/ws?token=abc123");
    assert_eq!(path, "/ws");
}

#[test]
fn parse_uri_agent_proxy_path() {
    let (uri, path) =
        parse_request_uri("GET /ws/agent/node-42?token=x HTTP/1.1\r\nHost: localhost\r\n");
    assert_eq!(uri, "/ws/agent/node-42?token=x");
    assert_eq!(path, "/ws/agent/node-42");
}

#[test]
fn parse_uri_empty_input() {
    let (uri, path) = parse_request_uri("");
    assert_eq!(uri, "/");
    assert_eq!(path, "/");
}

#[test]
fn parse_uri_garbage() {
    let (uri, path) = parse_request_uri("not a real http request");
    assert_eq!(uri, "a");
    assert_eq!(path, "a");
}

#[test]
fn parse_uri_only_first_line_counts() {
    let (uri, path) = parse_request_uri("GET\r\nHost: localhost\r\n");
    assert_eq!(uri, "/");
    assert_eq!(path, "/");
    let (uri, _) = parse_request_uri("  GET\t/x?q   HTTP/1.1");
    assert_eq!(uri, "/x?q");
}

#[test]
fn route_registry() {
    assert_eq!(match_route("/ws"), RouteMatch::Registry);
}

#[test]
fn route_agent_proxy() {
    assert_eq!(
        match_route("/ws/agent/abc-123"),
        RouteMatch::AgentProxy("abc-123".to_string())
    );
}

#[test]
fn route_agent_proxy_empty_id() {
    assert_eq!(
        match_route("/ws/agent/"),
        RouteMatch::BadRequest("Missing node ID".to_string())
    );
}

#[test]
fn route_not_found() {
    assert_eq!(match_route("/"), RouteMatch::NotFound);
    assert_eq!(match_route("/health"), RouteMatch::NotFound);
    assert_eq!(match_route("/ws/"), RouteMatch::NotFound);
}

#[test]
fn route_ws_subpath_not_agent() {
    assert_eq!(match_route("/ws/other"), RouteMatch::NotFound);
}

#[test]
fn auth_reject_without_token() {
    let v = classify_connection("GET /ws HTTP/1.1\r\nHost: localhost\r\n\r\n", "s");
    assert!(matches!(v, Verdict::Unauthorized));
    let resp = rejection_response(&v).unwrap();
    assert!(resp.starts_with("HTTP/1.1 401"));
}

#[test]
fn auth_reject_wrong_token_any_route() {
    for req in [
        "GET /ws?token=t HTTP/1.1\r\n\r\n",
        "GET /ws/agent/n1?token=S2 HTTP/1.1\r\n\r\n",
        "GET /health HTTP/1.1\r\n\r\n",
    ] {
        assert!(matches!(classify_connection(req, "S"), Verdict::Unauthorized));
    }
}

#[test]
fn auth_accepts_encoded_token() {
    let v = classify_connection("GET /ws?token=my%20token HTTP/1.1\r\n\r\n", "my token");
    assert!(matches!(v, Verdict::Route(RouteMatch::Registry)));
    assert!(rejection_response(&v).is_none());
}

#[test]
fn classify_routes_without_secret() {
    let v = classify_connection("GET /ws/agent/ghost HTTP/1.1\r\n\r\n", "");
    assert_eq!(
        match v {
            Verdict::Route(r) => r,
            Verdict::Unauthorized => panic!("unexpected"),
        },
        RouteMatch::AgentProxy("ghost".to_string())
    );
    let v = classify_connection("GET /ws/agent/ HTTP/1.1\r\n\r\n", "");
    assert_eq!(
        rejection_response(&v).unwrap(),
        "HTTP/1.1 400 Bad Request\r\nContent-Length: 15\r\n\r\nMissing node ID"
    );
    let v = classify_connection("GET /health HTTP/1.1\r\n\r\n", "");
    assert_eq!(
        rejection_response(&v).unwrap(),
        "HTTP/1.1 404 Not Found\r\nContent-Length: 9\r\n\r\nNot Found"
    );
    let v = classify_connection("garbage", "");
    assert!(matches!(v, Verdict::Route(RouteMatch::NotFound)));
}

#[test]
fn header_lookup() {
    let req = "GET /ws HTTP/1.1\r\nHost: localhost\r\nX-Thing :  spaced value \r\n\r\nX-Late: body\r\n";
    assert_eq!(header_value(req, "host"), Some("localhost".to_string()));
    assert_eq!(header_value(req, "X-THING"), Some("spaced value".to_string()));
    assert_eq!(header_value(req, "X-Late"), None);
    assert_eq!(header_value(req, "Missing"), None);
    assert_eq!(header_value("GET / HTTP/1.1", "Host"), None);
    assert_eq!(header_value("GET / HTTP/1.1\nA: 1\nA: 2", "a"), Some("1".to_string()));
}
