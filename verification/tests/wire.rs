use fiddler_crab::request_unit::RequestUnit;
use fiddler_crab::wire::{
    parse_request_bytes, parse_request_text, render_rejection, render_response, render_success,
    ParsedRequest,
};

fn parsed(endpoint_name: &str, body: &str) -> Option<ParsedRequest> {
    Some(ParsedRequest { endpoint_name: endpoint_name.to_string(), body: body.to_string() })
}

#[test]
fn body_follows_the_first_empty_line() {
    let text = "POST / HTTP/1.1\r\nHost: localhost\r\n\r\n/echo_input_data/hello";
    assert_eq!(parse_request_text(text), parsed("echo_input_data", "/echo_input_data/hello"));
}

#[test]
fn second_empty_line_belongs_to_the_body() {
    let text = "POST / HTTP/1.1\r\n\r\n/llamacpp/a\r\n\r\nb";
    assert_eq!(parse_request_text(text), parsed("llamacpp", "/llamacpp/a\r\n\r\nb"));
}

#[test]
fn segment_ends_at_the_next_slash_or_at_the_end() {
    assert_eq!(parse_request_text("POST\r\n\r\n/name"), parsed("name", "/name"));
    assert_eq!(parse_request_text("POST\r\n\r\n/name/"), parsed("name", "/name/"));
    assert_eq!(parse_request_text("POST\r\n\r\nname/rest"), parsed("name", "name/rest"));
    assert_eq!(parse_request_text("POST\r\n\r\n//x"), parsed("", "//x"));
    assert_eq!(parse_request_text("POST\r\n\r\n/"), parsed("", "/"));
    assert_eq!(parse_request_text("POST\r\n\r\n"), parsed("", ""));
}

#[test]
fn unknown_endpoint_is_still_parsed() {
    assert_eq!(
        parse_request_text("POST / HTTP/1.1\r\n\r\n/unknown_endpoint/x"),
        parsed("unknown_endpoint", "/unknown_endpoint/x")
    );
}

#[test]
fn request_without_empty_line_is_all_body() {
    assert_eq!(
        parse_request_text("POST /echo HTTP/1.1\r\nHost: x\r\n"),
        parsed("POST ", "POST /echo HTTP/1.1\r\nHost: x\r\n")
    );
    assert_eq!(parse_request_text("POST"), parsed("POST", "POST"));
}

#[test]
fn other_methods_are_not_requests() {
    assert_eq!(parse_request_text("GET / HTTP/1.1\r\n\r\n/echo_input_data/x"), None);
    assert_eq!(parse_request_text(""), None);
    assert_eq!(parse_request_text("POS"), None);
    assert_eq!(parse_request_text(" POST / HTTP/1.1\r\n\r\n"), None);
    assert_eq!(parse_request_text("post / HTTP/1.1\r\n\r\n"), None);
}

#[test]
fn bytes_are_decoded_before_parsing() {
    let mut bytes = b"POST / HTTP/1.1\r\n\r\n/echo_input_data/caf".to_vec();
    bytes.extend_from_slice(&[0xc3, 0xa9, 0xff, 0, 0]);
    assert_eq!(
        parse_request_bytes(&bytes),
        parsed("echo_input_data", "/echo_input_data/caf\u{e9}\u{fffd}\0\0")
    );
    assert_eq!(parse_request_bytes(b"GET /"), None);
    assert_eq!(parse_request_bytes(&[0xff, b'P', b'O', b'S', b'T']), None);
}

#[test]
fn success_response_has_status_headers_and_body() {
    let unit = RequestUnit::new(3, "m".to_string(), "in".to_string()).answer("out".to_string());
    assert_eq!(
        render_success(&unit),
        "HTTP/1.1 200 OK\r\nContent-Type: text/plain\r\n\r\nout"
    );
    assert_eq!(
        render_response(&Ok(unit)),
        "HTTP/1.1 200 OK\r\nContent-Type: text/plain\r\n\r\nout"
    );
}

#[test]
fn success_response_falls_back_where_the_slot_is_empty() {
    let unit = RequestUnit::new(3, "m".to_string(), "in".to_string());
    assert_eq!(render_success(&unit), "HTTP/1.1 200 OK\r\nContent-Type: text/plain\r\n\r\n");
}

#[test]
fn success_response_uses_the_slot() {
    let mut unit = RequestUnit::new(3, "m".to_string(), "in".to_string());
    unit.response_status = Some(201);
    unit.response_headers = Some(vec![
        ("Content-Type".to_string(), "application/json".to_string()),
        ("X-Request".to_string(), "3".to_string()),
    ]);
    unit.response_body = Some("{}".to_string());
    assert_eq!(
        render_success(&unit),
        "HTTP/1.1 201 OK\r\nContent-Type: application/json\r\nX-Request: 3\r\n\r\n{}"
    );
    unit.response_headers = Some(Vec::new());
    unit.response_status = Some(0);
    assert_eq!(render_success(&unit), "HTTP/1.1 0 OK\r\n\r\n{}");
    unit.response_status = Some(65535);
    assert_eq!(render_success(&unit), "HTTP/1.1 65535 OK\r\n\r\n{}");
}

#[test]
fn error_response_is_a_server_error_with_the_message() {
    assert_eq!(
        render_response(&Err("Endpoint module not found among modules: x".to_string())),
        "HTTP/1.1 500 Internal Server Error\r\n\r\nEndpoint module not found among modules: x"
    );
    assert_eq!(render_response(&Err(String::new())), "HTTP/1.1 500 Internal Server Error\r\n\r\n");
}

#[test]
fn rejection_response_is_service_unavailable() {
    assert_eq!(
        render_rejection(),
        "HTTP/1.1 503 Service Unavailable\r\n\r\nRequest dropped: the server is at capacity"
    );
}
