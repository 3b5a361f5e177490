use minihttp::handler::Action;
use minihttp::handler::handle_request;
use minihttp::response::HttpResponse;

fn respond(req: &str) -> HttpResponse {
    match handle_request(req) {
        Action::Respond(resp) => resp,
        Action::ReadFile { name } => panic!("unexpected file read of {}", name),
        Action::WriteFile { name, .. } => panic!("unexpected file write of {}", name),
    }
}

#[test]
fn echo_reflects_text() {
    let resp = respond("GET /echo/abc HTTP/1.1\r\nHost: x\r\n\r\n");
    assert_eq!(
        resp.to_http_string(),
        "HTTP/1.1 200 OK\r\nContent-Type: text/plain\r\nContent-Length: 3\r\n\r\nabc"
    );
}

#[test]
fn echo_reflects_inner_slashes() {
    let resp = respond("GET /echo/a/b/c HTTP/1.1\r\n\r\n");
    match resp {
        HttpResponse::OkText { content_type, body } => {
            assert_eq!(content_type, "text/plain");
            assert_eq!(body, "a/b/c");
        }
        _ => panic!("expected a 200 with a text body"),
    }
}

#[test]
fn echo_content_length_counts_utf8_bytes() {
    let resp = respond("GET /echo/caf\u{e9} HTTP/1.1\r\n\r\n");
    let wire = resp.to_http_string();
    assert!(wire.contains("Content-Length: 5\r\n"));
    assert!(wire.ends_with("caf\u{e9}"));
}

#[test]
fn echo_without_tail_is_empty() {
    let resp = respond("GET /echo HTTP/1.1\r\n\r\n");
    match resp {
        HttpResponse::OkText { body, .. } => assert_eq!(body, ""),
        _ => panic!("expected a 200 with a text body"),
    }
}

#[test]
fn echo_twice_is_byte_identical() {
    let req = "GET /echo/x HTTP/1.1\r\nHost: x\r\n\r\n";
    let first = respond(req).to_http_bytes();
    let second = respond(req).to_http_bytes();
    assert_eq!(first, second);
}

#[test]
fn root_returns_empty_ok() {
    let resp = respond("GET / HTTP/1.1\r\nHost: x\r\n\r\n");
    assert_eq!(
        resp.to_http_string(),
        "HTTP/1.1 200 OK\r\nContent-Type: text/plain\r\nContent-Length: 0\r\n\r\n"
    );
}

#[test]
fn root_accepts_post_too() {
    let resp = respond("POST / HTTP/1.1\r\n\r\nignored");
    match resp {
        HttpResponse::OkText { body, .. } => assert_eq!(body, ""),
        _ => panic!("expected a 200 with an empty body"),
    }
}

#[test]
fn user_agent_is_reflected() {
    let resp = respond("GET /user-agent HTTP/1.1\r\nHost: x\r\nUser-Agent: foo/1.0\r\n\r\n");
    assert_eq!(
        resp.to_http_string(),
        "HTTP/1.1 200 OK\r\nContent-Type: text/plain\r\nContent-Length: 7\r\n\r\nfoo/1.0"
    );
}

#[test]
fn user_agent_missing_is_bad_request() {
    let resp = respond("GET /user-agent HTTP/1.1\r\nHost: x\r\n\r\n");
    assert_eq!(
        resp.to_http_string(),
        "HTTP/1.1 400 Bad Request\r\nContent-Type: \r\nContent-Length: 0\r\n\r\n"
    );
}

#[test]
fn post_to_echo_returns_empty_ok() {
    let resp = respond("POST /echo/abc HTTP/1.1\r\n\r\nbody");
    match resp {
        HttpResponse::OkText { body, .. } => assert_eq!(body, ""),
        _ => panic!("expected a 200 with an empty body"),
    }
}

#[test]
fn post_to_user_agent_returns_empty_ok() {
    let resp = respond("POST /user-agent HTTP/1.1\r\nUser-Agent: foo\r\n\r\nbody");
    match resp {
        HttpResponse::OkText { body, .. } => assert_eq!(body, ""),
        _ => panic!("expected a 200 with an empty body"),
    }
}

#[test]
fn unrecognized_route_is_not_found() {
    let resp = respond("GET /nonexistent/route HTTP/1.1\r\n\r\n");
    assert_eq!(
        resp.to_http_string(),
        "HTTP/1.1 404 Not Found\r\nContent-Type: \r\nContent-Length: 0\r\n\r\n"
    );
}

#[test]
fn unrecognized_method_is_not_found() {
    let resp = respond("DELETE /echo/x HTTP/1.1\r\n\r\n");
    assert!(matches!(resp, HttpResponse::NotFound));
}

#[test]
fn method_resembling_get_is_not_found() {
    let resp = respond("GETX /echo/x HTTP/1.1\r\n\r\n");
    assert!(matches!(resp, HttpResponse::NotFound));
}

#[test]
fn malformed_request_line_is_not_found() {
    assert!(matches!(respond("GET\r\n\r\n"), HttpResponse::NotFound));
    assert!(matches!(respond("\r\n\r\n"), HttpResponse::NotFound));
    assert!(matches!(respond(""), HttpResponse::NotFound));
}

#[test]
fn path_without_leading_slash_is_not_found() {
    assert!(matches!(
        respond("GET plain HTTP/1.1\r\n\r\n"),
        HttpResponse::NotFound
    ));
}
