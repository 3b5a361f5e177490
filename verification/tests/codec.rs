use minihttp::lines::lines_of;
use minihttp::request::Method;
use minihttp::request::extract_method;
use minihttp::request::extract_path;
use minihttp::request::extract_user_agent;
use minihttp::response::HttpResponse;
use minihttp::response::http_response;
use minihttp::text::second_token;
use minihttp::text::str_eq;
use minihttp::text::trim_trailing_nuls;

#[test]
fn http_response_exact_format() {
    let r = http_response(200, "OK", "text/plain", "abc");
    assert_eq!(
        r,
        "HTTP/1.1 200 OK\r\nContent-Type: text/plain\r\nContent-Length: 3\r\n\r\nabc"
    );
}

#[test]
fn http_response_empty_body() {
    let r = http_response(404, "Not Found", "", "");
    assert_eq!(
        r,
        "HTTP/1.1 404 Not Found\r\nContent-Type: \r\nContent-Length: 0\r\n\r\n"
    );
}

#[test]
fn content_length_counts_bytes_not_chars() {
    // Two of these five characters take two bytes in UTF-8.
    let r = http_response(200, "OK", "text/plain", "h\u{e9}ll\u{f6}");
    assert!(r.contains("Content-Length: 7\r\n"));
}

#[test]
fn to_http_string_ok_text() {
    let resp = HttpResponse::OkText {
        content_type: String::from("text/plain"),
        body: String::from("hi"),
    };
    assert_eq!(
        resp.to_http_string(),
        "HTTP/1.1 200 OK\r\nContent-Type: text/plain\r\nContent-Length: 2\r\n\r\nhi"
    );
}

#[test]
fn to_http_string_created() {
    assert_eq!(
        HttpResponse::Created.to_http_string(),
        "HTTP/1.1 201 Created\r\nContent-Type: text/plain\r\nContent-Length: 0\r\n\r\n"
    );
}

#[test]
fn to_http_string_not_found() {
    assert_eq!(
        HttpResponse::NotFound.to_http_string(),
        "HTTP/1.1 404 Not Found\r\nContent-Type: \r\nContent-Length: 0\r\n\r\n"
    );
}

#[test]
fn to_http_string_bad_request() {
    assert_eq!(
        HttpResponse::BadRequest(String::from("nope")).to_http_string(),
        "HTTP/1.1 400 Bad Request\r\nContent-Type: \r\nContent-Length: 4\r\n\r\nnope"
    );
}

#[test]
fn to_http_bytes_matches_string_form() {
    let resp = HttpResponse::OkText {
        content_type: String::from("text/plain"),
        body: String::from("abc"),
    };
    assert_eq!(resp.to_http_bytes(), resp.to_http_string().into_bytes());
}

#[test]
fn extract_method_get() {
    assert!(matches!(
        extract_method("GET / HTTP/1.1\r\n\r\n"),
        Method::Get
    ));
}

#[test]
fn extract_method_post_takes_last_line_without_nuls() {
    let m = extract_method("POST /files/u HTTP/1.1\r\n\r\nhello\0\0\0");
    match m {
        Method::Post { body } => assert_eq!(body, "hello"),
        _ => panic!("expected a POST"),
    }
}

#[test]
fn extract_method_unknown() {
    assert!(matches!(
        extract_method("DELETE / HTTP/1.1\r\n\r\n"),
        Method::Unknown
    ));
}

#[test]
fn method_token_must_match_exactly() {
    assert!(matches!(
        extract_method("GETX / HTTP/1.1\r\n\r\n"),
        Method::Unknown
    ));
    assert!(matches!(
        extract_method("POSTING / HTTP/1.1\r\n\r\n"),
        Method::Unknown
    ));
}

#[test]
fn method_token_survives_leading_whitespace() {
    assert!(matches!(
        extract_method("  GET / HTTP/1.1\r\n\r\n"),
        Method::Get
    ));
}

#[test]
fn extract_method_of_empty_buffer_is_unknown() {
    assert!(matches!(extract_method(""), Method::Unknown));
    assert!(matches!(extract_method("\r\n"), Method::Unknown));
}

#[test]
fn extract_path_second_token() {
    assert_eq!(
        extract_path("GET /echo/abc HTTP/1.1\r\nHost: x\r\n\r\n"),
        Some("/echo/abc")
    );
}

#[test]
fn extract_path_malformed_line() {
    assert_eq!(extract_path("GET\r\n\r\n"), None);
    assert_eq!(extract_path(""), None);
}

#[test]
fn extract_user_agent_value() {
    let req = "GET /user-agent HTTP/1.1\r\nHost: x\r\nUser-Agent: foo/1.0\r\n\r\n";
    assert_eq!(extract_user_agent(req), Some("foo/1.0"));
}

#[test]
fn extract_user_agent_absent() {
    assert_eq!(extract_user_agent("GET /user-agent HTTP/1.1\r\nHost: x\r\n\r\n"), None);
}

#[test]
fn extract_user_agent_without_value() {
    assert_eq!(
        extract_user_agent("GET /user-agent HTTP/1.1\r\nUser-Agent:\r\n\r\n"),
        None
    );
}

#[test]
fn lines_split_like_str_lines() {
    let ls = lines_of("a\r\nb\nc\n");
    assert_eq!(ls, vec!["a", "b", "c"]);
    let raw = "x\r\n\r\nbody";
    assert_eq!(lines_of(raw), raw.lines().collect::<Vec<_>>());
}

#[test]
fn second_token_of_line() {
    assert_eq!(second_token("GET / HTTP/1.1"), Some("/"));
    assert_eq!(second_token("GET"), None);
    assert_eq!(second_token("   "), None);
}

#[test]
fn trim_nul_padding() {
    assert_eq!(trim_trailing_nuls("abc\0\0"), "abc");
    assert_eq!(trim_trailing_nuls("\0\0"), "");
    assert_eq!(trim_trailing_nuls("abc"), "abc");
}

#[test]
fn str_eq_compares_contents() {
    assert!(str_eq("echo", "echo"));
    assert!(!str_eq("echo", "echos"));
    assert!(!str_eq("echo", "ecko"));
}
