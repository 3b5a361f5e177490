use minihttp::handler::Action;
use minihttp::handler::handle_request;
use minihttp::response::file_read_response;
use minihttp::response::file_write_response;

#[test]
fn get_names_the_file_to_read() {
    match handle_request("GET /files/report.txt HTTP/1.1\r\nHost: x\r\n\r\n") {
        Action::ReadFile { name } => assert_eq!(name, "report.txt"),
        _ => panic!("expected a file read"),
    }
}

#[test]
fn found_file_is_served_verbatim() {
    let resp = file_read_response(Some(b"data".to_vec()));
    let expected: Vec<u8> = b"HTTP/1.1 200 OK\r\nContent-Type: application/octet-stream\r\n\
Content-Length: 4\r\n\r\ndata"
        .to_vec();
    assert_eq!(resp.to_http_bytes(), expected);
}

#[test]
fn binary_contents_survive_serving() {
    let contents = vec![0u8, 159, 146, 150, 255, 13, 10];
    let resp = file_read_response(Some(contents.clone()));
    let wire = resp.to_http_bytes();
    assert!(wire.ends_with(&contents));
    assert!(wire.starts_with(b"HTTP/1.1 200 OK\r\n"));
}

#[test]
fn missing_file_is_not_found() {
    let resp = file_read_response(None);
    assert_eq!(
        resp.to_http_string(),
        "HTTP/1.1 404 Not Found\r\nContent-Type: \r\nContent-Length: 0\r\n\r\n"
    );
}

#[test]
fn post_names_the_file_and_carries_the_body() {
    match handle_request("POST /files/upload.bin HTTP/1.1\r\nHost: x\r\n\r\npayload\0\0") {
        Action::WriteFile { name, body } => {
            assert_eq!(name, "upload.bin");
            assert_eq!(body, "payload");
        }
        _ => panic!("expected a file write"),
    }
}

#[test]
fn successful_write_is_created() {
    assert_eq!(
        file_write_response(true).to_http_string(),
        "HTTP/1.1 201 Created\r\nContent-Type: text/plain\r\nContent-Length: 0\r\n\r\n"
    );
}

#[test]
fn failed_write_is_not_found() {
    let wire = file_write_response(false).to_http_string();
    assert!(wire.starts_with("HTTP/1.1 404 Not Found\r\n"));
}

#[test]
fn posted_bytes_come_back_on_get() {
    // POST the body, keep what the handler says to write...
    let posted = match handle_request("POST /files/upload.bin HTTP/1.1\r\n\r\nB-bytes") {
        Action::WriteFile { name, body } => {
            assert_eq!(name, "upload.bin");
            body.into_bytes()
        }
        _ => panic!("expected a file write"),
    };
    // ...then GET the same name and serve those bytes back.
    match handle_request("GET /files/upload.bin HTTP/1.1\r\n\r\n") {
        Action::ReadFile { name } => assert_eq!(name, "upload.bin"),
        _ => panic!("expected a file read"),
    }
    let wire = file_read_response(Some(posted.clone())).to_http_bytes();
    assert!(wire.ends_with(b"B-bytes"));
    assert_eq!(posted, b"B-bytes".to_vec());
}

#[test]
fn file_path_resolves_under_root() {
    assert_eq!(
        minihttp::handler::resolve_file_path("/srv/data", "report.txt"),
        "/srv/data/report.txt"
    );
    assert_eq!(minihttp::handler::resolve_file_path("", "x"), "/x");
}

#[test]
fn files_without_a_name_is_not_found() {
    match handle_request("GET /files HTTP/1.1\r\n\r\n") {
        Action::Respond(resp) => {
            assert!(resp.to_http_string().starts_with("HTTP/1.1 404 "));
        }
        _ => panic!("expected a plain response"),
    }
}

#[test]
fn only_the_third_segment_names_the_file() {
    match handle_request("GET /files/a/b HTTP/1.1\r\n\r\n") {
        Action::ReadFile { name } => assert_eq!(name, "a"),
        _ => panic!("expected a file read"),
    }
}
