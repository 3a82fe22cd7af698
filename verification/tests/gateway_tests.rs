use cgi_gateway::cgi_parse::{gateway_response, parse_cgi_output};
use cgi_gateway::response::{error_response, static_ok_response, GatewayError};

#[test]
fn cgi_status_header_and_body_exact() {
    let out = b"Status: 201 Created\nX-Foo: bar\n\nHELLO".to_vec();
    let r = parse_cgi_output(&out).unwrap();
    assert_eq!(r.status, 201);
    assert_eq!(r.headers.len(), 1);
    assert_eq!(r.headers[0].name, b"X-Foo".to_vec());
    assert_eq!(r.headers[0].value, b"bar".to_vec());
    assert_eq!(r.body, b"HELLO".to_vec());
}

#[test]
fn cgi_multiple_header_lines_all_forwarded() {
    let out = b"Content-Type: text/html\nX-A: 1\nX-B: 2\n\nbody".to_vec();
    let r = parse_cgi_output(&out).unwrap();
    assert_eq!(r.status, 200);
    assert_eq!(r.headers.len(), 3);
    assert_eq!(r.headers[0].name, b"Content-Type".to_vec());
    assert_eq!(r.headers[0].value, b"text/html".to_vec());
    assert_eq!(r.headers[1].name, b"X-A".to_vec());
    assert_eq!(r.headers[1].value, b"1".to_vec());
    assert_eq!(r.headers[2].name, b"X-B".to_vec());
    assert_eq!(r.headers[2].value, b"2".to_vec());
    assert_eq!(r.body, b"body".to_vec());
}

#[test]
fn cgi_crlf_line_endings() {
    let out = b"Status: 404 Not Found\r\nX: y\r\n\r\nabc".to_vec();
    let r = parse_cgi_output(&out).unwrap();
    assert_eq!(r.status, 404);
    assert_eq!(r.headers.len(), 1);
    assert_eq!(r.headers[0].name, b"X".to_vec());
    assert_eq!(r.headers[0].value, b"y".to_vec());
    assert_eq!(r.body, b"abc".to_vec());
}

#[test]
fn cgi_empty_head_defaults_to_200() {
    let out = b"\nBODY".to_vec();
    let r = parse_cgi_output(&out).unwrap();
    assert_eq!(r.status, 200);
    assert!(r.headers.is_empty());
    assert_eq!(r.body, b"BODY".to_vec());
}

#[test]
fn cgi_body_not_truncated_after_first_newline() {
    // A head of two lines followed by a body with its own newlines: the
    // split happens at the blank line, not the first line terminator.
    let out = b"X-One: a\nX-Two: b\n\nline1\nline2\n".to_vec();
    let r = parse_cgi_output(&out).unwrap();
    assert_eq!(r.headers.len(), 2);
    assert_eq!(r.body, b"line1\nline2\n".to_vec());
}

#[test]
fn cgi_missing_blank_line_is_malformed() {
    let out = b"Content-Type: text/plain\nno terminator".to_vec();
    assert_eq!(
        parse_cgi_output(&out).unwrap_err(),
        GatewayError::MalformedCgiOutput
    );
    assert_eq!(
        parse_cgi_output(&Vec::new()).unwrap_err(),
        GatewayError::MalformedCgiOutput
    );
}

#[test]
fn cgi_header_line_without_colon_is_malformed() {
    let out = b"not a header\n\nbody".to_vec();
    assert_eq!(
        parse_cgi_output(&out).unwrap_err(),
        GatewayError::MalformedCgiOutput
    );
}

#[test]
fn cgi_unusable_status_value_is_malformed() {
    let out = b"Status: abc\n\nbody".to_vec();
    assert_eq!(
        parse_cgi_output(&out).unwrap_err(),
        GatewayError::MalformedCgiOutput
    );
    let out = b"Status: 2000\n\nbody".to_vec();
    assert_eq!(
        parse_cgi_output(&out).unwrap_err(),
        GatewayError::MalformedCgiOutput
    );
}

#[test]
fn cgi_first_status_wins_and_none_forwarded() {
    let out = b"Status: 301 Moved\nStatus: 302 Found\nX: y\n\nb".to_vec();
    let r = parse_cgi_output(&out).unwrap();
    assert_eq!(r.status, 301);
    assert_eq!(r.headers.len(), 1);
    assert_eq!(r.headers[0].name, b"X".to_vec());
}

#[test]
fn failed_script_output_discarded() {
    let out = b"Status: 200 OK\n\ntop secret".to_vec();
    let r = gateway_response(false, &out);
    assert_eq!(r.status, 500);
    assert!(r.headers.is_empty());
    assert_eq!(r.body, b"CGI script error".to_vec());
}

#[test]
fn repeated_cgi_request_is_byte_identical() {
    let out = b"Status: 201 Created\nX-Foo: bar\n\nHELLO".to_vec();
    let r1 = gateway_response(true, &out);
    let r2 = gateway_response(true, &out);
    assert_eq!(r1, r2);
}

#[test]
fn static_response_serves_bytes_with_mime_type() {
    let content = b"<h1>hi</h1>".to_vec();
    let r = static_ok_response("index.html", content.clone());
    assert_eq!(r.status, 200);
    assert_eq!(r.body, content);
    assert_eq!(r.headers.len(), 2);
    assert_eq!(r.headers[0].name, b"Content-Type".to_vec());
    assert_eq!(r.headers[0].value, b"text/html".to_vec());
    assert_eq!(r.headers[1].name, b"Cache-Control".to_vec());
    assert_eq!(r.headers[1].value, b"max-age=3600".to_vec());
}

#[test]
fn static_mime_type_follows_extension() {
    let r = static_ok_response("photo.png", b"fakepng".to_vec());
    assert_eq!(r.headers[0].value, b"image/png".to_vec());
    let r = static_ok_response("noextension", b"x".to_vec());
    assert_eq!(r.headers[0].value, b"text/plain".to_vec());
}

#[test]
fn repeated_static_request_is_byte_identical() {
    let content = b"same bytes".to_vec();
    let r1 = static_ok_response("a.txt", content.clone());
    let r2 = static_ok_response("a.txt", content);
    assert_eq!(r1, r2);
}

#[test]
fn error_responses_have_fixed_status_and_body() {
    let r = error_response(GatewayError::TargetNotFound);
    assert_eq!(r.status, 404);
    assert_eq!(r.body, b"Not found".to_vec());
    assert!(r.headers.is_empty());
    let r = error_response(GatewayError::StaticReadFailure);
    assert_eq!(r.status, 500);
    assert_eq!(r.body, b"Failed to read the requested file".to_vec());
    let r = error_response(GatewayError::SpawnFailure);
    assert_eq!(r.status, 500);
    assert_eq!(r.body, b"Failed to launch CGI script".to_vec());
    let r = error_response(GatewayError::ScriptExecutionFailure);
    assert_eq!(r.status, 500);
    assert_eq!(r.body, b"CGI script error".to_vec());
    let r = error_response(GatewayError::MalformedCgiOutput);
    assert_eq!(r.status, 500);
    assert_eq!(r.body, b"Malformed CGI output".to_vec());
}
