use bls_drivers::error::IpfsErrorKind;
use bls_drivers::http_raw::{read_response_head, response_head_step, HttpRaw};

#[test]
fn request_head_for_get() {
    let mut h = HttpRaw::from_url("http://example.com/a?b=c").unwrap();
    h.insert_header("X-Key".to_string(), "v1".to_string());
    h.insert_header("Other".to_string(), "o".to_string());
    h.insert_header("X-Key".to_string(), "v2".to_string());
    let raw = h.get_req_raw();
    let expected = "GET /a?b=c HTTP/1.1\r\nHost: example.com:80\r\nAccept: */*\r\nX-Key: v1\r\nX-Key: v2\r\nOther: o\r\n\r\n";
    assert_eq!(String::from_utf8(raw).unwrap(), expected);
}

#[test]
fn caller_headers_replace_defaults() {
    let mut h = HttpRaw::from_url("https://example.com:8443/").unwrap();
    h.method("POST");
    h.insert_header("Accept".to_string(), "text/plain".to_string());
    let raw = String::from_utf8(h.get_req_raw()).unwrap();
    assert_eq!(raw, "POST / HTTP/1.1\r\nHost: example.com:8443\r\nAccept: text/plain\r\n\r\n");
    assert_eq!(String::from_utf8(h.header_raw().into_bytes()).unwrap(), "Host: example.com:8443\r\nAccept: text/plain\r\n");
}

#[test]
fn unparsable_url_is_invalid_parameter() {
    assert!(matches!(HttpRaw::from_url("not a url"), Err(IpfsErrorKind::InvalidParameter)));
}

#[test]
fn url_parts_come_from_the_parser() {
    let h = HttpRaw::from_url("HTTP://Example.COM/p/q?x=1").unwrap();
    let u = h.url();
    assert_eq!(u.scheme, "http");
    assert_eq!(u.host.as_deref(), Some("example.com"));
    assert_eq!(u.port, Some(80));
    assert_eq!(u.path, "/p/q");
    assert_eq!(u.query.as_deref(), Some("x=1"));
}

#[test]
fn multipart_upload_framing() {
    assert_eq!(HttpRaw::boundary_begin("XYZ"), b"--XYZ\r\nContent-Disposition: form-data\r\nContent-Type: application/octet-stream\r\n\r\n".to_vec());
    assert_eq!(HttpRaw::boundary_end("XYZ"), b"\r\n--XYZ--\r\n".to_vec());
    let mut h = HttpRaw::from_url("http://127.0.0.1:5001/api/v0/add").unwrap();
    h.method("POST");
    h.boundary(Some("XYZ".to_string()));
    assert_eq!(h.write_boundary(b"hi"), Err(IpfsErrorKind::RequestError));
    let head = String::from_utf8(h.get_req_raw()).unwrap();
    assert_eq!(head, "POST /api/v0/add HTTP/1.1\r\nHost: 127.0.0.1:5001\r\nAccept: */*\r\n");
    h.set_connected();
    assert!(h.is_connect());
    let body = "--XYZ\r\nContent-Disposition: form-data\r\nContent-Type: application/octet-stream\r\n\r\nhi\r\n--XYZ--\r\n";
    let expected = format!(
        "Content-Length: {}\r\nContent-Type: multipart/form-data; boundary=XYZ\r\n\r\n{}",
        body.len(),
        body
    );
    assert_eq!(String::from_utf8(h.write_boundary(b"hi").unwrap()).unwrap(), expected);
}

#[test]
fn upload_without_boundary_is_a_request_error() {
    let mut h = HttpRaw::from_url("http://127.0.0.1/").unwrap();
    h.set_connected();
    assert_eq!(h.write_boundary(b"hi"), Err(IpfsErrorKind::RequestError));
}

#[test]
fn response_head_parses() {
    let bytes = b"HTTP/1.1 200 OK\r\nTransfer-Encoding: chunked\r\nX-A: b\r\n\r\n4\r\nWiki";
    let head = read_response_head(bytes).unwrap().unwrap();
    assert_eq!(head.code, 200);
    assert_eq!(head.len, bytes.len() - 7);
    assert_eq!(head.headers.len(), 2);
    assert_eq!(head.headers[0].0, "Transfer-Encoding");
    assert_eq!(head.headers[1].1, b"b".to_vec());
}

#[test]
fn response_head_needs_more_bytes() {
    assert!(read_response_head(b"HTTP/1.1 200 OK\r\nX-A:").unwrap().is_none());
}

#[test]
fn response_head_garbage_is_a_request_error() {
    assert!(matches!(read_response_head(b"SMTP ready\r\n\r\n"), Err(IpfsErrorKind::RequestError)));
}

#[test]
fn many_headers_take_a_larger_budget() {
    let mut s = String::from("HTTP/1.1 204 No Content\r\n");
    for i in 0..300 {
        s.push_str(&format!("X-{}: v\r\n", i));
    }
    s.push_str("\r\n");
    let head = read_response_head(s.as_bytes()).unwrap().unwrap();
    assert_eq!(head.code, 204);
    assert_eq!(head.headers.len(), 300);
    let mut big = String::from("HTTP/1.1 200 OK\r\n");
    for i in 0..1200 {
        big.push_str(&format!("X-{}: v\r\n", i));
    }
    big.push_str("\r\n");
    let head = read_response_head(big.as_bytes()).unwrap().unwrap();
    assert_eq!(head.headers.len(), 1200);
    assert_eq!(head.code, 200);
}

#[test]
fn head_step_reads_more_until_eof() {
    let full = b"HTTP/1.1 200 OK\r\nA: b\r\n\r\n";
    let mut bulk = Vec::new();
    let mut got = None;
    for b in full.iter() {
        bulk.push(*b);
        if let Some(h) = response_head_step(&bulk, false).unwrap() {
            got = Some(h);
            break;
        }
    }
    assert_eq!(got.unwrap().len, full.len());
    assert!(matches!(response_head_step(b"HTTP/1.1 200", true), Err(IpfsErrorKind::RequestError)));
    assert!(response_head_step(b"HTTP/1.1 200", false).unwrap().is_none());
}

#[test]
fn connect_address_uses_port_or_fallback() {
    let h = HttpRaw::from_url("http://example.com/x").unwrap();
    assert_eq!(h.connect_address(), Ok(("example.com".to_string(), 80)));
    let h = HttpRaw::from_url("ipfs://node/x").unwrap();
    assert_eq!(h.connect_address(), Ok(("node".to_string(), 5001)));
    let h = HttpRaw::from_url("ipfs://node:7/x").unwrap();
    assert_eq!(h.connect_address(), Ok(("node".to_string(), 7)));
    let h = HttpRaw::from_url("data:text/plain,hi").unwrap();
    assert_eq!(h.connect_address(), Err(IpfsErrorKind::InvalidParameter));
}
