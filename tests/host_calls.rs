use bls_drivers::chunked::decode_chunked;
use bls_drivers::error::{BlocklessSocketErrorKind, HttpErrorKind};
use bls_drivers::http_bridge::HttpContext;
use bls_drivers::http_raw::read_response_head;
use bls_drivers::permission::{BlsRuntimePermissionsContainer, PermissionKind};
use bls_drivers::registry::{Driver, DriverConetxt, DriverKind};
use bls_drivers::socket::{domain_of, type_of, AddressFamily, Domain, SocketContext, SocketType, Type};

fn open_net() -> BlsRuntimePermissionsContainer {
    let mut p = BlsRuntimePermissionsContainer::new();
    p.grant_all(PermissionKind::Net);
    p
}

#[test]
fn denied_destination_yields_permission_deny() {
    let mut p = open_net();
    p.deny(PermissionKind::Net, "host");
    let ctx = HttpContext::new(p);
    assert!(matches!(ctx.http_req_target("http://host/path"), Err(HttpErrorKind::PermissionDeny)));
    assert!(matches!(ctx.http_req_target("http://host:8080/path"), Err(HttpErrorKind::PermissionDeny)));
    assert!(ctx.http_req_target("http://other/path").is_ok());
}

#[test]
fn unparsable_request_url_is_invalid_url() {
    let ctx = HttpContext::new(open_net());
    assert!(matches!(ctx.http_req_target("::nope"), Err(HttpErrorKind::InvalidUrl)));
    assert!(matches!(ctx.http_req_target("data:text/plain,hi"), Err(HttpErrorKind::InvalidUrl)));
}

#[test]
fn handle_lifecycle() {
    let mut ctx = HttpContext::new(open_net());
    let t1 = ctx.http_req_target("http://a/").unwrap();
    let (h1, code) = ctx.open_session(t1, 200, vec![], b"abc".to_vec()).unwrap();
    assert_eq!(code, 200);
    let t2 = ctx.http_req_target("http://b/").unwrap();
    let (h2, _) = ctx.open_session(t2, 404, vec![], vec![]).unwrap();
    assert_ne!(h1, h2);
    assert_eq!(ctx.http_close(h1), Ok(()));
    assert_eq!(ctx.http_read_body(h1, 10), Err(HttpErrorKind::InvalidHandle));
    assert_eq!(ctx.http_read_header(h1, "x", 10), Err(HttpErrorKind::InvalidHandle));
    assert_eq!(ctx.http_close(h1), Err(HttpErrorKind::InvalidHandle));
    assert_eq!(ctx.http_read_body(9999, 10), Err(HttpErrorKind::InvalidHandle));
    let t3 = ctx.http_req_target("http://c/").unwrap();
    let (h3, _) = ctx.open_session(t3, 200, vec![], vec![]).unwrap();
    assert_ne!(h3, h1);
    assert_ne!(h3, h2);
}

#[test]
fn header_lookup() {
    let mut ctx = HttpContext::new(open_net());
    let t = ctx.http_req_target("http://a/").unwrap();
    let headers = vec![("Content-Type".to_string(), b"text/plain".to_vec())];
    let (h, _) = ctx.open_session(t, 200, headers, vec![]).unwrap();
    assert_eq!(ctx.http_read_header(h, "content-type", 64), Ok(b"text/plain".to_vec()));
    assert_eq!(ctx.http_read_header(h, "Content-Type", 3), Err(HttpErrorKind::BufferTooSmall));
    assert_eq!(ctx.http_read_header(h, "X-Missing", 64), Err(HttpErrorKind::HeaderNotFound));
}

#[test]
fn end_to_end_request_flow() {
    let mut drivers = DriverConetxt::new();
    drivers.insert_driver(Driver::new(DriverKind::Tcp, "tcp"));
    drivers.insert_driver(Driver::new(DriverKind::Http, "http"));
    assert_eq!(drivers.find_driver("http://host/path").unwrap().kind, DriverKind::Http);

    let mut denied = open_net();
    denied.deny(PermissionKind::Net, "host");
    let ctx = HttpContext::new(denied);
    assert!(matches!(ctx.http_req_target("http://host/path"), Err(HttpErrorKind::PermissionDeny)));

    let mut ctx = HttpContext::new(open_net());
    let target = ctx.http_req_target("http://host/path").unwrap();
    let response = b"HTTP/1.1 200 OK\r\nTransfer-Encoding: chunked\r\n\r\n4\r\nWiki\r\n5\r\npedia\r\n0\r\n\r\n";
    let head = read_response_head(response).unwrap().unwrap();
    let reads: Vec<Vec<u8>> = response[head.len..].chunks(3).map(|c| c.to_vec()).collect();
    let body = decode_chunked(&reads).unwrap();
    let (handle, status) = ctx.open_session(target, head.code, head.headers, body).unwrap();
    assert_eq!(status, 200);
    let mut got = Vec::new();
    loop {
        let part = ctx.http_read_body(handle, 4).unwrap();
        if part.is_empty() {
            break;
        }
        assert!(part.len() <= 4);
        got.extend(part);
    }
    assert_eq!(got, b"Wikipedia".to_vec());
    assert_eq!(ctx.http_read_body(handle, 4), Ok(vec![]));
}

#[test]
fn socket_family_and_type_mapping() {
    assert_eq!(domain_of(AddressFamily::Inet4), Domain::Ipv4);
    assert_eq!(domain_of(AddressFamily::Unspec), Domain::Ipv4);
    assert_eq!(domain_of(AddressFamily::Inet6), Domain::Ipv6);
    assert_eq!(type_of(SocketType::Stream), Type::Stream);
    assert_eq!(type_of(SocketType::Datagram), Type::Dgram);
    assert_eq!(type_of(SocketType::Any), Type::Dgram);
}

#[test]
fn socket_table() {
    let mut ctx: SocketContext<&str> = SocketContext::new();
    assert_eq!(ctx.register(None), Err(BlocklessSocketErrorKind::ConnectRefused));
    let a = ctx.register(Some("a")).unwrap();
    let b = ctx.register(Some("b")).unwrap();
    assert_ne!(a, b);
    assert_eq!(ctx.close(a), Ok("a"));
    assert_eq!(ctx.close(a), Err(BlocklessSocketErrorKind::ParameterError));
}
