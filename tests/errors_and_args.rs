use bls_drivers::args::{parse_dirs, parse_envs, parse_permission, runtime_type, ArgError, RuntimeType};
use bls_drivers::error::{BlocklessSocketErrorKind, ErrorKind, HttpErrorKind, IpfsErrorKind};

#[test]
fn messages() {
    assert_eq!(ErrorKind::DriverNotFound.message(), "Driver not found.");
    assert_eq!(ErrorKind::PermissionDeny.message(), "Permision deny.");
    assert_eq!(HttpErrorKind::BufferTooSmall.message(), "Buffer too small");
    assert_eq!(IpfsErrorKind::RequestError.message(), "Request url");
    assert_eq!(BlocklessSocketErrorKind::ConnectRefused.message(), "Connection refused");
}

#[test]
fn http_codes_round_trip() {
    let all = [
        HttpErrorKind::InvalidDriver,
        HttpErrorKind::InvalidHandle,
        HttpErrorKind::MemoryAccessError,
        HttpErrorKind::BufferTooSmall,
        HttpErrorKind::HeaderNotFound,
        HttpErrorKind::Utf8Error,
        HttpErrorKind::DestinationNotAllowed,
        HttpErrorKind::InvalidMethod,
        HttpErrorKind::InvalidEncoding,
        HttpErrorKind::InvalidUrl,
        HttpErrorKind::RequestError,
        HttpErrorKind::RuntimeError,
        HttpErrorKind::TooManySessions,
        HttpErrorKind::PermissionDeny,
    ];
    for k in all {
        assert_ne!(k.code(), 0);
        assert_eq!(HttpErrorKind::from_code(k.code()), k);
    }
    assert_eq!(HttpErrorKind::InvalidHandle.code(), 1);
    assert_eq!(HttpErrorKind::PermissionDeny.code(), 13);
}

#[test]
fn unknown_codes_read_as_runtime_error() {
    assert_eq!(HttpErrorKind::from_code(0), HttpErrorKind::RuntimeError);
    assert_eq!(HttpErrorKind::from_code(999), HttpErrorKind::RuntimeError);
    assert_eq!(BlocklessSocketErrorKind::from_code(77), BlocklessSocketErrorKind::ParameterError);
    assert_eq!(BlocklessSocketErrorKind::from_code(2), BlocklessSocketErrorKind::ConnectRefused);
}

#[test]
fn env_pairs() {
    assert_eq!(parse_envs("a=1"), Ok(("a".to_string(), "1".to_string())));
    assert_eq!(parse_envs("k=v=w"), Ok(("k".to_string(), "v=w".to_string())));
    assert_eq!(parse_envs("k="), Ok(("k".to_string(), "".to_string())));
    assert_eq!(parse_envs("novalue"), Err(ArgError::MissingEquals));
}

#[test]
fn dir_mappings() {
    assert_eq!(parse_dirs("/host"), Ok(("/host".to_string(), "/host".to_string())));
    assert_eq!(parse_dirs("/host::/guest"), Ok(("/host".to_string(), "/guest".to_string())));
    assert_eq!(parse_dirs("/h::/g::/x"), Ok(("/h".to_string(), "/g".to_string())));
}

#[test]
fn url_permission() {
    let p = parse_permission("http://www.google.com").unwrap();
    assert_eq!(p.schema, "http");
    assert_eq!(p.url, "http://www.google.com");
    assert!(matches!(parse_permission("www.google.com"), Err(ArgError::InvalidUrl)));
}

#[test]
fn runtime_types() {
    assert_eq!(runtime_type(true), RuntimeType::V86);
    assert_eq!(runtime_type(false), RuntimeType::Wasm);
}
