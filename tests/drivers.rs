use bls_drivers::registry::{scheme_len, Driver, DriverConetxt, DriverConetxtImpl, DriverKind};

#[test]
fn scheme_lookup_ignores_ascii_case() {
    let mut reg = DriverConetxtImpl::new();
    reg.insert_driver(Driver::new(DriverKind::Http, "HTTP"));
    for uri in ["http://host/path", "HTTP://host/path", "hTtP://host"] {
        let d = reg.find_driver(uri).expect("registered");
        assert_eq!(d.kind, DriverKind::Http);
    }
}

#[test]
fn unregistered_or_malformed_schemes_find_nothing() {
    let mut reg = DriverConetxtImpl::new();
    reg.insert_driver(Driver::new(DriverKind::Tcp, "tcp"));
    assert!(reg.find_driver("ipfs://x").is_none());
    assert!(reg.find_driver("tcp:/x").is_none());
    assert!(reg.find_driver("tcp").is_none());
    assert!(reg.find_driver("://x").is_none());
    assert!(reg.find_driver("").is_none());
    assert!(reg.find_driver("tcp://127.0.0.1:80").is_some());
}

#[test]
fn last_registration_wins() {
    let mut reg = DriverConetxtImpl::new();
    reg.insert_driver(Driver::new(DriverKind::Tcp, "net"));
    reg.insert_driver(Driver::new(DriverKind::Cgi, "NET"));
    let d = reg.find_driver("net://x").unwrap();
    assert_eq!(d.kind, DriverKind::Cgi);
    assert_eq!(d.name(), "NET");
}

#[test]
fn built_in_drivers() {
    let mut ctx = DriverConetxt::new();
    ctx.init_built_in_drivers(Some(Driver::new(DriverKind::Http, "http")));
    assert_eq!(ctx.find_driver("tcp://1.2.3.4:5").unwrap().kind, DriverKind::Tcp);
    assert_eq!(ctx.find_driver("http://host/path").unwrap().kind, DriverKind::Http);
    let mut bare = DriverConetxt::new();
    bare.init_built_in_drivers(None);
    assert!(bare.find_driver("http://host/path").is_none());
}

#[test]
fn scheme_grammar() {
    assert_eq!(scheme_len("s3://bucket"), Some(2));
    assert_eq!(scheme_len("a+b-c.d://x"), Some(7));
    assert_eq!(scheme_len("1ab://x"), None);
    assert_eq!(scheme_len("ab:x"), None);
}

#[test]
fn names_compare_by_unicode_lower_case() {
    let mut reg = DriverConetxtImpl::new();
    reg.insert_driver(Driver::new(DriverKind::Memory, "\u{212A}v"));
    assert_eq!(reg.find_driver("kv://x").unwrap().kind, DriverKind::Memory);
    assert_eq!(reg.find_driver("KV://x").unwrap().kind, DriverKind::Memory);
}
