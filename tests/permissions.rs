use bls_drivers::error::ErrorKind;
use bls_drivers::permission::{
    BlsRuntimePermissionsContainer, ChildPermissionArg, ChildPermissionsArg, Permission,
    PermissionKind, PermissionState,
};

fn perm(url: &str) -> Permission {
    Permission { url: url.to_string(), schema: "http".to_string() }
}

#[test]
fn prefix_permission_matches_path() {
    assert!(perm("http://example.com").is_permision("http://example.com/path"));
}

#[test]
fn prefix_permission_admits_domain_suffix() {
    // A raw text prefix: a longer host name sharing the prefix matches too.
    assert!(perm("http://example.com").is_permision("http://example.com.evil.com"));
}

#[test]
fn prefix_permission_ignores_ascii_case() {
    assert!(perm("http://example.com").is_permision("HTTP://Example.COM/x"));
    assert!(perm("HTTP://EXAMPLE.com").is_permision("http://example.com"));
    assert!(!perm("http://example.com").is_permision("https://example.com"));
    assert!(!perm("http://example.com").is_permision("http://example.co"));
}

#[test]
fn everything_is_denied_by_default() {
    let p = BlsRuntimePermissionsContainer::new();
    assert_eq!(p.check_read("/tmp", "t"), Err(ErrorKind::PermissionDeny));
    assert_eq!(p.check_write("/tmp", "t"), Err(ErrorKind::PermissionDeny));
    assert_eq!(p.check_net("host", Some(80), "t"), Err(ErrorKind::PermissionDeny));
    assert_eq!(p.check_env("HOME"), Err(ErrorKind::PermissionDeny));
    assert_eq!(p.check_run("ls", "t"), Err(ErrorKind::PermissionDeny));
    assert_eq!(p.check_sys("hostname", "t"), Err(ErrorKind::PermissionDeny));
    assert_eq!(p.check_ffi("/lib.so"), Err(ErrorKind::PermissionDeny));
    assert_eq!(p.check_read_all("t"), Err(ErrorKind::PermissionDeny));
    assert_eq!(p.query(PermissionKind::Read, "/tmp"), PermissionState::Prompt);
    assert_eq!(p.check_was_allow_all_flag_passed(), Err(ErrorKind::PermissionDeny));
}

#[test]
fn allow_all_bypasses_every_class() {
    let mut p = BlsRuntimePermissionsContainer::allow_all();
    p.deny(PermissionKind::Net, "host");
    assert_eq!(p.check_net("host", Some(80), "t"), Ok(()));
    assert_eq!(p.check_read("/etc/passwd", "t"), Ok("/etc/passwd".to_string()));
    assert_eq!(p.check_env_all(), Ok(()));
    assert!(p.query_run_all());
    assert_eq!(p.check_was_allow_all_flag_passed(), Ok(()));
}

#[test]
fn path_grants_cover_subpaths_only() {
    let mut p = BlsRuntimePermissionsContainer::new();
    p.grant(PermissionKind::Read, "/data");
    p.deny(PermissionKind::Read, "/data/secret");
    assert_eq!(p.check_read("/data", "t"), Ok("/data".to_string()));
    assert_eq!(p.check_read("/data/a/b", "t"), Ok("/data/a/b".to_string()));
    assert_eq!(p.check_read("/database", "t"), Err(ErrorKind::PermissionDeny));
    assert_eq!(p.check_read("/data/secret/x", "t"), Err(ErrorKind::PermissionDeny));
    assert_eq!(p.query(PermissionKind::Read, "/data/secret"), PermissionState::Denied);
    assert_eq!(p.query(PermissionKind::Read, "/other"), PermissionState::Prompt);
}

#[test]
fn net_grants_by_host_or_host_and_port() {
    let mut p = BlsRuntimePermissionsContainer::new();
    p.grant(PermissionKind::Net, "a.com");
    p.grant(PermissionKind::Net, "b.com:8080");
    assert_eq!(p.check_net("a.com", Some(443), "t"), Ok(()));
    assert_eq!(p.check_net("a.com", None, "t"), Ok(()));
    assert_eq!(p.check_net("b.com", Some(8080), "t"), Ok(()));
    assert_eq!(p.check_net("b.com", Some(80), "t"), Err(ErrorKind::PermissionDeny));
    assert_eq!(p.check_net("b.com", Some(808), "t"), Err(ErrorKind::PermissionDeny));
    assert_eq!(p.query_net(Some("a.com:1")), PermissionState::Granted);
}

#[test]
fn env_grants_match_whole_names() {
    let mut p = BlsRuntimePermissionsContainer::new();
    p.grant(PermissionKind::Env, "HOME");
    assert_eq!(p.check_env("HOME"), Ok(()));
    assert_eq!(p.check_env("HOMEDIR"), Err(ErrorKind::PermissionDeny));
}

#[test]
fn whole_class_grant_respects_denials() {
    let mut p = BlsRuntimePermissionsContainer::new();
    p.grant_all(PermissionKind::Write);
    assert_eq!(p.check_write_all("t"), Ok(()));
    p.deny(PermissionKind::Write, "/etc");
    assert_eq!(p.check_write_all("t"), Err(ErrorKind::PermissionDeny));
    assert_eq!(p.check_write("/tmp/x", "t"), Ok("/tmp/x".to_string()));
    assert_eq!(p.check_write("/etc/x", "t"), Err(ErrorKind::PermissionDeny));
}

#[test]
fn revoke_withdraws_grants() {
    let mut p = BlsRuntimePermissionsContainer::new();
    p.grant(PermissionKind::Read, "/a");
    p.grant(PermissionKind::Read, "/b");
    assert_eq!(p.revoke_read(Some("/a/x")), PermissionState::Prompt);
    assert_eq!(p.check_read("/a", "t"), Err(ErrorKind::PermissionDeny));
    assert_eq!(p.check_read("/b", "t"), Ok("/b".to_string()));
    assert_eq!(p.revoke_read(None), PermissionState::Prompt);
    assert_eq!(p.check_read("/b", "t"), Err(ErrorKind::PermissionDeny));
}

#[test]
fn child_inherits_and_narrows() {
    let mut parent = BlsRuntimePermissionsContainer::new();
    parent.grant(PermissionKind::Net, "a.com");
    parent.grant(PermissionKind::Read, "/data");
    parent.deny(PermissionKind::Read, "/data/secret");
    let mut arg = ChildPermissionsArg::inherit();
    arg.read = ChildPermissionArg::Granted(vec!["/data/pub".to_string()]);
    arg.net = ChildPermissionArg::NotGranted;
    let child = parent.create_child_permissions(&arg).unwrap();
    assert_eq!(child.check_read("/data/pub/x", "t"), Ok("/data/pub/x".to_string()));
    assert_eq!(child.check_read("/data/other", "t"), Err(ErrorKind::PermissionDeny));
    assert_eq!(child.check_net("a.com", None, "t"), Err(ErrorKind::PermissionDeny));
    assert_eq!(parent.check_net("a.com", None, "t"), Ok(()));
}

#[test]
fn child_cannot_ask_for_what_parent_denies() {
    let mut parent = BlsRuntimePermissionsContainer::new();
    parent.grant(PermissionKind::Read, "/data");
    parent.deny(PermissionKind::Read, "/data/secret");
    let mut arg = ChildPermissionsArg::inherit();
    arg.read = ChildPermissionArg::Granted(vec!["/data/secret".to_string()]);
    assert!(matches!(parent.create_child_permissions(&arg), Err(ErrorKind::PermissionDeny)));
    arg.read = ChildPermissionArg::Granted(vec!["/elsewhere".to_string()]);
    assert!(matches!(parent.create_child_permissions(&arg), Err(ErrorKind::PermissionDeny)));
}

#[test]
fn child_of_allow_all_is_no_allow_all() {
    let parent = BlsRuntimePermissionsContainer::allow_all();
    let child = parent.create_child_permissions(&ChildPermissionsArg::inherit()).unwrap();
    assert_eq!(child.check_was_allow_all_flag_passed(), Err(ErrorKind::PermissionDeny));
    assert_eq!(child.check_read("/x", "t"), Ok("/x".to_string()));
}

#[test]
fn dot_dot_cannot_leave_a_granted_directory() {
    let mut p = BlsRuntimePermissionsContainer::new();
    p.grant(PermissionKind::Read, "/data");
    assert_eq!(p.check_read("/data/../etc/passwd", "t"), Err(ErrorKind::PermissionDeny));
    assert_eq!(p.check_read("/data/a/../../etc", "t"), Err(ErrorKind::PermissionDeny));
    assert_eq!(p.check_read("/data/./a/../b//c/", "t"), Ok("/data/b/c".to_string()));
    assert_eq!(p.check_read("/x/../data/f", "t"), Ok("/data/f".to_string()));
    assert_eq!(p.check_read("/../../data", "t"), Ok("/data".to_string()));
}

#[test]
fn relative_paths_resolve_against_cwd() {
    let mut p = BlsRuntimePermissionsContainer::new();
    p.grant(PermissionKind::Write, "/data");
    assert_eq!(p.check_write("data/x", "t"), Ok("/data/x".to_string()));
    assert_eq!(p.check_write("", "t"), Err(ErrorKind::PermissionDeny));
    p.cwd = "/data/sub".to_string();
    assert_eq!(p.check_write("../y", "t"), Ok("/data/y".to_string()));
    assert_eq!(p.check_write("../../etc", "t"), Err(ErrorKind::PermissionDeny));
    p.grant_all(PermissionKind::Ffi);
    assert_eq!(p.check_ffi("./lib.so"), Ok("/data/sub/lib.so".to_string()));
    assert_eq!(p.check_ffi("/lib/./x.so"), Ok("/lib/x.so".to_string()));
}

#[test]
fn allow_all_covers_relative_and_empty_paths() {
    let p = BlsRuntimePermissionsContainer::allow_all();
    assert_eq!(p.check_read("data.txt", "t"), Ok("/data.txt".to_string()));
    assert_eq!(p.check_read("", "t"), Ok("/".to_string()));
    assert_eq!(p.check_write("../x", "t"), Ok("/x".to_string()));
}

#[test]
fn revoke_keeps_unrelated_grants() {
    let mut p = BlsRuntimePermissionsContainer::new();
    p.grant(PermissionKind::Net, "a.com");
    p.grant(PermissionKind::Net, "b.com");
    p.revoke_net(Some("a.com:80"));
    assert_eq!(p.check_net("a.com", Some(80), "t"), Err(ErrorKind::PermissionDeny));
    assert_eq!(p.check_net("b.com", Some(80), "t"), Ok(()));
}

#[test]
fn root_grant_covers_everything_below() {
    let mut p = BlsRuntimePermissionsContainer::new();
    p.grant(PermissionKind::Read, "/");
    assert_eq!(p.check_read("/", "t"), Ok("/".to_string()));
    assert_eq!(p.check_read("/a/b", "t"), Ok("/a/b".to_string()));
    assert_eq!(p.check_read("/..", "t"), Ok("/".to_string()));
}
