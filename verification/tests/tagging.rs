//! Tag synthesis and identity resolution, checked on concrete values.

use roche::identity::{getdockerlogin, getlogin, getpodmanlogin, last_token_exec};
use roche::tag::{generateimagetag, BuildKind};

fn tag(prefix: &[u8], path: &[u8], login: Option<&[u8]>) -> Vec<u8> {
    generateimagetag(&prefix.to_vec(), &path.to_vec(), login.map(|l| l.to_vec())).unwrap()
}

#[test]
fn base_label_is_final_segment() {
    assert_eq!(tag(b"dev-", b"/home/u/myapp", None), b"dev-myapp".to_vec());
    assert_eq!(tag(b"", b"/home/u/myapp", None), b"myapp".to_vec());
}

#[test]
fn base_label_defers_to_parent_for_source_subdir() {
    assert_eq!(tag(b"dev-", b"/home/u/myapp/src", None), b"dev-myapp".to_vec());
    assert_eq!(tag(b"", b"/home/u/myapp/src", Some(b"alice")), b"alice/myapp".to_vec());
}

#[test]
fn base_label_of_bare_source_dir_is_parent() {
    // an absolute path whose only segment is the source subdirectory
    assert_eq!(tag(b"dev-", b"/src", None), b"dev-".to_vec());
}

#[test]
fn tag_with_identity_has_identity_prefix() {
    assert_eq!(tag(b"dev-", b"/home/u/myapp", Some(b"alice")), b"alice/dev-myapp".to_vec());
    assert_eq!(tag(b"test-", b"/home/u/myapp", Some(b"alice")), b"alice/test-myapp".to_vec());
}

#[test]
fn dev_flow_scenario_synthesizes_expected_tag() {
    // working directory /home/u/myapp, identity alice, dev prefix
    let prefix = BuildKind::Dev.prefix();
    let t = generateimagetag(&prefix, &b"/home/u/myapp".to_vec(), Some(b"alice".to_vec()));
    assert_eq!(t.unwrap(), b"alice/dev-myapp".to_vec());
}

#[test]
fn release_flow_scenario_without_identity_is_bare_label() {
    // both engines reachable, no login: the release tag is the bare label
    let prefix = BuildKind::Release.prefix();
    assert_eq!(prefix, Vec::<u8>::new());
    let t = generateimagetag(&prefix, &b"/home/u/myapp".to_vec(), None);
    assert_eq!(t.unwrap(), b"myapp".to_vec());
}

#[test]
fn kind_prefixes() {
    assert_eq!(BuildKind::Dev.prefix(), b"dev-".to_vec());
    assert_eq!(BuildKind::Test.prefix(), b"test-".to_vec());
    assert_eq!(BuildKind::Release.prefix(), Vec::<u8>::new());
    assert_eq!(BuildKind::GenOnly.prefix(), Vec::<u8>::new());
}

#[test]
fn last_token_takes_trailing_word() {
    assert_eq!(last_token_exec(&b" Username: alice ".to_vec()), b"alice".to_vec());
    assert_eq!(last_token_exec(&b"alice".to_vec()), b"alice".to_vec());
    assert_eq!(last_token_exec(&b"   ".to_vec()), Vec::<u8>::new());
    assert_eq!(last_token_exec(&Vec::new()), Vec::<u8>::new());
}

#[test]
fn docker_login_prefers_override() {
    let r = getdockerlogin(Some(b"carol".to_vec()), &b" Username: alice\n".to_vec());
    assert_eq!(r, Some(b"carol".to_vec()));
}

#[test]
fn docker_login_scans_info_output() {
    let out = b"Server:\n Containers: 3\n Username: alice\n Registry: example\n".to_vec();
    assert_eq!(getdockerlogin(None, &out), Some(b"alice".to_vec()));
}

#[test]
fn docker_login_takes_last_matching_line() {
    let out = b" Username: alice\n Username: bob\n".to_vec();
    assert_eq!(getdockerlogin(None, &out), Some(b"bob".to_vec()));
}

#[test]
fn docker_login_without_marker_is_none() {
    assert_eq!(getdockerlogin(None, &b"Server:\n Containers: 3\n".to_vec()), None);
    assert_eq!(getdockerlogin(None, &Vec::new()), None);
}

#[test]
fn podman_login_takes_first_line() {
    assert_eq!(getpodmanlogin(&b"bob\nsecond".to_vec()), Some(b"bob".to_vec()));
    assert_eq!(getpodmanlogin(&b"bob".to_vec()), Some(b"bob".to_vec()));
}

#[test]
fn podman_login_strips_carriage_return() {
    assert_eq!(getpodmanlogin(&b"bob\r\n".to_vec()), Some(b"bob".to_vec()));
}

#[test]
fn podman_login_of_empty_output_is_none() {
    assert_eq!(getpodmanlogin(&Vec::new()), None);
    assert_eq!(getpodmanlogin(&b"\nbob".to_vec()), None);
}

#[test]
fn login_falls_back_to_secondary() {
    assert_eq!(
        getlogin(Some(b"alice".to_vec()), Some(b"bob".to_vec())),
        Some(b"alice".to_vec())
    );
    assert_eq!(getlogin(None, Some(b"bob".to_vec())), Some(b"bob".to_vec()));
    assert_eq!(getlogin(None, None), None);
}
