use seance::backend::fs::{
    is_reserved_key, removal_succeeded, session_root_exists, FilesystemBackend, RemoveOutcome, RootFault, RootProbe,
    TIME_MARKER,
};
use seance::backend::redis::RedisBackend;
use seance::backend::{marker_bytes, parse_marker};
use std::path::PathBuf;

#[test]
fn redis_names_are_namespaced() {
    let backend = RedisBackend::new("test-seance", ());
    assert_eq!(backend.sessions_key(), "test-seance:__seance_sessions");
    assert_eq!(backend.get_session_key("session-id"), "test-seance:session-id");
    assert_eq!(backend.get_session_key(""), "test-seance:");
}

#[test]
fn filesystem_backend_keeps_its_root() {
    let backend = FilesystemBackend::new("/tmp/sessions");
    assert_eq!(backend.root(), &PathBuf::from("/tmp/sessions"));
    assert_eq!(backend.clone().root(), &PathBuf::from("/tmp/sessions"));
    assert_eq!(TIME_MARKER, ".__created");
}

#[test]
fn session_root_probe_outcomes() {
    assert_eq!(session_root_exists(RootProbe::Directory), Ok(true));
    assert_eq!(session_root_exists(RootProbe::Missing), Ok(false));
    assert_eq!(session_root_exists(RootProbe::NotDirectory), Err(RootFault::Occupied));
    assert_eq!(session_root_exists(RootProbe::Failed), Err(RootFault::Metadata));
}

#[test]
fn creation_marker_round_trips() {
    assert_eq!(marker_bytes(1_700_000_000), b"1700000000".to_vec());
    assert_eq!(parse_marker(&marker_bytes(0)), Some(0));
    assert_eq!(parse_marker(&marker_bytes(u64::MAX)), Some(u64::MAX));
    assert_eq!(parse_marker(b"12a"), None);
    assert_eq!(parse_marker(b""), None);
    assert_eq!(parse_marker(&[0xff, 0xfe]), None);
}

#[test]
fn removing_what_is_absent_succeeds() {
    assert!(removal_succeeded(RemoveOutcome::Removed));
    assert!(removal_succeeded(RemoveOutcome::NotFound));
    assert!(!removal_succeeded(RemoveOutcome::Failed));
    // a session that does not exist is left alone without error
    assert_eq!(session_root_exists(RootProbe::Missing), Ok(false));
}

#[test]
fn creation_marker_name_is_reserved() {
    assert!(is_reserved_key(TIME_MARKER.as_bytes()));
    assert!(is_reserved_key(b".__created"));
    assert!(!is_reserved_key(b"key"));
    assert!(!is_reserved_key(b".__create"));
    assert!(!is_reserved_key(b".__createdx"));
    assert!(!is_reserved_key(b""));
}

#[test]
fn redis_backend_keeps_its_connection() {
    let mut backend = RedisBackend::new(String::from("ns"), 7u8);
    assert_eq!(*backend.connection(), 7);
    *backend.connection() = 9;
    assert_eq!(*backend.connection(), 9);
    assert_eq!(backend.get_session_key("id"), "ns:id");
}
