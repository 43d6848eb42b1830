use pg_tier::errors::{upload_failure_kind, FailureKind, UploadError};
use pg_tier::upload::{
    artifact_path, settle_put, tier_upload, ArtifactRead, ObjectStore, PutOutcome,
};

#[test]
fn artifact_path_joins_directory_and_file() {
    let dir = "/data/export".to_string();
    let file = "part-0001.parquet".to_string();
    assert_eq!(artifact_path(&dir, &file), "/data/export/part-0001.parquet");
}

#[test]
fn accepted_put_is_a_success_with_token() {
    let r = settle_put(PutOutcome::Accepted(Some("v1".to_string())));
    let ack = r.unwrap();
    assert_eq!(ack.version_token, Some("v1".to_string()));
}

#[test]
fn accepted_put_without_token_is_still_a_success() {
    let r = settle_put(PutOutcome::Accepted(None));
    let ack = r.unwrap();
    assert_eq!(ack.version_token, None);
}

#[test]
fn refused_put_is_a_transport_error() {
    let r = settle_put(PutOutcome::Refused("connection reset".to_string()));
    match r {
        Err(UploadError::Transport(cause)) => assert_eq!(cause, "connection reset"),
        _ => panic!("expected a transport error"),
    }
}

#[test]
fn upload_stores_the_key() {
    let mut store = ObjectStore::new();
    let key = "part-0001.parquet".to_string();
    let r = tier_upload(&mut store, &key, ArtifactRead::Readable);
    assert!(r.is_ok());
    assert!(store.contains(&key));
    assert_eq!(store.keys.len(), 1);
}

#[test]
fn upload_twice_overwrites_without_duplicating() {
    // Re-invocation with the same key overwrites rather than duplicating,
    // and both calls return success acknowledgments.
    let mut store = ObjectStore::new();
    let key = "part-0001.parquet".to_string();
    let first = tier_upload(&mut store, &key, ArtifactRead::Readable);
    assert!(first.is_ok());
    let second = tier_upload(&mut store, &key, ArtifactRead::Readable);
    assert!(second.is_ok());
    assert_eq!(store.keys.len(), 1);
}

#[test]
fn unreadable_artifact_is_a_local_read_error() {
    let mut store = ObjectStore::new();
    let key = "part-0001.parquet".to_string();
    let r = tier_upload(
        &mut store,
        &key,
        ArtifactRead::Unreadable("no such file".to_string()),
    );
    match r {
        Err(UploadError::LocalRead(cause)) => assert_eq!(cause, "no such file"),
        _ => panic!("expected a local-read error"),
    }
    assert_eq!(store.keys.len(), 0);
}

#[test]
fn failure_kinds_tell_retryable_apart() {
    let transport = UploadError::Transport("timeout".to_string());
    let local = UploadError::LocalRead("missing".to_string());
    assert_eq!(upload_failure_kind(&transport), FailureKind::Transport);
    assert_eq!(upload_failure_kind(&local), FailureKind::LocalRead);
}
