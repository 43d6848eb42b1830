use pg_tier::credential::Credential;
use pg_tier::errors::{ConfigError, FailureKind, UploadError};
use pg_tier::pipeline::{run_tier_job, JobError};
use pg_tier::provision::{provision_bucket, BucketDirectory};
use pg_tier::registry::{RegistryError, TierRegistry, TierState};
use pg_tier::upload::{artifact_path, ArtifactRead, ObjectStore};

fn job_credential() -> Credential {
    Credential {
        user_name: "tier_user".to_string(),
        bucket: "cold-archive".to_string(),
        access_key: "ak1".to_string(),
        secret_key: "sk1".to_string(),
        region: "us-east-1".to_string(),
        fdw_server_name: "tier_server".to_string(),
        fdw_server_user_created: true,
        created_on: 1,
        updated_on: 1,
    }
}

fn job_registry() -> TierRegistry {
    let mut reg = TierRegistry::new();
    reg.add_source(
        10,
        "public".to_string(),
        "events".to_string(),
        "events_tiered".to_string(),
        1,
    )
    .unwrap();
    reg.create_target(
        100,
        10,
        "events".to_string(),
        "public".to_string(),
        "CREATE TABLE events ()".to_string(),
        "/data/export".to_string(),
        None,
        2,
    )
    .unwrap();
    reg
}

#[test]
fn scenario_provision_then_upload_then_tier() {
    // Credentials (ak1, sk1, "us-east-1"), bucket "cold-archive" absent.
    let cred = job_credential();
    let mut dir = BucketDirectory::new();
    let bucket = "cold-archive".to_string();

    // provision_bucket returns true; the bucket is now present.
    assert_eq!(provision_bucket(&mut dir, &cred, &bucket), Ok(true));
    assert!(dir.contains(&bucket));

    // Re-run with the same arguments: still true, no duplicate-bucket error.
    assert_eq!(provision_bucket(&mut dir, &cred, &bucket), Ok(true));
    assert_eq!(dir.names.len(), 1);

    // Upload "/data/export/part-0001.parquet" with the file present: the
    // job succeeds and the target moves PENDING -> UPLOADING -> TIERED.
    let mut reg = job_registry();
    let mut store = ObjectStore::new();
    let file = "part-0001.parquet".to_string();
    let path = artifact_path(&"/data/export".to_string(), &file);
    assert_eq!(path, "/data/export/part-0001.parquet");
    assert_eq!(reg.target_state(100), Some(TierState::Pending));
    let r = run_tier_job(
        &mut reg,
        &cred,
        &mut dir,
        &mut store,
        100,
        &file,
        ArtifactRead::Readable,
    );
    assert!(r.is_ok());
    assert_eq!(reg.target_state(100), Some(TierState::Tiered));
    assert!(store.contains(&file));
}

#[test]
fn scenario_upload_with_the_file_deleted_fails_locally() {
    // The same call with the artifact deleted first: a LocalRead error, and
    // the target moves PENDING -> UPLOADING -> FAILED with kind LocalRead.
    let cred = job_credential();
    let mut reg = job_registry();
    let mut dir = BucketDirectory::new();
    let mut store = ObjectStore::new();
    let file = "part-0001.parquet".to_string();
    let r = run_tier_job(
        &mut reg,
        &cred,
        &mut dir,
        &mut store,
        100,
        &file,
        ArtifactRead::Unreadable("no such file".to_string()),
    );
    match r {
        Err(JobError::Upload(UploadError::LocalRead(cause))) => {
            assert_eq!(cause, "no such file")
        },
        _ => panic!("expected a local-read job failure"),
    }
    assert_eq!(reg.target_state(100), Some(TierState::Failed));
    assert_eq!(reg.target_failure(100), Some(FailureKind::LocalRead));
    assert!(!store.contains(&file));
}

#[test]
fn job_with_malformed_credentials_aborts_before_storage() {
    let mut cred = job_credential();
    cred.region = String::new();
    let mut reg = job_registry();
    let mut dir = BucketDirectory::new();
    let mut store = ObjectStore::new();
    let file = "part-0001.parquet".to_string();
    let r = run_tier_job(
        &mut reg,
        &cred,
        &mut dir,
        &mut store,
        100,
        &file,
        ArtifactRead::Readable,
    );
    assert!(matches!(r, Err(JobError::Config(ConfigError::Malformed))));
    assert_eq!(reg.target_state(100), Some(TierState::Pending));
    assert_eq!(dir.names.len(), 0);
}

#[test]
fn job_for_an_unknown_target_aborts() {
    let cred = job_credential();
    let mut reg = job_registry();
    let mut dir = BucketDirectory::new();
    let mut store = ObjectStore::new();
    let file = "part-0001.parquet".to_string();
    let r = run_tier_job(
        &mut reg,
        &cred,
        &mut dir,
        &mut store,
        999,
        &file,
        ArtifactRead::Readable,
    );
    assert!(matches!(
        r,
        Err(JobError::Registry(RegistryError::UnknownTarget))
    ));
    assert_eq!(dir.names.len(), 0);
}

#[test]
fn failed_job_can_be_retried_to_success() {
    let cred = job_credential();
    let mut reg = job_registry();
    let mut dir = BucketDirectory::new();
    let mut store = ObjectStore::new();
    let file = "part-0001.parquet".to_string();
    let r = run_tier_job(
        &mut reg,
        &cred,
        &mut dir,
        &mut store,
        100,
        &file,
        ArtifactRead::Unreadable("no such file".to_string()),
    );
    assert!(r.is_err());
    assert_eq!(reg.target_state(100), Some(TierState::Failed));
    reg.retry(100).unwrap();
    let r = run_tier_job(
        &mut reg,
        &cred,
        &mut dir,
        &mut store,
        100,
        &file,
        ArtifactRead::Readable,
    );
    assert!(r.is_ok());
    assert_eq!(reg.target_state(100), Some(TierState::Tiered));
}
