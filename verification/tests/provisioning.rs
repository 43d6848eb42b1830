use pg_tier::errors::{BucketStatus, ConfigError, StorageError};
use pg_tier::provision::{
    ensure_bucket, location_constraint, provision_bucket, settle_create, BucketDirectory,
    CreateBucketOutcome,
};
use pg_tier::credential::Credential;

fn provisioning_credential() -> Credential {
    Credential {
        user_name: "tier_user".to_string(),
        bucket: "cold-archive".to_string(),
        access_key: "ak1".to_string(),
        secret_key: "sk1".to_string(),
        region: "us-east-1".to_string(),
        fdw_server_name: "tier_server".to_string(),
        fdw_server_user_created: true,
        created_on: 1,
        updated_on: 1,
    }
}

#[test]
fn ensure_creates_an_absent_bucket() {
    let mut dir = BucketDirectory::new();
    let name = "cold-archive".to_string();
    let region = "us-east-1".to_string();
    let r = ensure_bucket(&mut dir, &name, &region);
    assert_eq!(r.unwrap(), BucketStatus::Created);
    assert!(dir.contains(&name));
    assert_eq!(dir.names.len(), 1);
}

#[test]
fn ensure_twice_is_idempotent() {
    // Provisioning twice with identical arguments never errors on the
    // second call, and exactly one bucket exists afterwards.
    let mut dir = BucketDirectory::new();
    let name = "cold-archive".to_string();
    let region = "us-east-1".to_string();
    let first = ensure_bucket(&mut dir, &name, &region);
    assert_eq!(first.unwrap(), BucketStatus::Created);
    let second = ensure_bucket(&mut dir, &name, &region);
    assert_eq!(second.unwrap(), BucketStatus::AlreadyPresent);
    assert_eq!(dir.names.len(), 1);
    let third = ensure_bucket(&mut dir, &name, &region);
    assert_eq!(third.unwrap(), BucketStatus::AlreadyPresent);
    assert_eq!(dir.names.len(), 1);
}

#[test]
fn ensure_tolerates_a_concurrent_creation() {
    // A create answered with already-owned is folded into AlreadyPresent.
    let mut dir = BucketDirectory::new();
    let name = "cold-archive".to_string();
    let first = dir.create(&name);
    assert!(matches!(first, CreateBucketOutcome::Created));
    let racing = dir.create(&name);
    assert!(matches!(racing, CreateBucketOutcome::AlreadyOwned));
    assert_eq!(dir.names.len(), 1);
    let settled = settle_create(racing);
    assert_eq!(settled.unwrap(), BucketStatus::AlreadyPresent);
}

#[test]
fn rejected_creation_surfaces_the_cause() {
    let rejected = CreateBucketOutcome::Rejected("access denied".to_string());
    let r = settle_create(rejected);
    match r {
        Err(StorageError::Provision(cause)) => assert_eq!(cause, "access denied"),
        _ => panic!("expected a provisioning error"),
    }
}

#[test]
fn home_region_sends_no_location_constraint() {
    let home = "us-east-1".to_string();
    assert_eq!(location_constraint(&home), None);
    let other = "eu-central-2".to_string();
    assert_eq!(location_constraint(&other), Some("eu-central-2".to_string()));
}

#[test]
fn provision_bucket_succeeds_and_repeats() {
    let mut dir = BucketDirectory::new();
    let cred = provisioning_credential();
    let name = "cold-archive".to_string();
    assert_eq!(provision_bucket(&mut dir, &cred, &name), Ok(true));
    assert_eq!(provision_bucket(&mut dir, &cred, &name), Ok(true));
    assert_eq!(dir.names.len(), 1);
}

#[test]
fn provision_bucket_rejects_malformed_credentials() {
    let mut dir = BucketDirectory::new();
    let mut cred = provisioning_credential();
    cred.access_key = String::new();
    let name = "cold-archive".to_string();
    assert_eq!(
        provision_bucket(&mut dir, &cred, &name),
        Err(ConfigError::Malformed)
    );
    assert_eq!(dir.names.len(), 0);
}
