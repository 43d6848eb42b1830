use pg_tier::credential::{check_region, validate_credential, Credential, CredentialStore};
use pg_tier::errors::ConfigError;

fn sample_credential() -> Credential {
    Credential {
        user_name: "tier_user".to_string(),
        bucket: "cold-archive".to_string(),
        access_key: "ak1".to_string(),
        secret_key: "sk1".to_string(),
        region: "us-east-1".to_string(),
        fdw_server_name: "tier_server".to_string(),
        fdw_server_user_created: true,
        created_on: 1,
        updated_on: 1,
    }
}

#[test]
fn get_before_configuration_is_not_configured() {
    let store = CredentialStore::new();
    assert!(!store.is_configured());
    assert!(matches!(store.get(), Err(ConfigError::NotConfigured)));
}

#[test]
fn first_set_configures_the_store() {
    let mut store = CredentialStore::new();
    assert!(store.set(sample_credential(), false).is_ok());
    assert!(store.is_configured());
    let c = store.get().unwrap();
    assert_eq!(c.access_key, "ak1");
    assert_eq!(c.region, "us-east-1");
}

#[test]
fn second_set_without_rotation_is_rejected() {
    let mut store = CredentialStore::new();
    assert!(store.set(sample_credential(), false).is_ok());
    let mut second = sample_credential();
    second.access_key = "ak2".to_string();
    let r = store.set(second, false);
    assert_eq!(r, Err(ConfigError::MultipleConfigured));
    // The first credential is untouched: still exactly one row.
    assert_eq!(store.get().unwrap().access_key, "ak1");
}

#[test]
fn rotation_replaces_in_place() {
    let mut store = CredentialStore::new();
    assert!(store.set(sample_credential(), false).is_ok());
    let mut rotated = sample_credential();
    rotated.access_key = "ak2".to_string();
    assert!(store.set(rotated, true).is_ok());
    assert!(store.is_configured());
    assert_eq!(store.get().unwrap().access_key, "ak2");
}

#[test]
fn empty_field_is_malformed() {
    let mut store = CredentialStore::new();
    let mut bad = sample_credential();
    bad.secret_key = String::new();
    assert_eq!(store.set(bad, false), Err(ConfigError::Malformed));
    assert!(!store.is_configured());
}

#[test]
fn invalid_region_is_malformed() {
    let mut store = CredentialStore::new();
    let mut bad = sample_credential();
    bad.region = "US East".to_string();
    assert_eq!(store.set(bad, false), Err(ConfigError::Malformed));
    assert!(!store.is_configured());
}

#[test]
fn region_syntax() {
    assert!(check_region("us-east-1"));
    assert!(check_region("eu-central-2"));
    assert!(!check_region(""));
    assert!(!check_region("US-EAST-1"));
    assert!(!check_region("us_east_1"));
}

#[test]
fn credential_validation_checks_every_field() {
    assert!(validate_credential(&sample_credential()));
    let mut c = sample_credential();
    c.user_name = String::new();
    assert!(!validate_credential(&c));
}
