//! Idempotent bucket provisioning: the decision logic that turns a bucket
//! listing and a create-bucket outcome into a provisioning result, and a
//! directory model of the buckets visible under the caller's credentials.
//!
//! The algorithm is list-then-create: if the listing shows the name, the
//! bucket is reported `AlreadyPresent` without further calls; otherwise a
//! create call is issued, and a provider answer that the bucket is already
//! owned by the caller is folded into `AlreadyPresent` rather than surfaced
//! as an error, so the operation tolerates races and prior partial runs.

use vstd::prelude::*;
use vstd::string::StringExecFns;
use crate::credential::{Credential, credential_valid};
use crate::errors::{BucketStatus, ConfigError, StorageError};
use crate::listing::{contains_name, lemma_count_listed, lemma_upsert, listed, name_count, upsert};

verus! {

/// The provider's home region token. A create call for a bucket in the home
/// region must not carry a location constraint; the provider rejects an
/// explicit one.
pub open spec fn home_region() -> Seq<char> {
    "us-east-1"@
}

/// The answer a create-bucket call came back with, as the storage provider
/// reported it.
#[derive(Clone, Debug)]
pub enum CreateBucketOutcome {
    /// The bucket was created.
    Created,
    /// The bucket already exists and is owned by the caller.
    AlreadyOwned,
    /// The provider refused the call (authorization, network, or a name
    /// owned by someone else), with its description of the cause.
    Rejected(String),
}

/// The location constraint a create-bucket call must carry: none for the
/// home region, the region token itself otherwise.
pub fn location_constraint(region: &String) -> (c: Option<String>)
    ensures
        match c {
            Some(s) => region@ != home_region() && s@ == region@,
            None => region@ == home_region(),
        },
{
    let home = String::from_str("us-east-1");
    if *region == home {
        None
    } else {
        Some(region.clone())
    }
}

/// Folds a create-bucket answer into the provisioning result: creation and
/// already-owned both count as success, the latter as `AlreadyPresent`;
/// everything else surfaces as a provisioning error with its cause.
pub fn settle_create(o: CreateBucketOutcome) -> (r: Result<BucketStatus, StorageError>)
    ensures
        o is Created ==> r == Ok::<BucketStatus, StorageError>(BucketStatus::Created),
        o is AlreadyOwned ==> r == Ok::<BucketStatus, StorageError>(BucketStatus::AlreadyPresent),
        o is Rejected ==> r == Err::<BucketStatus, StorageError>(
            StorageError::Provision(o->Rejected_0),
        ),
        r is Ok <==> !(o is Rejected),
{
    match o {
        CreateBucketOutcome::Created => Ok(BucketStatus::Created),
        CreateBucketOutcome::AlreadyOwned => Ok(BucketStatus::AlreadyPresent),
        CreateBucketOutcome::Rejected(cause) => Err(StorageError::Provision(cause)),
    }
}

/// The buckets visible under the caller's credentials: the directory that a
/// bucket listing reports, against which provisioning decisions are made.
pub struct BucketDirectory {
    pub names: Vec<String>,
}

impl BucketDirectory {
    /// An empty directory: no bucket exists yet.
    pub fn new() -> (d: Self)
        ensures
            d.names@ == Seq::<String>::empty(),
    {
        BucketDirectory { names: Vec::new() }
    }

    /// Whether the listing shows this bucket name.
    pub fn contains(&self, name: &String) -> (b: bool)
        ensures
            b == listed(self.names@, name@),
    {
        contains_name(&self.names, name)
    }

    /// A create-bucket call against the directory: a name already listed
    /// answers `AlreadyOwned` and changes nothing, a new name is added and
    /// answers `Created`.
    pub fn create(&mut self, name: &String) -> (o: CreateBucketOutcome)
        ensures
            listed(old(self).names@, name@) ==> o is AlreadyOwned && *final(self) == *old(self),
            !listed(old(self).names@, name@) ==> o is Created && final(self).names@ == old(
                self,
            ).names@.push(*name),
            final(self).names@ == upsert(old(self).names@, *name),
    {
        if contains_name(&self.names, name) {
            CreateBucketOutcome::AlreadyOwned
        } else {
            self.names.push(name.clone());
            CreateBucketOutcome::Created
        }
    }
}

/// Guarantees that the bucket exists exactly once: reports `AlreadyPresent`
/// without further calls when the listing shows the name, otherwise issues
/// the create call and folds its answer. Safe to invoke repeatedly for the
/// same name: it never errors on a bucket that already exists and never adds
/// a second entry for it.
pub fn ensure_bucket(dir: &mut BucketDirectory, name: &String, region: &String) -> (r: Result<
    BucketStatus,
    StorageError,
>)
    ensures
        final(dir).names@ == upsert(old(dir).names@, *name),
        listed(old(dir).names@, name@) ==> r == Ok::<BucketStatus, StorageError>(
            BucketStatus::AlreadyPresent,
        ),
        !listed(old(dir).names@, name@) ==> r == Ok::<BucketStatus, StorageError>(
            BucketStatus::Created,
        ),
        r is Ok,
        listed(final(dir).names@, name@),
{
    proof {
        lemma_upsert(old(dir).names@, *name);
    }
    if dir.contains(name) {
        return Ok(BucketStatus::AlreadyPresent);
    }
    let _constraint = location_constraint(region);
    let o = dir.create(name);
    settle_create(o)
}

/// Ensures the bucket named `name` exists under the given credentials.
/// Returns `true` on success, a pre-existing bucket included; a malformed
/// credential is rejected outright, before any storage call, and leaves the
/// directory untouched.
pub fn provision_bucket(dir: &mut BucketDirectory, cred: &Credential, name: &String) -> (r: Result<
    bool,
    ConfigError,
>)
    ensures
        r is Ok <==> credential_valid(cred),
        !credential_valid(cred) ==> r == Err::<bool, ConfigError>(ConfigError::Malformed)
            && *final(dir) == *old(dir),
        credential_valid(cred) ==> r == Ok::<bool, ConfigError>(true) && final(dir).names@
            == upsert(old(dir).names@, *name),
{
    if !crate::credential::validate_credential(cred) {
        return Err(ConfigError::Malformed);
    }
    match ensure_bucket(dir, name, &cred.region) {
        Ok(_) => Ok(true),
        Err(_) => {
            proof {
                assert(false);
            }
            Ok(true)
        },
    }
}

/// Provisioning is idempotent: a second run for the same name leaves the
/// directory exactly as the first run left it, reports `AlreadyPresent`
/// rather than an error, and a bucket absent at the start occurs exactly
/// once afterwards, however many runs follow.
pub proof fn lemma_provision_idempotent(names: Seq<String>, name: String)
    ensures
        upsert(upsert(names, name), name) == upsert(names, name),
        listed(upsert(names, name), name@),
        !listed(names, name@) ==> name_count(upsert(names, name), name@) == 1,
        listed(names, name@) ==> name_count(upsert(names, name), name@) == name_count(
            names,
            name@,
        ),
{
    lemma_upsert(names, name);
    lemma_count_listed(names, name@);
}

} // verus!
