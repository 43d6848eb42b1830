//! One tiering job, end to end: move a target into `Uploading`, guarantee
//! the bucket, upload the artifact, and advance the catalog according to the
//! outcome.
//!
//! The configuration is threaded through as an explicitly passed credential.
//! Provisioning and upload failures are caught at the job boundary and
//! recorded as a `Failed` target transition; only configuration errors and
//! contract violations (an unknown target, an invalid transition) abort the
//! job outright.

use vstd::prelude::*;
use crate::credential::{Credential, credential_valid, validate_credential};
use crate::errors::{ConfigError, FailureKind, UploadAck, UploadError, upload_failure_kind};
use crate::provision::{BucketDirectory, ensure_bucket};
use crate::registry::{
    RegistryError, TierRegistry, lemma_tgt_witness, tgt_failed_with, tiered_at,
};
use crate::upload::{ArtifactRead, ObjectStore, tier_upload};
use crate::listing::upsert;

verus! {

/// Why a tiering job returned without an acknowledgment.
#[derive(Clone, Debug)]
pub enum JobError {
    /// The credential configuration is unusable; fatal, never retried.
    Config(ConfigError),
    /// The catalog refused the transition (unknown target, invalid state,
    /// dropped source); the job aborts without touching storage.
    Registry(RegistryError),
    /// The upload failed; the target was moved to `Failed` with the error
    /// kind recorded.
    Upload(UploadError),
}

/// Runs one tiering job for the target named `target_identity`: persists
/// `Uploading` first, then guarantees the credential's bucket, then uploads
/// the artifact named `file_name` under that key. A successful upload
/// acknowledgment advances the target to `Tiered`; an upload failure is
/// recorded on the target as `Failed` with its kind. A malformed credential
/// or a refused transition aborts the job before any storage call.
pub fn run_tier_job(
    reg: &mut TierRegistry,
    cred: &Credential,
    dir: &mut BucketDirectory,
    store: &mut ObjectStore,
    target_identity: u64,
    file_name: &String,
    read: ArtifactRead,
) -> (r: Result<UploadAck, JobError>)
    requires
        old(reg).wf(),
    ensures
        final(reg).wf(),
        r is Ok <==> credential_valid(cred) && old(reg).startable(target_identity)
            && read is Readable,
        !credential_valid(cred) ==> r == Err::<UploadAck, JobError>(
            JobError::Config(ConfigError::Malformed),
        ) && *final(reg) == *old(reg) && *final(dir) == *old(dir) && *final(store) == *old(store),
        credential_valid(cred) && !old(reg).startable(target_identity) ==> (r matches Err(
            JobError::Registry(_),
        )) && *final(reg) == *old(reg) && *final(dir) == *old(dir) && *final(store) == *old(store),
        credential_valid(cred) && old(reg).startable(target_identity) ==> final(dir).names@
            == upsert(old(dir).names@, cred.bucket),
        credential_valid(cred) && old(reg).startable(target_identity) && read is Readable ==>
            tiered_at(final(reg).targets@, target_identity) && final(store).keys@ == upsert(
            old(store).keys@,
            *file_name,
        ),
        credential_valid(cred) && old(reg).startable(target_identity) && read is Unreadable ==> r
            == Err::<UploadAck, JobError>(
            JobError::Upload(UploadError::LocalRead(read->Unreadable_0)),
        ) && tgt_failed_with(final(reg).targets@, target_identity, FailureKind::LocalRead)
            && *final(store) == *old(store),
{
    if !validate_credential(cred) {
        return Err(JobError::Config(ConfigError::Malformed));
    }
    match reg.begin_upload(target_identity) {
        Ok(()) => (),
        Err(e) => {
            return Err(JobError::Registry(e));
        },
    }
    proof {
        let i = choose|i: int|
            0 <= i < old(reg).targets@.len() && (#[trigger] old(reg).targets@[i].identity)
                == target_identity && (old(reg).targets@[i].tier_state is Pending || old(
                reg,
            ).targets@[i].tier_state is Failed) && !crate::registry::src_dropped(
                old(reg).sources@,
                old(reg).targets@[i].source_identity,
            );
        assert(reg.targets@[i].identity == target_identity && reg.targets@[
            i
        ].tier_state is Uploading);
        lemma_tgt_witness(reg.targets@, i);
    }
    let status = match ensure_bucket(dir, &cred.bucket, &cred.region) {
        Ok(s) => s,
        Err(e) => {
            proof {
                assert(false);
            }
            return Err(JobError::Registry(RegistryError::InvalidTransition));
        },
    };
    match tier_upload(store, file_name, read) {
        Ok(ack) => {
            match reg.acknowledge_tiered(target_identity, status, &ack) {
                Ok(()) => Ok(ack),
                Err(_) => {
                    proof {
                        assert(false);
                    }
                    Err(JobError::Registry(RegistryError::InvalidTransition))
                },
            }
        },
        Err(e) => {
            let kind = upload_failure_kind(&e);
            match reg.record_failed(target_identity, kind) {
                Ok(()) => {
                    proof {
                        let i = choose|i: int|
                            0 <= i < old(reg).targets@.len() && (#[trigger] old(
                                reg,
                            ).targets@[i].identity) == target_identity && (old(
                                reg,
                            ).targets@[i].tier_state is Pending || old(
                                reg,
                            ).targets@[i].tier_state is Failed) && !crate::registry::src_dropped(
                                old(reg).sources@,
                                old(reg).targets@[i].source_identity,
                            );
                        assert(reg.targets@[i].identity == target_identity && reg.targets@[
                            i
                        ].tier_state is Failed && reg.targets@[i].failure == Some(kind));
                        assert(tgt_failed_with(
                            reg.targets@,
                            target_identity,
                            FailureKind::LocalRead,
                        ));
                    }
                    Err(JobError::Upload(e))
                },
                Err(_) => {
                    proof {
                        assert(false);
                    }
                    Err(JobError::Registry(RegistryError::InvalidTransition))
                },
            }
        },
    }
}

} // verus!
