//! Error taxonomy and outcome types shared by the provisioning, upload and
//! registry components.

use vstd::prelude::*;

verus! {

/// Failure of the credential configuration itself. Configuration errors are
/// fatal to a tiering job and are never retried.
#[derive(Clone, Copy, Debug, PartialEq, Eq, Structural)]
pub enum ConfigError {
    /// No credential row has been configured yet.
    NotConfigured,
    /// A credential row already exists and the caller did not ask for a
    /// rotation; the singleton must not be duplicated.
    MultipleConfigured,
    /// A field of the offered credential is empty or the region token is not
    /// syntactically valid.
    Malformed,
}

/// Failure while provisioning a bucket: listing or creation failed for a
/// reason other than the bucket already being owned by the caller.
#[derive(Clone, Debug)]
pub enum StorageError {
    Provision(String),
}

/// Failure while uploading an artifact. The two variants are kept apart so a
/// caller can decide whether a retry is useful: transport failures are
/// retryable, local-read failures are not.
#[derive(Clone, Debug)]
pub enum UploadError {
    /// The artifact could not be read from the local filesystem.
    LocalRead(String),
    /// The storage provider rejected the transfer (network, auth, quota).
    Transport(String),
}

/// Outcome of a successful bucket provisioning call.
#[derive(Clone, Copy, Debug, PartialEq, Eq, Structural)]
pub enum BucketStatus {
    /// The bucket already existed under the caller's credentials.
    AlreadyPresent,
    /// The bucket was created by this call.
    Created,
}

/// Acknowledgment of a successful upload. The provider may issue a version or
/// integrity token; its absence is not a failure.
#[derive(Clone, Debug)]
pub struct UploadAck {
    pub version_token: Option<String>,
}

/// The error kind recorded on a target row that entered the failed state, for
/// operator visibility.
#[derive(Clone, Copy, Debug, PartialEq, Eq, Structural)]
pub enum FailureKind {
    Provision,
    Transport,
    LocalRead,
}

/// The failure kind that a registry records for an upload error: local-read
/// failures and transport failures are kept apart.
pub fn upload_failure_kind(e: &UploadError) -> (k: FailureKind)
    ensures
        k == FailureKind::LocalRead <==> e is LocalRead,
        k == FailureKind::Transport <==> e is Transport,
{
    match e {
        UploadError::LocalRead(_) => FailureKind::LocalRead,
        UploadError::Transport(_) => FailureKind::Transport,
    }
}

} // verus!
