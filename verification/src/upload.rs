//! Artifact upload semantics: the decision logic that turns a local-read
//! probe and a put-object answer into an upload result, and a key-set model
//! of the object store.
//!
//! A local-read failure is kept apart from a transport failure so the state
//! machine can decide whether a retry is useful. Uploading is idempotent at
//! the object-key level: re-uploading the same key overwrites rather than
//! duplicating the object.

use vstd::prelude::*;
use vstd::string::StringExecFns;
use crate::errors::{UploadAck, UploadError};
use crate::listing::{contains_name, lemma_count_listed, lemma_upsert, listed, name_count, upsert};

verus! {

/// The local artifact path: directory, a separator, and the file name.
pub open spec fn joined_path(dir: Seq<char>, file: Seq<char>) -> Seq<char> {
    dir + "/"@ + file
}

/// Joins an artifact directory and a file name into the local path of the
/// artifact.
pub fn artifact_path(dir: &String, file: &String) -> (p: String)
    ensures
        p@ == joined_path(dir@, file@),
{
    let mut p = dir.clone();
    p.append("/");
    p.append(file.as_str());
    p
}

/// Whether the artifact could be read from the local filesystem at call
/// time.
#[derive(Clone, Debug)]
pub enum ArtifactRead {
    /// The artifact is present and readable.
    Readable,
    /// The artifact is missing or inaccessible, with the reader's
    /// description of the cause.
    Unreadable(String),
}

/// The answer a put-object call came back with.
#[derive(Clone, Debug)]
pub enum PutOutcome {
    /// The provider accepted the object, with a version or integrity token
    /// when it issued one.
    Accepted(Option<String>),
    /// The provider refused the transfer (network, auth, quota), with its
    /// description of the cause.
    Refused(String),
}

/// Turns a put-object answer into the upload result. An accepted put is a
/// success whether or not the provider issued a token; a refused one is a
/// transport error with its cause.
pub fn settle_put(o: PutOutcome) -> (r: Result<UploadAck, UploadError>)
    ensures
        o is Accepted ==> r == Ok::<UploadAck, UploadError>(
            UploadAck { version_token: o->Accepted_0 },
        ),
        o is Refused ==> r == Err::<UploadAck, UploadError>(
            UploadError::Transport(o->Refused_0),
        ),
        r is Ok <==> o is Accepted,
{
    match o {
        PutOutcome::Accepted(token) => Ok(UploadAck { version_token: token }),
        PutOutcome::Refused(cause) => Err(UploadError::Transport(cause)),
    }
}

/// The keys present in a bucket, as the object store holds them. Contents
/// are not modeled: a put for a key already present overwrites the object
/// and leaves the key set unchanged.
pub struct ObjectStore {
    pub keys: Vec<String>,
}

impl ObjectStore {
    /// An empty bucket: no object stored yet.
    pub fn new() -> (s: Self)
        ensures
            s.keys@ == Seq::<String>::empty(),
    {
        ObjectStore { keys: Vec::new() }
    }

    /// Whether an object with this key is stored.
    pub fn contains(&self, key: &String) -> (b: bool)
        ensures
            b == listed(self.keys@, key@),
    {
        contains_name(&self.keys, key)
    }

    /// A put-object call against the store: a key already present is
    /// overwritten, a new key is added; either way the put is accepted. The
    /// model issues no version token, and its absence is not a failure.
    pub fn put(&mut self, key: &String) -> (a: UploadAck)
        ensures
            final(self).keys@ == upsert(old(self).keys@, *key),
            a == (UploadAck { version_token: None::<String> }),
    {
        if !self.contains(key) {
            self.keys.push(key.clone());
        }
        UploadAck { version_token: None }
    }
}

/// Uploads the artifact named `file_name` as object key `file_name` into
/// the store, after the local-read probe. An unreadable artifact is a
/// `LocalRead` error, distinct from any transport failure, and stores
/// nothing; a readable one is stored under its key and acknowledged.
pub fn tier_upload(store: &mut ObjectStore, file_name: &String, read: ArtifactRead) -> (r: Result<
    UploadAck,
    UploadError,
>)
    ensures
        r is Ok <==> read is Readable,
        read is Unreadable ==> r == Err::<UploadAck, UploadError>(
            UploadError::LocalRead(read->Unreadable_0),
        ) && *final(store) == *old(store),
        read is Readable ==> final(store).keys@ == upsert(old(store).keys@, *file_name)
            && listed(final(store).keys@, file_name@),
{
    match read {
        ArtifactRead::Unreadable(cause) => Err(UploadError::LocalRead(cause)),
        ArtifactRead::Readable => {
            proof {
                lemma_upsert(old(store).keys@, *file_name);
            }
            let ack = store.put(file_name);
            Ok(ack)
        },
    }
}

/// Uploading the same key twice overwrites rather than duplicates: the
/// second upload leaves the store exactly as the first left it, and a key
/// absent at the start is stored exactly once afterwards, however many
/// uploads of it follow.
pub proof fn lemma_upload_overwrites(keys: Seq<String>, key: String)
    ensures
        upsert(upsert(keys, key), key) == upsert(keys, key),
        listed(upsert(keys, key), key@),
        !listed(keys, key@) ==> name_count(upsert(keys, key), key@) == 1,
        listed(keys, key@) ==> name_count(upsert(keys, key), key@) == name_count(keys, key@),
{
    lemma_upsert(keys, key);
    lemma_count_listed(keys, key@);
}

} // verus!
