//! The persisted source/target catalog and its lifecycle state machine.
//!
//! A source row registers a relation as a tiering participant; a target row
//! records one tiered artifact derived from a source. Target rows move
//! through `PENDING -> UPLOADING -> TIERED`, may fall to `FAILED` from
//! `UPLOADING`, and `FAILED -> PENDING` is the only retry edge. A target can
//! only enter `TIERED` through [`TierRegistry::acknowledge_tiered`], whose
//! arguments carry both a successful provisioning status and an upload
//! acknowledgment: no other transition introduces a `TIERED` row.

use vstd::prelude::*;
use crate::errors::{BucketStatus, FailureKind, UploadAck};

verus! {

/// Lifecycle state of a source relation.
#[derive(Clone, Copy, Debug, PartialEq, Eq, Structural)]
pub enum SourceState {
    Untiered,
    Enabled,
    Disabled,
}

/// Lifecycle state of a tiered artifact.
#[derive(Clone, Copy, Debug, PartialEq, Eq, Structural)]
pub enum TierState {
    Pending,
    Uploading,
    Tiered,
    Failed,
}

/// Rejection of a registry operation. These signal contract violations or
/// invalid transitions; they never mutate the catalog.
#[derive(Clone, Copy, Debug, PartialEq, Eq, Structural)]
pub enum RegistryError {
    /// The named source row does not exist.
    UnknownSource,
    /// The named target row does not exist.
    UnknownTarget,
    /// A row with this identity already exists.
    DuplicateIdentity,
    /// The source row is dropped, which is terminal and forbids further
    /// tiering.
    SourceDropped,
    /// The target row is not in a state from which the requested transition
    /// is allowed.
    InvalidTransition,
}

/// One relation registered as a tiering participant.
#[derive(Debug)]
pub struct Source {
    pub identity: u64,
    pub namespace: String,
    pub original_name: String,
    pub renamed_name: String,
    pub state: SourceState,
    pub enabled: bool,
    pub dropped: bool,
    pub created_on: u64,
}

/// One tiered artifact derived from a source at a point in time.
#[derive(Debug)]
pub struct Target {
    pub identity: u64,
    pub relname: String,
    pub namespace: String,
    pub source_identity: u64,
    pub tier_state: TierState,
    pub ddl_snapshot: String,
    pub tier_directory: String,
    pub partition_bound: Option<String>,
    /// The error kind recorded when the artifact last entered `Failed`.
    pub failure: Option<FailureKind>,
    pub created_on: u64,
}

/// Source identities are pairwise distinct.
pub open spec fn src_unique(ss: Seq<Source>) -> bool {
    forall|i: int, j: int|
        0 <= i < j < ss.len() ==> (#[trigger] ss[i].identity) != (#[trigger] ss[j].identity)
}

/// Target identities are pairwise distinct.
pub open spec fn tgt_unique(ts: Seq<Target>) -> bool {
    forall|i: int, j: int|
        0 <= i < j < ts.len() ==> (#[trigger] ts[i].identity) != (#[trigger] ts[j].identity)
}

/// A source row with this identity exists.
pub open spec fn src_has(ss: Seq<Source>, id: u64) -> bool {
    exists|i: int| 0 <= i < ss.len() && (#[trigger] ss[i].identity) == id
}

/// A source row with this identity exists and is dropped.
pub open spec fn src_dropped(ss: Seq<Source>, id: u64) -> bool {
    exists|i: int| 0 <= i < ss.len() && (#[trigger] ss[i].identity) == id && ss[i].dropped
}

/// A target row with this identity exists.
pub open spec fn tgt_has(ts: Seq<Target>, id: u64) -> bool {
    exists|i: int| 0 <= i < ts.len() && (#[trigger] ts[i].identity) == id
}

/// A state in which an artifact's tiering is still in flight.
pub open spec fn live(s: TierState) -> bool {
    s is Pending || s is Uploading
}

/// A target row with this identity exists and has reached `Tiered`.
pub open spec fn tiered_at(ts: Seq<Target>, id: u64) -> bool {
    exists|i: int|
        0 <= i < ts.len() && (#[trigger] ts[i].identity) == id && ts[i].tier_state is Tiered
}

/// Some target of this source has reached `Tiered`.
pub open spec fn source_has_tiered(ts: Seq<Target>, sid: u64) -> bool {
    exists|i: int|
        0 <= i < ts.len() && (#[trigger] ts[i].source_identity) == sid
            && ts[i].tier_state is Tiered
}

/// A target row with this identity exists, is `Failed`, and carries this
/// recorded failure kind.
pub open spec fn tgt_failed_with(ts: Seq<Target>, id: u64, k: FailureKind) -> bool {
    exists|i: int|
        0 <= i < ts.len() && (#[trigger] ts[i].identity) == id && ts[i].tier_state is Failed
            && ts[i].failure == Some(k)
}

/// No target is observed `Tiered` after the step unless it already was
/// before: the no-forged-success property. Every registry transition except
/// the acknowledgment itself guarantees this.
pub open spec fn no_new_tiered(pre: Seq<Target>, post: Seq<Target>) -> bool {
    forall|id: u64| #[trigger] tiered_at(post, id) ==> tiered_at(pre, id)
}

/// The persisted catalog of sources and targets.
pub struct TierRegistry {
    pub sources: Vec<Source>,
    pub targets: Vec<Target>,
}

impl TierRegistry {
    /// Catalog well-formedness: identities are unique, every target
    /// references an existing source, and no target of a dropped source is
    /// still in flight.
    pub open spec fn wf(&self) -> bool {
        &&& src_unique(self.sources@)
        &&& tgt_unique(self.targets@)
        &&& forall|i: int|
            0 <= i < self.targets@.len() ==> src_has(
                self.sources@,
                (#[trigger] self.targets@[i]).source_identity,
            )
        &&& forall|i: int|
            0 <= i < self.targets@.len() ==> !(src_dropped(
                self.sources@,
                (#[trigger] self.targets@[i]).source_identity,
            ) && live(self.targets@[i].tier_state))
    }

    /// A target may enter `Uploading`: it exists, is `Pending` or `Failed`,
    /// and its source is not dropped.
    pub open spec fn startable(&self, id: u64) -> bool {
        exists|i: int|
            0 <= i < self.targets@.len() && (#[trigger] self.targets@[i].identity) == id && (
            self.targets@[i].tier_state is Pending || self.targets@[i].tier_state is Failed)
                && !src_dropped(self.sources@, self.targets@[i].source_identity)
    }

    /// An empty catalog.
    pub fn new() -> (r: Self)
        ensures
            r.wf(),
            r.sources@ == Seq::<Source>::empty(),
            r.targets@ == Seq::<Target>::empty(),
    {
        TierRegistry { sources: Vec::new(), targets: Vec::new() }
    }

    /// The index of the source row with this identity, if any.
    fn find_source(&self, id: u64) -> (r: Option<usize>)
        ensures
            match r {
                Some(i) => i < self.sources@.len() && self.sources@[i as int].identity == id,
                None => !src_has(self.sources@, id),
            },
    {
        let mut i: usize = 0;
        while i < self.sources.len()
            invariant
                i <= self.sources@.len(),
                forall|j: int| 0 <= j < i ==> (#[trigger] self.sources@[j].identity) != id,
            decreases self.sources@.len() - i,
        {
            if self.sources[i].identity == id {
                return Some(i);
            }
            i += 1;
        }
        None
    }

    /// The index of the target row with this identity, if any.
    fn find_target(&self, id: u64) -> (r: Option<usize>)
        ensures
            match r {
                Some(i) => i < self.targets@.len() && self.targets@[i as int].identity == id,
                None => !tgt_has(self.targets@, id),
            },
    {
        let mut i: usize = 0;
        while i < self.targets.len()
            invariant
                i <= self.targets@.len(),
                forall|j: int| 0 <= j < i ==> (#[trigger] self.targets@[j].identity) != id,
            decreases self.targets@.len() - i,
        {
            if self.targets[i].identity == id {
                return Some(i);
            }
            i += 1;
        }
        None
    }

    /// Registers a relation as a tiering participant. The new row starts
    /// `Untiered`, not enabled and not dropped. Fails if the identity is
    /// already taken and leaves the catalog unchanged in that case.
    pub fn add_source(
        &mut self,
        identity: u64,
        namespace: String,
        original_name: String,
        renamed_name: String,
        now: u64,
    ) -> (r: Result<(), RegistryError>)
        requires
            old(self).wf(),
        ensures
            final(self).wf(),
            r is Ok <==> !src_has(old(self).sources@, identity),
            r is Err ==> r == Err::<(), RegistryError>(RegistryError::DuplicateIdentity)
                && *final(self) == *old(self),
            r is Ok ==> final(self).sources@ == old(self).sources@.push(
                (Source {
                    identity,
                    namespace,
                    original_name,
                    renamed_name,
                    state: SourceState::Untiered,
                    enabled: false,
                    dropped: false,
                    created_on: now,
                }),
            ) && final(self).targets@ == old(self).targets@,
            no_new_tiered(old(self).targets@, final(self).targets@),
    {
        if self.find_source(identity).is_some() {
            return Err(RegistryError::DuplicateIdentity);
        }
        let s = Source {
            identity,
            namespace,
            original_name,
            renamed_name,
            state: SourceState::Untiered,
            enabled: false,
            dropped: false,
            created_on: now,
        };
        proof {
            lemma_src_push(self.sources@, s);
        }
        self.sources.push(s);
        Ok(())
    }
}

impl TierRegistry {
    /// Records a new artifact row for a source, in state `Pending`. Fails
    /// with `UnknownSource` if the source does not exist, with
    /// `SourceDropped` if the source is dropped (dropped sources reject all
    /// new targets), and with `DuplicateIdentity` if the target identity is
    /// taken. Errors leave the catalog unchanged.
    pub fn create_target(
        &mut self,
        identity: u64,
        source_identity: u64,
        relname: String,
        namespace: String,
        ddl_snapshot: String,
        tier_directory: String,
        partition_bound: Option<String>,
        now: u64,
    ) -> (r: Result<(), RegistryError>)
        requires
            old(self).wf(),
        ensures
            final(self).wf(),
            r == Err::<(), RegistryError>(RegistryError::UnknownSource) <==> !src_has(
                old(self).sources@,
                source_identity,
            ),
            r == Err::<(), RegistryError>(RegistryError::SourceDropped) <==> src_dropped(
                old(self).sources@,
                source_identity,
            ),
            r == Err::<(), RegistryError>(RegistryError::DuplicateIdentity) <==> src_has(
                old(self).sources@,
                source_identity,
            ) && !src_dropped(old(self).sources@, source_identity) && tgt_has(
                old(self).targets@,
                identity,
            ),
            r is Ok <==> src_has(old(self).sources@, source_identity) && !src_dropped(
                old(self).sources@,
                source_identity,
            ) && !tgt_has(old(self).targets@, identity),
            r is Err ==> *final(self) == *old(self),
            r is Ok ==> final(self).sources@ == old(self).sources@ && final(self).targets@ == old(
                self,
            ).targets@.push(
                (Target {
                    identity,
                    relname,
                    namespace,
                    source_identity,
                    tier_state: TierState::Pending,
                    ddl_snapshot,
                    tier_directory,
                    partition_bound,
                    failure: None,
                    created_on: now,
                }),
            ),
            no_new_tiered(old(self).targets@, final(self).targets@),
    {
        let si = match self.find_source(source_identity) {
            Some(si) => si,
            None => {
                return Err(RegistryError::UnknownSource);
            },
        };
        proof {
            lemma_src_witness(self.sources@, si as int);
        }
        if self.sources[si].dropped {
            return Err(RegistryError::SourceDropped);
        }
        if self.find_target(identity).is_some() {
            return Err(RegistryError::DuplicateIdentity);
        }
        let t = Target {
            identity,
            relname,
            namespace,
            source_identity,
            tier_state: TierState::Pending,
            ddl_snapshot,
            tier_directory,
            partition_bound,
            failure: None,
            created_on: now,
        };
        proof {
            lemma_tgt_push(self.targets@, t);
        }
        self.targets.push(t);
        Ok(())
    }

    /// Moves a target into `Uploading`, which is only valid from `Pending`
    /// or `Failed` and only while its source is not dropped. The caller
    /// persists this transition before invoking the provisioner or the
    /// uploader, so that a crash mid-upload leaves the row observably
    /// `Uploading`. Errors leave the catalog unchanged.
    pub fn begin_upload(&mut self, target_identity: u64) -> (r: Result<(), RegistryError>)
        requires
            old(self).wf(),
        ensures
            final(self).wf(),
            r == Err::<(), RegistryError>(RegistryError::UnknownTarget) <==> !tgt_has(
                old(self).targets@,
                target_identity,
            ),
            r == Err::<(), RegistryError>(RegistryError::InvalidTransition) <==> exists|i: int|
                0 <= i < old(self).targets@.len() && (#[trigger] old(self).targets@[i].identity)
                    == target_identity && !(old(self).targets@[i].tier_state is Pending || old(
                    self,
                ).targets@[i].tier_state is Failed),
            r == Err::<(), RegistryError>(RegistryError::SourceDropped) <==> exists|i: int|
                0 <= i < old(self).targets@.len() && (#[trigger] old(self).targets@[i].identity)
                    == target_identity && (old(self).targets@[i].tier_state is Pending || old(
                    self,
                ).targets@[i].tier_state is Failed) && src_dropped(
                    old(self).sources@,
                    old(self).targets@[i].source_identity,
                ),
            r is Ok <==> old(self).startable(target_identity),
            r is Err ==> *final(self) == *old(self),
            r is Ok ==> final(self).sources@ == old(self).sources@ && final(self).targets@.len()
                == old(self).targets@.len(),
            r is Ok ==> forall|i: int|
                0 <= i < old(self).targets@.len() ==> final(self).targets@[i] == (
                if (#[trigger] old(self).targets@[i].identity) == target_identity {
                    (Target { tier_state: TierState::Uploading, ..old(self).targets@[i] })
                } else {
                    old(self).targets@[i]
                }),
            no_new_tiered(old(self).targets@, final(self).targets@),
    {
        let k = match self.find_target(target_identity) {
            Some(k) => k,
            None => {
                return Err(RegistryError::UnknownTarget);
            },
        };
        proof {
            lemma_tgt_witness(self.targets@, k as int);
        }
        let st = self.targets[k].tier_state;
        if !(st == TierState::Pending || st == TierState::Failed) {
            return Err(RegistryError::InvalidTransition);
        }
        let sid = self.targets[k].source_identity;
        let si = match self.find_source(sid) {
            Some(si) => si,
            None => {
                proof {
                    assert(src_has(self.sources@, sid));
                }
                return Err(RegistryError::UnknownSource);
            },
        };
        proof {
            lemma_src_witness(self.sources@, si as int);
        }
        if self.sources[si].dropped {
            assert(src_dropped(self.sources@, sid));
            return Err(RegistryError::SourceDropped);
        }
        self.targets[k].tier_state = TierState::Uploading;
        proof {
            lemma_tgt_update(old(self).targets@, k as int, self.targets@[k as int]);
        }
        Ok(())
    }
}

impl TierRegistry {
    /// The number of source rows.
    pub fn source_count(&self) -> (n: usize)
        ensures
            n == self.sources@.len(),
    {
        self.sources.len()
    }

    /// The number of target rows.
    pub fn target_count(&self) -> (n: usize)
        ensures
            n == self.targets@.len(),
    {
        self.targets.len()
    }

    /// The lifecycle state of the target with this identity, if it exists.
    pub fn target_state(&self, id: u64) -> (r: Option<TierState>)
        ensures
            match r {
                Some(s) => exists|i: int|
                    0 <= i < self.targets@.len() && (#[trigger] self.targets@[i].identity) == id
                        && self.targets@[i].tier_state == s,
                None => !tgt_has(self.targets@, id),
            },
    {
        match self.find_target(id) {
            Some(k) => Some(self.targets[k].tier_state),
            None => None,
        }
    }

    /// The failure kind recorded on the target with this identity: `None`
    /// when the target does not exist or records no failure.
    pub fn target_failure(&self, id: u64) -> (r: Option<FailureKind>)
        ensures
            match r {
                Some(k) => exists|i: int|
                    0 <= i < self.targets@.len() && (#[trigger] self.targets@[i].identity) == id
                        && self.targets@[i].failure == Some(k),
                None => !tgt_has(self.targets@, id) || exists|i: int|
                    0 <= i < self.targets@.len() && (#[trigger] self.targets@[i].identity) == id
                        && self.targets@[i].failure is None,
            },
    {
        match self.find_target(id) {
            Some(k) => self.targets[k].failure,
            None => None,
        }
    }

    /// The lifecycle state of the source with this identity, if it exists.
    pub fn source_state(&self, id: u64) -> (r: Option<SourceState>)
        ensures
            match r {
                Some(s) => exists|i: int|
                    0 <= i < self.sources@.len() && (#[trigger] self.sources@[i].identity) == id
                        && self.sources@[i].state == s,
                None => !src_has(self.sources@, id),
            },
    {
        match self.find_source(id) {
            Some(k) => Some(self.sources[k].state),
            None => None,
        }
    }

    /// Whether the source with this identity is dropped; `None` when no such
    /// source exists.
    pub fn source_is_dropped(&self, id: u64) -> (r: Option<bool>)
        requires
            self.wf(),
        ensures
            match r {
                Some(d) => d == src_dropped(self.sources@, id) && src_has(self.sources@, id),
                None => !src_has(self.sources@, id),
            },
    {
        match self.find_source(id) {
            Some(k) => {
                proof {
                    lemma_src_witness(self.sources@, k as int);
                }
                Some(self.sources[k].dropped)
            },
            None => None,
        }
    }

    /// Whether some target of this source has already reached `Tiered`.
    fn has_tiered_for(&self, sid: u64) -> (b: bool)
        ensures
            b == source_has_tiered(self.targets@, sid),
    {
        let mut i: usize = 0;
        while i < self.targets.len()
            invariant
                i <= self.targets@.len(),
                forall|j: int|
                    0 <= j < i ==> !((#[trigger] self.targets@[j].source_identity) == sid
                        && self.targets@[j].tier_state is Tiered),
            decreases self.targets@.len() - i,
        {
            if self.targets[i].source_identity == sid && self.targets[i].tier_state
                == TierState::Tiered {
                return true;
            }
            i += 1;
        }
        false
    }

    /// Moves a target into `Tiered`, which is only valid from `Uploading`.
    /// The caller must present both a successful provisioning status and an
    /// upload acknowledgment for this target's artifact: possession of these
    /// two values is what licenses the transition, so a `Tiered` row is never
    /// observed without them. If this is the source's first tiered artifact,
    /// the source row is stamped `Enabled`. Errors leave the catalog
    /// unchanged.
    pub fn acknowledge_tiered(
        &mut self,
        target_identity: u64,
        status: BucketStatus,
        ack: &UploadAck,
    ) -> (r: Result<(), RegistryError>)
        requires
            old(self).wf(),
        ensures
            final(self).wf(),
            r == Err::<(), RegistryError>(RegistryError::UnknownTarget) <==> !tgt_has(
                old(self).targets@,
                target_identity,
            ),
            r == Err::<(), RegistryError>(RegistryError::InvalidTransition) <==> exists|i: int|
                0 <= i < old(self).targets@.len() && (#[trigger] old(self).targets@[i].identity)
                    == target_identity && !(old(self).targets@[i].tier_state is Uploading),
            r is Ok <==> exists|i: int|
                0 <= i < old(self).targets@.len() && (#[trigger] old(self).targets@[i].identity)
                    == target_identity && old(self).targets@[i].tier_state is Uploading,
            r is Err ==> *final(self) == *old(self),
            r is Ok ==> final(self).targets@.len() == old(self).targets@.len()
                && final(self).sources@.len() == old(self).sources@.len(),
            r is Ok ==> forall|i: int|
                0 <= i < old(self).targets@.len() ==> final(self).targets@[i] == (
                if (#[trigger] old(self).targets@[i].identity) == target_identity {
                    (Target { tier_state: TierState::Tiered, ..old(self).targets@[i] })
                } else {
                    old(self).targets@[i]
                }),
            r is Ok ==> forall|i: int, j: int|
                #![trigger old(self).targets@[i], final(self).sources@[j]]
                0 <= i < old(self).targets@.len() && old(self).targets@[i].identity
                    == target_identity && 0 <= j < old(self).sources@.len()
                    ==> final(self).sources@[j] == (
                if old(self).sources@[j].identity == old(self).targets@[i].source_identity
                    && !source_has_tiered(
                    old(self).targets@,
                    old(self).targets@[i].source_identity,
                ) {
                    (Source { state: SourceState::Enabled, ..old(self).sources@[j] })
                } else {
                    old(self).sources@[j]
                }),
            r is Ok ==> tiered_at(final(self).targets@, target_identity),
            forall|id: u64|
                #[trigger] tiered_at(final(self).targets@, id) ==> tiered_at(
                    old(self).targets@,
                    id,
                ) || id == target_identity,
    {
        let k = match self.find_target(target_identity) {
            Some(k) => k,
            None => {
                return Err(RegistryError::UnknownTarget);
            },
        };
        proof {
            lemma_tgt_witness(self.targets@, k as int);
        }
        if self.targets[k].tier_state != TierState::Uploading {
            return Err(RegistryError::InvalidTransition);
        }
        let sid = self.targets[k].source_identity;
        let first = !self.has_tiered_for(sid);
        self.targets[k].tier_state = TierState::Tiered;
        proof {
            lemma_tgt_update(old(self).targets@, k as int, self.targets@[k as int]);
            assert(self.targets@[k as int].identity == target_identity && self.targets@[
                k as int
            ].tier_state is Tiered);
            assert(tiered_at(self.targets@, target_identity));
        }
        if first {
            let si = match self.find_source(sid) {
                Some(si) => si,
                None => {
                    proof {
                        assert(src_has(self.sources@, sid));
                        assert(false);
                    }
                    return Err(RegistryError::UnknownSource);
                },
            };
            proof {
                lemma_src_witness(self.sources@, si as int);
            }
            self.sources[si].state = SourceState::Enabled;
            proof {
                lemma_src_update(old(self).sources@, si as int, self.sources@[si as int]);
            }
        }
        Ok(())
    }

    /// Moves a target into `Failed`, which is only valid from `Uploading`,
    /// and records the error kind for operator visibility. No other field of
    /// the row is touched. Errors leave the catalog unchanged.
    pub fn record_failed(&mut self, target_identity: u64, kind: FailureKind) -> (r: Result<
        (),
        RegistryError,
    >)
        requires
            old(self).wf(),
        ensures
            final(self).wf(),
            r == Err::<(), RegistryError>(RegistryError::UnknownTarget) <==> !tgt_has(
                old(self).targets@,
                target_identity,
            ),
            r == Err::<(), RegistryError>(RegistryError::InvalidTransition) <==> exists|i: int|
                0 <= i < old(self).targets@.len() && (#[trigger] old(self).targets@[i].identity)
                    == target_identity && !(old(self).targets@[i].tier_state is Uploading),
            r is Ok <==> exists|i: int|
                0 <= i < old(self).targets@.len() && (#[trigger] old(self).targets@[i].identity)
                    == target_identity && old(self).targets@[i].tier_state is Uploading,
            r is Err ==> *final(self) == *old(self),
            r is Ok ==> final(self).sources@ == old(self).sources@ && final(self).targets@.len()
                == old(self).targets@.len(),
            r is Ok ==> forall|i: int|
                0 <= i < old(self).targets@.len() ==> final(self).targets@[i] == (
                if (#[trigger] old(self).targets@[i].identity) == target_identity {
                    (Target {
                        tier_state: TierState::Failed,
                        failure: Some(kind),
                        ..old(self).targets@[i]
                    })
                } else {
                    old(self).targets@[i]
                }),
            no_new_tiered(old(self).targets@, final(self).targets@),
    {
        let k = match self.find_target(target_identity) {
            Some(k) => k,
            None => {
                return Err(RegistryError::UnknownTarget);
            },
        };
        proof {
            lemma_tgt_witness(self.targets@, k as int);
        }
        if self.targets[k].tier_state != TierState::Uploading {
            return Err(RegistryError::InvalidTransition);
        }
        self.targets[k].tier_state = TierState::Failed;
        self.targets[k].failure = Some(kind);
        proof {
            lemma_tgt_update(old(self).targets@, k as int, self.targets@[k as int]);
        }
        Ok(())
    }

    /// Re-queues a failed target: `Failed -> Pending` is the only retry
    /// edge. The recorded failure is cleared for the fresh attempt. Retrying
    /// is refused when the target's source has been dropped, since dropping
    /// is terminal. Errors leave the catalog unchanged.
    pub fn retry(&mut self, target_identity: u64) -> (r: Result<(), RegistryError>)
        requires
            old(self).wf(),
        ensures
            final(self).wf(),
            r == Err::<(), RegistryError>(RegistryError::UnknownTarget) <==> !tgt_has(
                old(self).targets@,
                target_identity,
            ),
            r == Err::<(), RegistryError>(RegistryError::InvalidTransition) <==> exists|i: int|
                0 <= i < old(self).targets@.len() && (#[trigger] old(self).targets@[i].identity)
                    == target_identity && !(old(self).targets@[i].tier_state is Failed),
            r == Err::<(), RegistryError>(RegistryError::SourceDropped) <==> exists|i: int|
                0 <= i < old(self).targets@.len() && (#[trigger] old(self).targets@[i].identity)
                    == target_identity && old(self).targets@[i].tier_state is Failed && src_dropped(
                    old(self).sources@,
                    old(self).targets@[i].source_identity,
                ),
            r is Ok <==> exists|i: int|
                0 <= i < old(self).targets@.len() && (#[trigger] old(self).targets@[i].identity)
                    == target_identity && old(self).targets@[i].tier_state is Failed
                    && !src_dropped(old(self).sources@, old(self).targets@[i].source_identity),
            r is Err ==> *final(self) == *old(self),
            r is Ok ==> final(self).sources@ == old(self).sources@ && final(self).targets@.len()
                == old(self).targets@.len(),
            r is Ok ==> forall|i: int|
                0 <= i < old(self).targets@.len() ==> final(self).targets@[i] == (
                if (#[trigger] old(self).targets@[i].identity) == target_identity {
                    (Target {
                        tier_state: TierState::Pending,
                        failure: None,
                        ..old(self).targets@[i]
                    })
                } else {
                    old(self).targets@[i]
                }),
            no_new_tiered(old(self).targets@, final(self).targets@),
    {
        let k = match self.find_target(target_identity) {
            Some(k) => k,
            None => {
                return Err(RegistryError::UnknownTarget);
            },
        };
        proof {
            lemma_tgt_witness(self.targets@, k as int);
        }
        if self.targets[k].tier_state != TierState::Failed {
            return Err(RegistryError::InvalidTransition);
        }
        let sid = self.targets[k].source_identity;
        let si = match self.find_source(sid) {
            Some(si) => si,
            None => {
                proof {
                    assert(src_has(self.sources@, sid));
                    assert(false);
                }
                return Err(RegistryError::UnknownSource);
            },
        };
        proof {
            lemma_src_witness(self.sources@, si as int);
        }
        if self.sources[si].dropped {
            assert(src_dropped(self.sources@, sid));
            return Err(RegistryError::SourceDropped);
        }
        self.targets[k].tier_state = TierState::Pending;
        self.targets[k].failure = None;
        proof {
            lemma_tgt_update(old(self).targets@, k as int, self.targets@[k as int]);
        }
        Ok(())
    }

    /// Marks a source as dropped, which is terminal: the source thereafter
    /// rejects new targets, and every one of its targets still in flight
    /// (`Pending` or `Uploading`) is forced to `Failed` rather than allowed
    /// to complete silently. Targets of other sources, tiered targets and
    /// already-failed targets are untouched. Fails with `UnknownSource` if
    /// no such source exists, leaving the catalog unchanged.
    pub fn drop_source(&mut self, source_identity: u64) -> (r: Result<(), RegistryError>)
        requires
            old(self).wf(),
        ensures
            final(self).wf(),
            r is Ok <==> src_has(old(self).sources@, source_identity),
            r is Err ==> r == Err::<(), RegistryError>(RegistryError::UnknownSource) && *final(self)
                == *old(self),
            r is Ok ==> final(self).sources@.len() == old(self).sources@.len()
                && final(self).targets@.len() == old(self).targets@.len(),
            r is Ok ==> forall|j: int|
                0 <= j < old(self).sources@.len() ==> final(self).sources@[j] == (
                if (#[trigger] old(self).sources@[j].identity) == source_identity {
                    (Source { dropped: true, ..old(self).sources@[j] })
                } else {
                    old(self).sources@[j]
                }),
            r is Ok ==> forall|i: int|
                0 <= i < old(self).targets@.len() ==> final(self).targets@[i] == (
                if (#[trigger] old(self).targets@[i].source_identity) == source_identity && live(
                    old(self).targets@[i].tier_state,
                ) {
                    (Target { tier_state: TierState::Failed, ..old(self).targets@[i] })
                } else {
                    old(self).targets@[i]
                }),
            no_new_tiered(old(self).targets@, final(self).targets@),
    {
        let si = match self.find_source(source_identity) {
            Some(si) => si,
            None => {
                return Err(RegistryError::UnknownSource);
            },
        };
        proof {
            lemma_src_witness(self.sources@, si as int);
        }
        self.sources[si].dropped = true;
        proof {
            lemma_src_update(old(self).sources@, si as int, self.sources@[si as int]);
        }
        let ghost ss1 = self.sources@;
        let ghost ts0 = self.targets@;
        let mut i: usize = 0;
        while i < self.targets.len()
            invariant
                self.sources@ == ss1,
                self.targets@.len() == ts0.len(),
                i <= ts0.len(),
                forall|j: int|
                    0 <= j < i ==> self.targets@[j] == (
                    if (#[trigger] ts0[j].source_identity) == source_identity && live(
                        ts0[j].tier_state,
                    ) {
                        (Target { tier_state: TierState::Failed, ..ts0[j] })
                    } else {
                        ts0[j]
                    }),
                forall|j: int| i <= j < ts0.len() ==> self.targets@[j] == ts0[j],
            decreases ts0.len() - i,
        {
            let st = self.targets[i].tier_state;
            if self.targets[i].source_identity == source_identity && (st == TierState::Pending || st
                == TierState::Uploading) {
                self.targets[i].tier_state = TierState::Failed;
            }
            i += 1;
        }
        proof {
            lemma_forced_fail_wf(old(self), self, source_identity);
        }
        Ok(())
    }
}

/// After dropping a source and forcing its in-flight targets to `Failed`
/// pointwise, the catalog is well-formed again and no new tiered artifact
/// was introduced.
proof fn lemma_forced_fail_wf(pre: &TierRegistry, post: &TierRegistry, sid: u64)
    requires
        pre.wf(),
        src_has(pre.sources@, sid),
        post.sources@.len() == pre.sources@.len(),
        post.targets@.len() == pre.targets@.len(),
        forall|j: int|
            0 <= j < pre.sources@.len() ==> post.sources@[j] == (
            if (#[trigger] pre.sources@[j].identity) == sid {
                (Source { dropped: true, ..pre.sources@[j] })
            } else {
                pre.sources@[j]
            }),
        forall|i: int|
            0 <= i < pre.targets@.len() ==> post.targets@[i] == (
            if (#[trigger] pre.targets@[i].source_identity) == sid && live(
                pre.targets@[i].tier_state,
            ) {
                (Target { tier_state: TierState::Failed, ..pre.targets@[i] })
            } else {
                pre.targets@[i]
            }),
    ensures
        post.wf(),
        no_new_tiered(pre.targets@, post.targets@),
{
    assert forall|id: u64| #[trigger]
        src_has(post.sources@, id) implies src_has(pre.sources@, id) by {
        let i = choose|i: int| 0 <= i < post.sources@.len() && (#[trigger] post.sources@[i].identity)
            == id;
        assert(pre.sources@[i].identity == id);
    }
    assert forall|id: u64| src_has(pre.sources@, id) implies #[trigger]
        src_has(post.sources@, id) by {
        let i = choose|i: int| 0 <= i < pre.sources@.len() && (#[trigger] pre.sources@[i].identity)
            == id;
        assert(post.sources@[i].identity == id);
    }
    assert forall|id: u64| #[trigger]
        src_dropped(post.sources@, id) implies src_dropped(pre.sources@, id) || id == sid by {
        let i = choose|i: int|
            0 <= i < post.sources@.len() && (#[trigger] post.sources@[i].identity) == id
                && post.sources@[i].dropped;
        if pre.sources@[i].identity != sid {
            assert(pre.sources@[i].identity == id && pre.sources@[i].dropped);
        }
    }
    assert forall|id: u64| src_dropped(pre.sources@, id) implies #[trigger]
        src_dropped(post.sources@, id) by {
        let i = choose|i: int|
            0 <= i < pre.sources@.len() && (#[trigger] pre.sources@[i].identity) == id
                && pre.sources@[i].dropped;
        assert(post.sources@[i].identity == id && post.sources@[i].dropped);
    }
    assert(src_unique(post.sources@)) by {
        assert forall|i: int, j: int| 0 <= i < j < post.sources@.len() implies (
        #[trigger] post.sources@[i].identity) != (#[trigger] post.sources@[j].identity) by {
            assert(post.sources@[i].identity == pre.sources@[i].identity);
            assert(post.sources@[j].identity == pre.sources@[j].identity);
        }
    }
    assert(tgt_unique(post.targets@)) by {
        assert forall|i: int, j: int| 0 <= i < j < post.targets@.len() implies (
        #[trigger] post.targets@[i].identity) != (#[trigger] post.targets@[j].identity) by {
            assert(post.targets@[i].identity == pre.targets@[i].identity);
            assert(post.targets@[j].identity == pre.targets@[j].identity);
        }
    }
    assert forall|i: int| 0 <= i < post.targets@.len() implies src_has(
        post.sources@,
        (#[trigger] post.targets@[i]).source_identity,
    ) && !(src_dropped(post.sources@, post.targets@[i].source_identity) && live(
        post.targets@[i].tier_state,
    )) by {
        assert(post.targets@[i].source_identity == pre.targets@[i].source_identity);
        assert(src_has(pre.sources@, pre.targets@[i].source_identity));
        if src_dropped(post.sources@, post.targets@[i].source_identity) && live(
            post.targets@[i].tier_state,
        ) {
            if pre.targets@[i].source_identity == sid {
                assert(!live(post.targets@[i].tier_state));
            } else {
                assert(src_dropped(pre.sources@, pre.targets@[i].source_identity));
                assert(!live(pre.targets@[i].tier_state));
                assert(post.targets@[i] == pre.targets@[i]);
            }
        }
    }
    assert forall|id: u64| #[trigger]
        tiered_at(post.targets@, id) implies tiered_at(pre.targets@, id) by {
        let i = choose|i: int|
            0 <= i < post.targets@.len() && (#[trigger] post.targets@[i].identity) == id
                && post.targets@[i].tier_state is Tiered;
        assert(pre.targets@[i].identity == id);
        assert(pre.targets@[i].tier_state is Tiered);
    }
}

/// Updating one source row in place, without changing its identity, keeps
/// uniqueness and existence facts; dropped-facts change only at that row's
/// identity.
proof fn lemma_src_update(ss: Seq<Source>, k: int, s2: Source)
    requires
        0 <= k < ss.len(),
        s2.identity == ss[k].identity,
    ensures
        forall|id: u64| #[trigger] src_has(ss.update(k, s2), id) <==> src_has(ss, id),
        src_unique(ss) ==> src_unique(ss.update(k, s2)),
        s2.dropped == ss[k].dropped ==> forall|id: u64|
            #[trigger] src_dropped(ss.update(k, s2), id) <==> src_dropped(ss, id),
        s2.dropped ==> forall|id: u64|
            #[trigger] src_dropped(ss.update(k, s2), id) <==> src_dropped(ss, id) || id
                == s2.identity,
{
    assert forall|id: u64| #[trigger] src_has(ss.update(k, s2), id) implies src_has(ss, id) by {
        let i = choose|i: int|
            0 <= i < ss.update(k, s2).len() && (#[trigger] ss.update(k, s2)[i].identity) == id;
        assert(ss[i].identity == id);
    }
    assert forall|id: u64| src_has(ss, id) implies #[trigger] src_has(ss.update(k, s2), id) by {
        let i = choose|i: int| 0 <= i < ss.len() && (#[trigger] ss[i].identity) == id;
        assert(ss.update(k, s2)[i].identity == id);
    }
    if s2.dropped == ss[k].dropped {
        assert forall|id: u64| #[trigger]
            src_dropped(ss.update(k, s2), id) implies src_dropped(ss, id) by {
            let i = choose|i: int|
                0 <= i < ss.update(k, s2).len() && (#[trigger] ss.update(k, s2)[i].identity) == id
                    && ss.update(k, s2)[i].dropped;
            assert(ss[i].identity == id && ss[i].dropped);
        }
        assert forall|id: u64| src_dropped(ss, id) implies #[trigger]
            src_dropped(ss.update(k, s2), id) by {
            let i = choose|i: int|
                0 <= i < ss.len() && (#[trigger] ss[i].identity) == id && ss[i].dropped;
            assert(ss.update(k, s2)[i].identity == id && ss.update(k, s2)[i].dropped);
        }
    }
    if s2.dropped {
        assert forall|id: u64| #[trigger]
            src_dropped(ss.update(k, s2), id) implies src_dropped(ss, id) || id == s2.identity by {
            let i = choose|i: int|
                0 <= i < ss.update(k, s2).len() && (#[trigger] ss.update(k, s2)[i].identity) == id
                    && ss.update(k, s2)[i].dropped;
            if i != k {
                assert(ss[i].identity == id && ss[i].dropped);
            }
        }
        assert forall|id: u64| src_dropped(ss, id) || id == s2.identity implies #[trigger]
            src_dropped(ss.update(k, s2), id) by {
            if id == s2.identity {
                assert(ss.update(k, s2)[k].identity == id && ss.update(k, s2)[k].dropped);
            } else {
                let i = choose|i: int|
                    0 <= i < ss.len() && (#[trigger] ss[i].identity) == id && ss[i].dropped;
                assert(i != k);
                assert(ss.update(k, s2)[i].identity == id && ss.update(k, s2)[i].dropped);
            }
        }
    }
}

/// Rows with the same identity as row `k` are row `k` itself, when
/// identities are unique.
pub(crate) proof fn lemma_src_witness(ss: Seq<Source>, k: int)
    requires
        src_unique(ss),
        0 <= k < ss.len(),
    ensures
        forall|i: int| 0 <= i < ss.len() && (#[trigger] ss[i].identity) == ss[k].identity ==> i == k,
        src_has(ss, ss[k].identity),
        src_dropped(ss, ss[k].identity) == ss[k].dropped,
{
    assert forall|i: int|
        0 <= i < ss.len() && (#[trigger] ss[i].identity) == ss[k].identity implies i == k by {
        if i < k {
            assert(ss[i].identity != ss[k].identity);
        } else if k < i {
            assert(ss[k].identity != ss[i].identity);
        }
    }
}

/// Rows with the same identity as row `k` are row `k` itself, when
/// identities are unique.
pub(crate) proof fn lemma_tgt_witness(ts: Seq<Target>, k: int)
    requires
        tgt_unique(ts),
        0 <= k < ts.len(),
    ensures
        forall|i: int| 0 <= i < ts.len() && (#[trigger] ts[i].identity) == ts[k].identity ==> i == k,
        tgt_has(ts, ts[k].identity),
{
    assert forall|i: int|
        0 <= i < ts.len() && (#[trigger] ts[i].identity) == ts[k].identity implies i == k by {
        if i < k {
            assert(ts[i].identity != ts[k].identity);
        } else if k < i {
            assert(ts[k].identity != ts[i].identity);
        }
    }
}

/// Pushing a target row extends existence facts pointwise and, when the new
/// row is not `Tiered`, introduces no new tiered artifact.
proof fn lemma_tgt_push(ts: Seq<Target>, t: Target)
    ensures
        forall|id: u64| #[trigger] tgt_has(ts.push(t), id) <==> tgt_has(ts, id) || t.identity == id,
        !(t.tier_state is Tiered) ==> no_new_tiered(ts, ts.push(t)),
{
    assert forall|id: u64| #[trigger]
        tgt_has(ts.push(t), id) implies tgt_has(ts, id) || t.identity == id by {
        let i = choose|i: int| 0 <= i < ts.push(t).len() && (#[trigger] ts.push(t)[i].identity)
            == id;
        if i < ts.len() {
            assert(ts[i].identity == id);
        }
    }
    assert forall|id: u64| tgt_has(ts, id) || t.identity == id implies #[trigger]
        tgt_has(ts.push(t), id) by {
        if tgt_has(ts, id) {
            let i = choose|i: int| 0 <= i < ts.len() && (#[trigger] ts[i].identity) == id;
            assert(ts.push(t)[i].identity == id);
        } else {
            assert(ts.push(t)[ts.len() as int].identity == id);
        }
    }
    if !(t.tier_state is Tiered) {
        assert forall|id: u64| #[trigger] tiered_at(ts.push(t), id) implies tiered_at(ts, id) by {
            let i = choose|i: int|
                0 <= i < ts.push(t).len() && (#[trigger] ts.push(t)[i].identity) == id && ts.push(
                    t,
                )[i].tier_state is Tiered;
            assert(i < ts.len());
            assert(ts[i].identity == id && ts[i].tier_state is Tiered);
        }
    }
}

/// Updating one target row in place changes existence facts only at that
/// row's identity, and introduces no new tiered artifact when the new value
/// is not `Tiered`.
proof fn lemma_tgt_update(ts: Seq<Target>, k: int, t2: Target)
    requires
        0 <= k < ts.len(),
        t2.identity == ts[k].identity,
    ensures
        forall|id: u64| #[trigger] tgt_has(ts.update(k, t2), id) <==> tgt_has(ts, id),
        !(t2.tier_state is Tiered) ==> no_new_tiered(ts, ts.update(k, t2)),
        tgt_unique(ts) ==> tgt_unique(ts.update(k, t2)),
        forall|id: u64|
            #[trigger] tiered_at(ts.update(k, t2), id) ==> tiered_at(ts, id) || id == t2.identity,
{
    assert forall|id: u64| #[trigger] tgt_has(ts.update(k, t2), id) implies tgt_has(ts, id) by {
        let i = choose|i: int|
            0 <= i < ts.update(k, t2).len() && (#[trigger] ts.update(k, t2)[i].identity) == id;
        assert(ts[i].identity == id);
    }
    assert forall|id: u64| tgt_has(ts, id) implies #[trigger] tgt_has(ts.update(k, t2), id) by {
        let i = choose|i: int| 0 <= i < ts.len() && (#[trigger] ts[i].identity) == id;
        assert(ts.update(k, t2)[i].identity == id);
    }
    assert forall|id: u64| #[trigger]
        tiered_at(ts.update(k, t2), id) implies tiered_at(ts, id) || id == t2.identity by {
        let i = choose|i: int|
            0 <= i < ts.update(k, t2).len() && (#[trigger] ts.update(k, t2)[i].identity) == id
                && ts.update(k, t2)[i].tier_state is Tiered;
        if i != k {
            assert(ts[i].identity == id && ts[i].tier_state is Tiered);
        }
    }
    if !(t2.tier_state is Tiered) {
        assert forall|id: u64| #[trigger] tiered_at(ts.update(k, t2), id) implies tiered_at(
            ts,
            id,
        ) by {
            let i = choose|i: int|
                0 <= i < ts.update(k, t2).len() && (#[trigger] ts.update(k, t2)[i].identity) == id
                    && ts.update(k, t2)[i].tier_state is Tiered;
            assert(i != k);
            assert(ts[i].identity == id && ts[i].tier_state is Tiered);
        }
    }
}

impl TierRegistry {
    /// Reconciliation sweep: a job may be abandoned after moving its target
    /// to `Uploading` without completing. Every target still `Uploading`
    /// whose row is older than `cutoff` is treated as stale and forced to
    /// `Failed`, from where the retry edge can re-queue it. No other row,
    /// and no other field, is touched.
    pub fn reconcile_stale(&mut self, cutoff: u64)
        requires
            old(self).wf(),
        ensures
            final(self).wf(),
            final(self).sources@ == old(self).sources@,
            final(self).targets@.len() == old(self).targets@.len(),
            forall|i: int|
                0 <= i < old(self).targets@.len() ==> final(self).targets@[i] == (
                if (#[trigger] old(self).targets@[i]).tier_state is Uploading && old(
                    self,
                ).targets@[i].created_on < cutoff {
                    (Target { tier_state: TierState::Failed, ..old(self).targets@[i] })
                } else {
                    old(self).targets@[i]
                }),
            no_new_tiered(old(self).targets@, final(self).targets@),
    {
        let ghost ts0 = self.targets@;
        let mut i: usize = 0;
        while i < self.targets.len()
            invariant
                self.sources@ == old(self).sources@,
                self.targets@.len() == ts0.len(),
                i <= ts0.len(),
                forall|j: int|
                    0 <= j < i ==> self.targets@[j] == (
                    if (#[trigger] ts0[j]).tier_state is Uploading && ts0[j].created_on < cutoff {
                        (Target { tier_state: TierState::Failed, ..ts0[j] })
                    } else {
                        ts0[j]
                    }),
                forall|j: int| i <= j < ts0.len() ==> self.targets@[j] == ts0[j],
            decreases ts0.len() - i,
        {
            if self.targets[i].tier_state == TierState::Uploading && self.targets[i].created_on
                < cutoff {
                self.targets[i].tier_state = TierState::Failed;
            }
            i += 1;
        }
        proof {
            assert(tgt_unique(self.targets@)) by {
                assert forall|a: int, b: int| 0 <= a < b < self.targets@.len() implies (
                #[trigger] self.targets@[a].identity) != (#[trigger] self.targets@[b].identity) by {
                    assert(self.targets@[a].identity == ts0[a].identity);
                    assert(self.targets@[b].identity == ts0[b].identity);
                }
            }
            assert forall|a: int| 0 <= a < self.targets@.len() implies src_has(
                self.sources@,
                (#[trigger] self.targets@[a]).source_identity,
            ) && !(src_dropped(self.sources@, self.targets@[a].source_identity) && live(
                self.targets@[a].tier_state,
            )) by {
                assert(self.targets@[a].source_identity == ts0[a].source_identity);
                if live(self.targets@[a].tier_state) {
                    assert(self.targets@[a] == ts0[a]);
                }
            }
            assert forall|id: u64| #[trigger]
                tiered_at(self.targets@, id) implies tiered_at(ts0, id) by {
                let a = choose|a: int|
                    0 <= a < self.targets@.len() && (#[trigger] self.targets@[a].identity) == id
                        && self.targets@[a].tier_state is Tiered;
                assert(ts0[a].identity == id);
                assert(ts0[a].tier_state is Tiered);
            }
        }
    }
}

/// Introducing no new tiered artifact is preserved across chained steps: a
/// catalog that went through any series of such transitions shows a tiered
/// target only where one already was at the start. Together with the
/// per-transition guarantees, a `Tiered` row is only ever introduced by the
/// acknowledgment transition, which demands a successful provisioning
/// status and an upload acknowledgment.
pub proof fn lemma_no_new_tiered_chain(a: Seq<Target>, b: Seq<Target>, c: Seq<Target>)
    requires
        no_new_tiered(a, b),
        no_new_tiered(b, c),
    ensures
        no_new_tiered(a, c),
{
}

/// Pushing a source row extends existence facts pointwise: an identity is
/// present afterwards exactly when it was present before or is the new row's,
/// and likewise for dropped rows.
proof fn lemma_src_push(ss: Seq<Source>, s: Source)
    ensures
        forall|id: u64| #[trigger] src_has(ss.push(s), id) <==> src_has(ss, id) || s.identity == id,
        forall|id: u64|
            #[trigger] src_dropped(ss.push(s), id) <==> src_dropped(ss, id) || (s.identity == id
                && s.dropped),
{
    assert forall|id: u64| #[trigger]
        src_has(ss.push(s), id) implies src_has(ss, id) || s.identity == id by {
        let i = choose|i: int| 0 <= i < ss.push(s).len() && (#[trigger] ss.push(s)[i].identity)
            == id;
        if i < ss.len() {
            assert(ss[i].identity == id);
        }
    }
    assert forall|id: u64| src_has(ss, id) || s.identity == id implies #[trigger]
        src_has(ss.push(s), id) by {
        if src_has(ss, id) {
            let i = choose|i: int| 0 <= i < ss.len() && (#[trigger] ss[i].identity) == id;
            assert(ss.push(s)[i].identity == id);
        } else {
            assert(ss.push(s)[ss.len() as int].identity == id);
        }
    }
    assert forall|id: u64| #[trigger]
        src_dropped(ss.push(s), id) implies src_dropped(ss, id) || (s.identity == id
        && s.dropped) by {
        let i = choose|i: int|
            0 <= i < ss.push(s).len() && (#[trigger] ss.push(s)[i].identity) == id && ss.push(
                s,
            )[i].dropped;
        if i < ss.len() {
            assert(ss[i].identity == id && ss[i].dropped);
        }
    }
    assert forall|id: u64| src_dropped(ss, id) || (s.identity == id && s.dropped) implies #[trigger]
        src_dropped(ss.push(s), id) by {
        if src_dropped(ss, id) {
            let i = choose|i: int|
                0 <= i < ss.len() && (#[trigger] ss[i].identity) == id && ss[i].dropped;
            assert(ss.push(s)[i].identity == id && ss.push(s)[i].dropped);
        } else {
            assert(ss.push(s)[ss.len() as int].identity == id && ss.push(s)[ss.len() as int].dropped);
        }
    }
}

} // verus!
