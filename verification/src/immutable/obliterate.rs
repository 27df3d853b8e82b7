//! Obliterating fragments.
//!
//! The metadata of a hash doubles as a lock: whoever obliterates it first sets a flag by
//! replacing the metadata that was read. A fragment that lists other fragments takes these
//! along. The payload goes with the last association; until then the metadata is restored.

use bytes::Bytes;
use crate::error::{ObjectCall, StoreError};
use crate::immutable::get::object_reply_view;
use crate::immutable::metadata::{
    metadata_loaded, metadata_updated, metadata_with_size_validation, obliteration, size_validated,
    update_metadata_cas, MetadataRow,
};
use crate::immutable::payload::{
    hash_to_hex, object_error, object_failure, object_key, payload_in, read_payload,
    ObjectContents, ObjectFault,
};
use crate::immutable::statements::{ImmutableStatement, PgImmutableStore, StoreRules};
use crate::outside::bytes_contents;
use crate::sql::{Fault, SqlCall};
use crate::types::{Address, ContentHash, Fragment, Partition, RepositoryId};
use vstd::prelude::*;

verus! {

/// A fragment that is to be obliterated.
#[derive(Clone, Copy, Debug, PartialEq, Eq)]
pub struct Obliterate {
    pub rules: StoreRules,
    pub repository: RepositoryId,
    pub address: Address,
}

/// A fragment whose metadata was read, and is replaced by one that is locked.
#[derive(Clone, Copy, Debug, PartialEq, Eq)]
pub struct Locked {
    pub request: Obliterate,
    /// The metadata as it was read.
    pub original: Fragment,
    /// The metadata with the lock.
    pub updated: Fragment,
}

/// The metadata is to be read.
#[derive(Clone, Copy, Debug, PartialEq, Eq)]
pub struct ObliterateRead {
    pub request: Obliterate,
}

/// The metadata is to be locked.
#[derive(Clone, Copy, Debug, PartialEq, Eq)]
pub struct ObliterateLock {
    pub at: Locked,
}

/// The payload is to be read, as it lists other fragments.
#[derive(Clone, Copy, Debug, PartialEq, Eq)]
pub struct ObliterateFetch {
    pub at: Locked,
}

/// The payload is to be decoded into the hashes that it lists.
#[derive(Debug, PartialEq, Eq)]
pub struct ObliterateDecode {
    pub at: Locked,
    pub payload: Bytes,
}

/// The listed fragments are to be obliterated.
#[derive(Debug, PartialEq, Eq)]
pub struct ObliterateParts {
    pub at: Locked,
    pub parts: Vec<Address>,
}

/// The association is to be removed.
#[derive(Clone, Copy, Debug, PartialEq, Eq)]
pub struct ObliterateDetach {
    pub at: Locked,
}

/// The remaining associations are to be counted.
#[derive(Clone, Copy, Debug, PartialEq, Eq)]
pub struct ObliterateCount {
    pub at: Locked,
}

/// The metadata is to be restored, for other associations remain.
#[derive(Clone, Copy, Debug, PartialEq, Eq)]
pub struct ObliterateRestore {
    pub at: Locked,
}

/// The payload is to be deleted.
#[derive(Clone, Copy, Debug, PartialEq, Eq)]
pub struct ObliterateDelete {
    pub at: Locked,
}

/// The metadata is to be marked as obliterated.
#[derive(Clone, Copy, Debug, PartialEq, Eq)]
pub struct ObliterateSeal {
    pub at: Locked,
}

/// How the obliteration of a fragment has ended, apart from the fragments that it lists.
#[derive(Debug, PartialEq, Eq)]
pub struct ObliterateOutcome {
    pub result: Result<(), StoreError>,
    /// The number of associations removed.
    pub num_fragments: u64,
    /// The number of payloads deleted.
    pub num_payloads: u64,
}

/// How the obliteration of a listed fragment has ended.
#[derive(Debug, PartialEq, Eq)]
pub enum PartOutcome {
    Done,
    Failed(StoreError),
    /// Its task did not come to an end.
    Lost(String),
}

/// What is to be done next about a fragment that is to be obliterated.
#[derive(Debug, PartialEq, Eq)]
pub enum ObliterateStep {
    Read(ObliterateRead),
    Lock(ObliterateLock),
    Fetch(ObliterateFetch),
    Decode(ObliterateDecode),
    Parts(ObliterateParts),
    Detach(ObliterateDetach),
    Count(ObliterateCount),
    Restore(ObliterateRestore),
    Delete(ObliterateDelete),
    Seal(ObliterateSeal),
    Finish(ObliterateOutcome),
}

/// What is to be done next about a fragment that is to be obliterated.
pub enum ObliterateStepView {
    Read(Obliterate),
    Lock(Locked),
    Fetch(Locked),
    Decode(Locked, Seq<u8>),
    Parts(Locked, Seq<Address>),
    Detach(Locked),
    Count(Locked),
    Restore(Locked),
    Delete(Locked),
    Seal(Locked),
    Finish(ObliterateOutcome),
}

impl View for ObliterateStep {
    type V = ObliterateStepView;

    open spec fn view(&self) -> ObliterateStepView {
        match *self {
            ObliterateStep::Read(s) => ObliterateStepView::Read(s.request),
            ObliterateStep::Lock(s) => ObliterateStepView::Lock(s.at),
            ObliterateStep::Fetch(s) => ObliterateStepView::Fetch(s.at),
            ObliterateStep::Decode(s) => ObliterateStepView::Decode(
                s.at,
                bytes_contents(s.payload),
            ),
            ObliterateStep::Parts(s) => ObliterateStepView::Parts(s.at, s.parts@),
            ObliterateStep::Detach(s) => ObliterateStepView::Detach(s.at),
            ObliterateStep::Count(s) => ObliterateStepView::Count(s.at),
            ObliterateStep::Restore(s) => ObliterateStepView::Restore(s.at),
            ObliterateStep::Delete(s) => ObliterateStepView::Delete(s.at),
            ObliterateStep::Seal(s) => ObliterateStepView::Seal(s.at),
            ObliterateStep::Finish(outcome) => ObliterateStepView::Finish(outcome),
        }
    }
}

/// An end, with what was removed and deleted on the way.
pub open spec fn ended(
    result: Result<(), StoreError>,
    num_fragments: u64,
    num_payloads: u64,
) -> ObliterateStepView {
    ObliterateStepView::Finish(ObliterateOutcome { result, num_fragments, num_payloads })
}

fn finish(result: Result<(), StoreError>, num_fragments: u64, num_payloads: u64) -> (step:
    ObliterateStep)
    ensures
        step@ == ended(result, num_fragments, num_payloads),
{
    ObliterateStep::Finish(ObliterateOutcome { result, num_fragments, num_payloads })
}

impl ObliterateStep {
    /// How many associations were removed and how many payloads deleted before this step.
    pub open spec fn spec_removed(self) -> (u64, u64) {
        match self {
            ObliterateStep::Count(_) => (1, 0),
            ObliterateStep::Restore(_) => (1, 0),
            ObliterateStep::Delete(_) => (1, 0),
            ObliterateStep::Seal(_) => (1, 1),
            ObliterateStep::Finish(outcome) => (outcome.num_fragments, outcome.num_payloads),
            _ => (0, 0),
        }
    }

    /// How many associations were removed and how many payloads deleted before this step,
    /// for whoever keeps count on the way.
    pub fn removed(&self) -> (removed: (u64, u64))
        ensures
            removed == self.spec_removed(),
    {
        match self {
            ObliterateStep::Count(_) => (1, 0),
            ObliterateStep::Restore(_) => (1, 0),
            ObliterateStep::Delete(_) => (1, 0),
            ObliterateStep::Seal(_) => (1, 1),
            ObliterateStep::Finish(outcome) => (outcome.num_fragments, outcome.num_payloads),
            _ => (0, 0),
        }
    }
}

impl Obliterate {
    /// The metadata with the lock.
    pub open spec fn locked(self, original: Fragment) -> Locked {
        Locked {
            request: self,
            original,
            updated: Fragment {
                flags: original.flags | self.rules.flags.payload_obliterating,
                ..original
            },
        }
    }

    /// What follows once the metadata was read. A fragment that is being obliterated, or has
    /// been, is left alone.
    pub open spec fn metadata_read(self, metadata: Result<Fragment, StoreError>) -> ObliterateStepView {
        match metadata {
            Ok(original) => if obliteration(self.rules.flags, original) {
                ended(Ok(()), 0, 0)
            } else {
                ObliterateStepView::Lock(self.locked(original))
            },
            Err(e) => ended(Err(e), 0, 0),
        }
    }
}

impl Locked {
    /// The fragment lists other fragments.
    pub open spec fn lists_parts(self) -> bool {
        self.updated.flags & self.request.rules.flags.payload_fragmented != 0
    }

    /// The statement that sets the lock.
    pub open spec fn lock_plan(self) -> ImmutableStatement {
        ImmutableStatement::UpdateMetadata {
            hash: self.request.address.hash,
            updated: self.updated,
            expected: self.original,
        }
    }

    /// What follows once the lock is set, or could not be.
    pub open spec fn lock_set(self, reply: Result<u64, Fault>) -> ObliterateStepView {
        match metadata_updated(reply) {
            Ok(()) => if self.lists_parts() {
                ObliterateStepView::Fetch(self)
            } else {
                ObliterateStepView::Detach(self)
            },
            Err(e) => ended(Err(e), 0, 0),
        }
    }

    /// What follows once the payload was read, or could not be.
    pub open spec fn fetched(self, reply: Result<Seq<u8>, ObjectFault>) -> ObliterateStepView {
        let hash = self.request.address.hash;
        match reply {
            Ok(contents) => match payload_in(
                self.request.rules.force_write,
                contents,
                hash,
                self.original,
            ) {
                Ok(payload) => ObliterateStepView::Decode(self, payload),
                Err(e) => ended(Err(e), 0, 0),
            },
            Err(fault) => ended(Err(object_error(hash, fault)), 0, 0),
        }
    }

    /// The addresses of the listed fragments, all in the context of the one that lists them.
    pub open spec fn part_addresses(self, hashes: Seq<ContentHash>) -> Seq<Address> {
        Seq::new(
            hashes.len(),
            |i: int| Address { hash: hashes[i], context: self.request.address.context },
        )
    }

    /// What follows once the listed fragments are obliterated, or one of them could not be.
    /// One that nothing was heard of counts as one that could not be.
    pub open spec fn parts_done(
        self,
        parts: Seq<Address>,
        outcomes: Seq<PartOutcome>,
    ) -> ObliterateStepView {
        if outcomes.len() >= parts.len() && forall|i: int|
            0 <= i < outcomes.len() ==> (#[trigger] outcomes[i]) is Done {
            ObliterateStepView::Detach(self)
        } else {
            ended(Err(StoreError::Obliterate { address: self.request.address }), 0, 0)
        }
    }

    /// The statement that removes the association.
    pub open spec fn detach_plan(self) -> ImmutableStatement {
        ImmutableStatement::DeleteAssociation {
            hash: self.request.address.hash,
            repository: self.request.repository,
            context: self.request.address.context,
        }
    }

    /// What follows once the association is removed, or could not be.
    pub open spec fn detached(self, reply: Result<(), Fault>) -> ObliterateStepView {
        match reply {
            Ok(()) => ObliterateStepView::Count(self),
            Err(fault) => ended(
                Err(StoreError::of_fault(fault, SqlCall::DeleteAssociation)),
                0,
                0,
            ),
        }
    }

    /// What follows once the remaining associations were counted, or could not be.
    pub open spec fn counted(self, reply: Result<i64, Fault>) -> ObliterateStepView {
        match reply {
            Ok(count) => if count > 0 {
                ObliterateStepView::Restore(self)
            } else {
                ObliterateStepView::Delete(self)
            },
            Err(fault) => ended(
                Err(StoreError::of_fault(fault, SqlCall::CountAssociations)),
                1,
                0,
            ),
        }
    }

    /// The statement that restores the metadata.
    pub open spec fn restore_plan(self) -> ImmutableStatement {
        ImmutableStatement::UpdateMetadata {
            hash: self.request.address.hash,
            updated: self.original,
            expected: self.updated,
        }
    }

    /// What follows once the payload is deleted, or could not be.
    pub open spec fn deleted(self, reply: Result<(), String>) -> ObliterateStepView {
        match reply {
            Ok(()) => ObliterateStepView::Seal(self),
            Err(cause) => ended(
                Err(StoreError::Object { operation: ObjectCall::Delete, cause }),
                1,
                0,
            ),
        }
    }

    /// The metadata of an obliterated fragment.
    pub open spec fn sealed(self) -> Fragment {
        Fragment {
            flags: self.request.rules.flags.payload_obliterated,
            size_payload: 0,
            size_content: 0,
        }
    }

    /// The statement that marks the fragment as obliterated.
    pub open spec fn seal_plan(self) -> ImmutableStatement {
        ImmutableStatement::UpdateMetadata {
            hash: self.request.address.hash,
            updated: self.sealed(),
            expected: self.updated,
        }
    }
}

impl ObliterateRead {
    /// The statement to execute.
    pub fn statement(&self) -> (statement: ImmutableStatement)
        ensures
            statement == (ImmutableStatement::LoadMetadata { hash: self.request.address.hash }),
    {
        ImmutableStatement::LoadMetadata { hash: self.request.address.hash }
    }

    /// The next step, from the row that was found, if any. `verdict` is what the host says
    /// of the sizes in the row.
    pub fn reply(
        &self,
        reply: Result<Option<MetadataRow>, Fault>,
        verdict: Result<(), String>,
    ) -> (step: ObliterateStep)
        ensures
            step@ == self.request.metadata_read(
                size_validated(metadata_loaded(self.request.address.hash, reply), verdict),
            ),
    {
        let request = self.request;
        match metadata_with_size_validation(request.address.hash, reply, verdict) {
            Ok(original) => {
                if original.flags & request.rules.flags.payload_obliteration != 0 {
                    finish(Ok(()), 0, 0)
                } else {
                    let updated = Fragment {
                        flags: original.flags | request.rules.flags.payload_obliterating,
                        size_payload: original.size_payload,
                        size_content: original.size_content,
                    };
                    ObliterateStep::Lock(
                        ObliterateLock { at: Locked { request, original, updated } },
                    )
                }
            },
            Err(e) => finish(Err(e), 0, 0),
        }
    }
}

impl ObliterateLock {
    /// The statement to execute.
    pub fn statement(&self) -> (statement: ImmutableStatement)
        ensures
            statement == self.at.lock_plan(),
    {
        ImmutableStatement::UpdateMetadata {
            hash: self.at.request.address.hash,
            updated: self.at.updated,
            expected: self.at.original,
        }
    }

    /// The next step, from the number of rows that were changed.
    pub fn reply(&self, reply: Result<u64, Fault>) -> (step: ObliterateStep)
        ensures
            step@ == self.at.lock_set(reply),
    {
        match update_metadata_cas(reply) {
            Ok(()) => {
                if self.at.updated.flags & self.at.request.rules.flags.payload_fragmented != 0 {
                    ObliterateStep::Fetch(ObliterateFetch { at: self.at })
                } else {
                    ObliterateStep::Detach(ObliterateDetach { at: self.at })
                }
            },
            Err(e) => finish(Err(e), 0, 0),
        }
    }
}

impl ObliterateFetch {
    /// The key of the object to read.
    pub fn key(&self) -> (key: String)
        ensures
            key@ == object_key(self.at.request.address.hash),
    {
        hash_to_hex(self.at.request.address.hash)
    }

    /// The next step, from the contents of the object.
    pub fn reply(&self, reply: Result<ObjectContents, ObjectFault>) -> (step: ObliterateStep)
        ensures
            step@ == self.at.fetched(object_reply_view(reply)),
    {
        let hash = self.at.request.address.hash;
        match reply {
            Ok(contents) => {
                match read_payload(self.at.request.rules, contents, hash, self.at.original) {
                    Ok(payload) => ObliterateStep::Decode(
                        ObliterateDecode { at: self.at, payload },
                    ),
                    Err(e) => finish(Err(e), 0, 0),
                }
            },
            Err(fault) => finish(Err(object_failure(hash, fault)), 0, 0),
        }
    }
}

impl ObliterateDecode {
    /// The next step, from the hashes that the payload lists.
    pub fn reply(&self, hashes: &[ContentHash]) -> (step: ObliterateStep)
        ensures
            step@ == ObliterateStepView::Parts(self.at, self.at.part_addresses(hashes@)),
    {
        let mut parts: Vec<Address> = Vec::new();
        let mut i: usize = 0;
        while i < hashes.len()
            invariant
                0 <= i <= hashes@.len(),
                parts@ == self.at.part_addresses(hashes@).take(i as int),
            decreases hashes@.len() - i,
        {
            parts.push(Address { hash: hashes[i], context: self.at.request.address.context });
            i = i + 1;
            let ghost all = self.at.part_addresses(hashes@);
            assert(all.take(i as int) =~= all.take(i - 1).push(all[i - 1]));
        }
        let ghost all = self.at.part_addresses(hashes@);
        assert(all.take(i as int) =~= all);
        ObliterateStep::Parts(ObliterateParts { at: self.at, parts })
    }
}

impl ObliterateParts {
    /// The next step, from how the listed fragments have fared, each with an outcome of its
    /// own.
    pub fn reply(&self, outcomes: &[PartOutcome]) -> (step: ObliterateStep)
        ensures
            step@ == self.at.parts_done(self.parts@, outcomes@),
    {
        if outcomes.len() < self.parts.len() {
            return finish(
                Err(StoreError::Obliterate { address: self.at.request.address }),
                0,
                0,
            );
        }
        let mut i: usize = 0;
        while i < outcomes.len()
            invariant
                0 <= i <= outcomes@.len(),
                forall|j: int| 0 <= j < i ==> (#[trigger] outcomes@[j]) is Done,
            decreases outcomes@.len() - i,
        {
            match &outcomes[i] {
                PartOutcome::Done => {},
                _ => {
                    assert(!(outcomes@[i as int] is Done));
                    return finish(
                        Err(StoreError::Obliterate { address: self.at.request.address }),
                        0,
                        0,
                    );
                },
            }
            i = i + 1;
        }
        ObliterateStep::Detach(ObliterateDetach { at: self.at })
    }
}

impl ObliterateDetach {
    /// The statement to execute.
    pub fn statement(&self) -> (statement: ImmutableStatement)
        ensures
            statement == self.at.detach_plan(),
    {
        ImmutableStatement::DeleteAssociation {
            hash: self.at.request.address.hash,
            repository: self.at.request.repository,
            context: self.at.request.address.context,
        }
    }

    /// The next step, once the statement was executed.
    pub fn reply(&self, reply: Result<(), Fault>) -> (step: ObliterateStep)
        ensures
            step@ == self.at.detached(reply),
    {
        match reply {
            Ok(()) => ObliterateStep::Count(ObliterateCount { at: self.at }),
            Err(fault) => finish(
                Err(StoreError::from_fault(fault, SqlCall::DeleteAssociation)),
                0,
                0,
            ),
        }
    }
}

impl ObliterateCount {
    /// The statement to execute.
    pub fn statement(&self) -> (statement: ImmutableStatement)
        ensures
            statement == (ImmutableStatement::CountAssociations {
                hash: self.at.request.address.hash,
            }),
    {
        ImmutableStatement::CountAssociations { hash: self.at.request.address.hash }
    }

    /// The next step, from the number of associations.
    pub fn reply(&self, reply: Result<i64, Fault>) -> (step: ObliterateStep)
        ensures
            step@ == self.at.counted(reply),
    {
        match reply {
            Ok(count) => {
                if count > 0 {
                    ObliterateStep::Restore(ObliterateRestore { at: self.at })
                } else {
                    ObliterateStep::Delete(ObliterateDelete { at: self.at })
                }
            },
            Err(fault) => finish(
                Err(StoreError::from_fault(fault, SqlCall::CountAssociations)),
                1,
                0,
            ),
        }
    }
}

impl ObliterateRestore {
    /// The statement to execute.
    pub fn statement(&self) -> (statement: ImmutableStatement)
        ensures
            statement == self.at.restore_plan(),
    {
        ImmutableStatement::UpdateMetadata {
            hash: self.at.request.address.hash,
            updated: self.at.original,
            expected: self.at.updated,
        }
    }

    /// The end, from the number of rows that were changed.
    pub fn reply(&self, reply: Result<u64, Fault>) -> (step: ObliterateStep)
        ensures
            step@ == ended(metadata_updated(reply), 1, 0),
    {
        finish(update_metadata_cas(reply), 1, 0)
    }
}

impl ObliterateDelete {
    /// The key of the object to delete.
    pub fn key(&self) -> (key: String)
        ensures
            key@ == object_key(self.at.request.address.hash),
    {
        hash_to_hex(self.at.request.address.hash)
    }

    /// The next step, once the object is deleted, or could not be.
    pub fn reply(&self, reply: Result<(), String>) -> (step: ObliterateStep)
        ensures
            step@ == self.at.deleted(reply),
    {
        match reply {
            Ok(()) => ObliterateStep::Seal(ObliterateSeal { at: self.at }),
            Err(cause) => finish(
                Err(StoreError::Object { operation: ObjectCall::Delete, cause }),
                1,
                0,
            ),
        }
    }
}

impl ObliterateSeal {
    /// The statement to execute.
    pub fn statement(&self) -> (statement: ImmutableStatement)
        ensures
            statement == self.at.seal_plan(),
    {
        ImmutableStatement::UpdateMetadata {
            hash: self.at.request.address.hash,
            updated: Fragment {
                flags: self.at.request.rules.flags.payload_obliterated,
                size_payload: 0,
                size_content: 0,
            },
            expected: self.at.updated,
        }
    }

    /// The end, from the number of rows that were changed.
    pub fn reply(&self, reply: Result<u64, Fault>) -> (step: ObliterateStep)
        ensures
            step@ == ended(metadata_updated(reply), 1, 1),
    {
        finish(update_metadata_cas(reply), 1, 1)
    }
}

impl PgImmutableStore {
    /// Obliterates the fragment at an address: its association, and with the last one its
    /// payload.
    pub fn obliterate(&self, partition: Partition, address: Address) -> (step: ObliterateStep)
        ensures
            step@ == ObliterateStepView::Read(
                Obliterate { rules: self.spec_rules(), repository: partition, address },
            ),
    {
        ObliterateStep::Read(
            ObliterateRead {
                request: Obliterate { rules: self.rules(), repository: partition, address },
            },
        )
    }
}

} // verus!
