//! Storing fragments, and associating stored ones with other repositories and contexts.

use bytes::Bytes;
use crate::error::{ObjectCall, StoreError};
use crate::immutable::lookup::{
    Query, QueryMetadata, QueryProbe, QueryStep, StoreQueryResult,
};
use crate::immutable::metadata::MetadataRow;
use crate::immutable::payload::{hash_to_hex, object_key};
use crate::immutable::statements::{ImmutableStatement, PgImmutableStore, StoreRules};
use crate::outside::bytes_contents;
use crate::sql::{Fault, SqlCall};
use crate::types::{
    Address, Context, Fragment, FragmentFlags, Partition, RepositoryId, StoreMatch,
};
use vstd::prelude::*;

verus! {

// ---------------------------------------------------------------------------
// Associating
// ---------------------------------------------------------------------------

/// An association that is to be made, by a statement of its own.
#[derive(Clone, Copy, Debug, PartialEq, Eq)]
pub struct Association {
    pub repository: RepositoryId,
    pub address: Address,
}

impl Association {
    /// The statement that makes the association.
    pub open spec fn plan(self) -> ImmutableStatement {
        ImmutableStatement::Associate {
            hash: self.address.hash,
            repository: self.repository,
            context: self.address.context,
        }
    }

    /// The result, once the statement was executed.
    pub open spec fn made(self, reply: Result<(), Fault>) -> Result<(), StoreError> {
        match reply {
            Ok(()) => Ok(()),
            Err(fault) => Err(StoreError::of_fault(fault, SqlCall::AssociateFragment)),
        }
    }

    /// The statement to execute.
    pub fn statement(&self) -> (statement: ImmutableStatement)
        ensures
            statement == self.plan(),
    {
        ImmutableStatement::Associate {
            hash: self.address.hash,
            repository: self.repository,
            context: self.address.context,
        }
    }

    /// The result, once the statement was executed.
    pub fn reply(&self, reply: Result<(), Fault>) -> (result: Result<(), StoreError>)
        ensures
            result == self.made(reply),
    {
        match reply {
            Ok(()) => Ok(()),
            Err(fault) => Err(StoreError::from_fault(fault, SqlCall::AssociateFragment)),
        }
    }
}

// ---------------------------------------------------------------------------
// Storing
// ---------------------------------------------------------------------------

/// A fragment that is to be stored.
#[derive(Debug, PartialEq, Eq)]
pub struct Put {
    pub rules: StoreRules,
    pub repository: RepositoryId,
    pub address: Address,
    pub fragment: Fragment,
    pub payload: Option<Bytes>,
}

/// A fragment that is to be stored, while the table of associations is asked.
#[derive(Debug, PartialEq, Eq)]
pub struct PutProbe {
    pub put: Put,
    pub query: QueryProbe,
}

/// A fragment that is to be stored, while the stored metadata is asked for.
#[derive(Debug, PartialEq, Eq)]
pub struct PutMetadata {
    pub put: Put,
    pub query: QueryMetadata,
}

/// A fragment whose payload is to be written.
#[derive(Debug, PartialEq, Eq)]
pub struct PutObject {
    pub association: Association,
    pub fragment: Fragment,
    pub payload: Bytes,
}

/// A fragment whose payload is written, and which is to be entered into the tables.
#[derive(Clone, Copy, Debug, PartialEq, Eq)]
pub struct PutBegin {
    pub association: Association,
    pub fragment: Fragment,
}

/// A fragment whose metadata is to be entered.
#[derive(Clone, Copy, Debug, PartialEq, Eq)]
pub struct PutIndex {
    pub association: Association,
    pub fragment: Fragment,
}

/// A fragment whose metadata is entered, and which is to be associated.
#[derive(Clone, Copy, Debug, PartialEq, Eq)]
pub struct PutAssociate {
    pub association: Association,
}

/// A fragment that is entered into both tables, in a transaction that is to be committed.
#[derive(Clone, Copy, Debug, PartialEq, Eq)]
pub struct PutCommit {}

/// What is to be done next about a fragment that is to be stored.
#[derive(Debug, PartialEq, Eq)]
pub enum PutStep {
    /// Find out whether the fragment is associated already.
    Probe(PutProbe),
    /// Load the metadata that is stored already.
    Metadata(PutMetadata),
    /// Associate the fragment, by a statement of its own.
    Associate(Association),
    /// Write the payload to the object store.
    Object(PutObject),
    /// Open a transaction.
    Begin(PutBegin),
    /// Enter the metadata, in the transaction.
    Index(PutIndex),
    /// Associate the fragment, in the transaction.
    AssociateIn(PutAssociate),
    /// Commit the transaction.
    Commit(PutCommit),
    /// Roll the transaction back; the error is the result.
    RollBack(StoreError),
    /// The fragment is stored, or cannot be.
    Finish(Result<(), StoreError>),
}

/// All bits of a flag are set.
pub open spec fn has_flag(fragment: Fragment, flag: u32) -> bool {
    fragment.flags & flag == flag
}

impl Put {
    /// The query whose result decides.
    pub open spec fn query(self) -> Query {
        Query {
            repository: self.repository,
            address: self.address,
            hide_obliterates: false,
            flags: self.rules.flags,
        }
    }

    /// Why the fragment cannot be stored where this was found: it is just being obliterated,
    /// or it has other contents, which have not been obliterated.
    pub open spec fn refusal(self, found: StoreQueryResult) -> Option<StoreError> {
        if has_flag(found.fragment, self.rules.flags.payload_obliterating) {
            Some(StoreError::Obliterate { address: self.address })
        } else if found.match_made != StoreMatch::MatchNone && self.fragment.size_content
            != found.fragment.size_content && !has_flag(
            found.fragment,
            self.rules.flags.payload_obliterated,
        ) {
            Some(StoreError::HashCollision)
        } else {
            None
        }
    }

    /// The association of the fragment.
    pub open spec fn association(self) -> Association {
        Association { repository: self.repository, address: self.address }
    }

    /// The payload is to be written, if it has the size that the fragment states.
    pub open spec fn written(self, payload: Bytes) -> PutStep {
        if bytes_contents(payload).len() == self.fragment.size_payload {
            PutStep::Object(
                PutObject { association: self.association(), fragment: self.fragment, payload },
            )
        } else {
            PutStep::Finish(Err(StoreError::PayloadSize { hash: self.address.hash }))
        }
    }

    /// What is missing for the match that was found.
    pub open spec fn completed(self, found: StoreMatch) -> PutStep {
        match found {
            StoreMatch::MatchFull => PutStep::Finish(Ok(())),
            StoreMatch::MatchPartition => PutStep::Associate(self.association()),
            StoreMatch::MatchHash => match self.payload {
                Some(_) => PutStep::Associate(self.association()),
                None => PutStep::Finish(Err(StoreError::PayloadRequired)),
            },
            StoreMatch::MatchNone => match self.payload {
                Some(payload) => self.written(payload),
                None => PutStep::Finish(Err(StoreError::PayloadRequired)),
            },
        }
    }

    /// What follows from the result of the query. A query that failed counts as one that
    /// has found nothing, and so does every query where writing is forced.
    pub open spec fn decided(self, result: Result<StoreQueryResult, StoreError>) -> PutStep {
        match result {
            Ok(found) => if self.rules.force_write {
                self.completed(StoreMatch::MatchNone)
            } else {
                match self.refusal(found) {
                    Some(e) => PutStep::Finish(Err(e)),
                    None => self.completed(found.match_made),
                }
            },
            Err(_) => self.completed(StoreMatch::MatchNone),
        }
    }

    /// What follows from a step of the query.
    pub open spec fn queried(self, step: QueryStep) -> PutStep {
        match step {
            QueryStep::Probe(query) => PutStep::Probe(PutProbe { put: self, query }),
            QueryStep::Metadata(query) => PutStep::Metadata(PutMetadata { put: self, query }),
            QueryStep::Finish(result) => self.decided(result),
        }
    }

    fn complete(self, found: StoreMatch) -> (step: PutStep)
        ensures
            step == self.completed(found),
    {
        let association = Association { repository: self.repository, address: self.address };
        match found {
            StoreMatch::MatchFull => PutStep::Finish(Ok(())),
            StoreMatch::MatchPartition => PutStep::Associate(association),
            StoreMatch::MatchHash => match self.payload {
                Some(_) => PutStep::Associate(association),
                None => PutStep::Finish(Err(StoreError::PayloadRequired)),
            },
            StoreMatch::MatchNone => match self.payload {
                Some(payload) => {
                    if payload.len() == self.fragment.size_payload as usize {
                        PutStep::Object(
                            PutObject { association, fragment: self.fragment, payload },
                        )
                    } else {
                        PutStep::Finish(Err(StoreError::PayloadSize { hash: self.address.hash }))
                    }
                },
                None => PutStep::Finish(Err(StoreError::PayloadRequired)),
            },
        }
    }

    /// What is to be done, given the result of the query.
    pub fn decide(self, result: Result<StoreQueryResult, StoreError>) -> (step: PutStep)
        ensures
            step == self.decided(result),
    {
        let found = match result {
            Ok(found) => found,
            Err(_) => {
                return self.complete(StoreMatch::MatchNone);
            },
        };
        if self.rules.force_write {
            return self.complete(StoreMatch::MatchNone);
        }
        let flags = self.rules.flags;
        if found.fragment.flags & flags.payload_obliterating == flags.payload_obliterating {
            return PutStep::Finish(Err(StoreError::Obliterate { address: self.address }));
        }
        if found.match_made != StoreMatch::MatchNone && self.fragment.size_content
            != found.fragment.size_content && found.fragment.flags & flags.payload_obliterated
            != flags.payload_obliterated {
            return PutStep::Finish(Err(StoreError::HashCollision));
        }
        self.complete(found.match_made)
    }

    fn follow(self, step: QueryStep) -> (next: PutStep)
        ensures
            next == self.queried(step),
    {
        match step {
            QueryStep::Probe(query) => PutStep::Probe(PutProbe { put: self, query }),
            QueryStep::Metadata(query) => PutStep::Metadata(PutMetadata { put: self, query }),
            QueryStep::Finish(result) => self.decide(result),
        }
    }
}

impl PutProbe {
    /// The statement to execute.
    pub fn statement(&self) -> (statement: ImmutableStatement)
        ensures
            statement == self.query.probe.question(
                self.query.query.repository,
                self.query.query.address,
            ),
    {
        self.query.statement()
    }

    /// The next step, from whether a row was found.
    pub fn reply(self, reply: Result<bool, Fault>) -> (step: PutStep)
        ensures
            step == self.put.queried(self.query.answered(reply)),
    {
        let step = self.query.reply(reply);
        self.put.follow(step)
    }
}

impl PutMetadata {
    /// The statement to execute.
    pub fn statement(&self) -> (statement: ImmutableStatement)
        ensures
            statement == (ImmutableStatement::LoadMetadata { hash: self.query.query.address.hash }),
    {
        self.query.statement()
    }

    /// The next step, from the row that was found, if any.
    pub fn reply(self, reply: Result<Option<MetadataRow>, Fault>) -> (step: PutStep)
        ensures
            step == self.put.decided(self.query.answered(reply)),
    {
        let result = self.query.reply(reply);
        self.put.decide(result)
    }
}

impl PutObject {
    /// What follows once the payload was written, or could not be.
    pub open spec fn stored(self, reply: Result<(), String>) -> PutStep {
        match reply {
            Ok(()) => PutStep::Begin(
                PutBegin { association: self.association, fragment: self.fragment },
            ),
            Err(cause) => PutStep::Finish(
                Err(StoreError::Object { operation: ObjectCall::Put, cause }),
            ),
        }
    }

    /// The key of the object to write.
    pub fn key(&self) -> (key: String)
        ensures
            key@ == object_key(self.association.address.hash),
    {
        hash_to_hex(self.association.address.hash)
    }

    /// The next step, once the payload was written, or could not be.
    pub fn reply(&self, reply: Result<(), String>) -> (step: PutStep)
        ensures
            step == self.stored(reply),
    {
        match reply {
            Ok(()) => PutStep::Begin(
                PutBegin { association: self.association, fragment: self.fragment },
            ),
            Err(cause) => PutStep::Finish(
                Err(StoreError::Object { operation: ObjectCall::Put, cause }),
            ),
        }
    }
}

impl PutBegin {
    /// What follows once there is a transaction, or none could be had.
    pub open spec fn begun(self, reply: Result<(), Fault>) -> PutStep {
        match reply {
            Ok(()) => PutStep::Index(
                PutIndex { association: self.association, fragment: self.fragment },
            ),
            Err(fault) => PutStep::Finish(Err(StoreError::of_fault(fault, SqlCall::Begin))),
        }
    }

    /// The next step, once there is a transaction, or none could be had.
    pub fn reply(&self, reply: Result<(), Fault>) -> (step: PutStep)
        ensures
            step == self.begun(reply),
    {
        match reply {
            Ok(()) => PutStep::Index(
                PutIndex { association: self.association, fragment: self.fragment },
            ),
            Err(fault) => PutStep::Finish(Err(StoreError::from_fault(fault, SqlCall::Begin))),
        }
    }
}

impl PutIndex {
    /// The statement that enters the metadata.
    pub open spec fn plan(self) -> ImmutableStatement {
        ImmutableStatement::WriteMetadata {
            hash: self.association.address.hash,
            fragment: self.fragment,
        }
    }

    /// What follows once the metadata is entered, or could not be.
    pub open spec fn entered(self, reply: Result<(), String>) -> PutStep {
        match reply {
            Ok(()) => PutStep::AssociateIn(PutAssociate { association: self.association }),
            Err(cause) => PutStep::RollBack(
                StoreError::Sql { call: SqlCall::WriteMetadata, cause },
            ),
        }
    }

    /// The statement to execute.
    pub fn statement(&self) -> (statement: ImmutableStatement)
        ensures
            statement == self.plan(),
    {
        ImmutableStatement::WriteMetadata {
            hash: self.association.address.hash,
            fragment: self.fragment,
        }
    }

    /// The next step, once the metadata is entered, or could not be.
    pub fn reply(&self, reply: Result<(), String>) -> (step: PutStep)
        ensures
            step == self.entered(reply),
    {
        match reply {
            Ok(()) => PutStep::AssociateIn(PutAssociate { association: self.association }),
            Err(cause) => PutStep::RollBack(
                StoreError::Sql { call: SqlCall::WriteMetadata, cause },
            ),
        }
    }
}

impl PutAssociate {
    /// What follows once the fragment is associated, or could not be.
    pub open spec fn entered(self, reply: Result<(), String>) -> PutStep {
        match reply {
            Ok(()) => PutStep::Commit(PutCommit {  }),
            Err(cause) => PutStep::RollBack(
                StoreError::Sql { call: SqlCall::AssociateFragment, cause },
            ),
        }
    }

    /// The statement to execute.
    pub fn statement(&self) -> (statement: ImmutableStatement)
        ensures
            statement == self.association.plan(),
    {
        self.association.statement()
    }

    /// The next step, once the fragment is associated, or could not be.
    pub fn reply(&self, reply: Result<(), String>) -> (step: PutStep)
        ensures
            step == self.entered(reply),
    {
        match reply {
            Ok(()) => PutStep::Commit(PutCommit {  }),
            Err(cause) => PutStep::RollBack(
                StoreError::Sql { call: SqlCall::AssociateFragment, cause },
            ),
        }
    }
}

impl PutCommit {
    /// The result, once the transaction is committed, or could not be.
    pub open spec fn committed(self, reply: Result<(), String>) -> PutStep {
        match reply {
            Ok(()) => PutStep::Finish(Ok(())),
            Err(cause) => PutStep::Finish(
                Err(StoreError::Sql { call: SqlCall::Commit, cause }),
            ),
        }
    }

    /// The result, once the transaction is committed, or could not be.
    pub fn reply(&self, reply: Result<(), String>) -> (step: PutStep)
        ensures
            step == self.committed(reply),
    {
        match reply {
            Ok(()) => PutStep::Finish(Ok(())),
            Err(cause) => PutStep::Finish(
                Err(StoreError::Sql { call: SqlCall::Commit, cause }),
            ),
        }
    }
}

// ---------------------------------------------------------------------------
// Copying
// ---------------------------------------------------------------------------

/// A fragment that is to be associated with another repository and context.
#[derive(Clone, Copy, Debug, PartialEq, Eq)]
pub struct CopyRequest {
    pub source: Address,
    pub destination: Association,
}

/// A copy, while the table of associations is asked for the source.
#[derive(Clone, Copy, Debug, PartialEq, Eq)]
pub struct CopyProbe {
    pub copy: CopyRequest,
    pub query: QueryProbe,
}

/// A copy, while the metadata of the source is asked for.
#[derive(Clone, Copy, Debug, PartialEq, Eq)]
pub struct CopyMetadata {
    pub copy: CopyRequest,
    pub query: QueryMetadata,
}

/// What is to be done next about a copy.
#[derive(Debug, PartialEq, Eq)]
pub enum CopyStep {
    /// Find out whether the source is there.
    Probe(CopyProbe),
    /// Load the metadata of the source.
    Metadata(CopyMetadata),
    /// Associate the fragment with the destination.
    Associate(Association),
    /// The copy is done, or cannot be made.
    Finish(Result<(), StoreError>),
}

impl CopyRequest {
    /// What follows from the result of the query for the source.
    pub open spec fn decided(self, result: Result<StoreQueryResult, StoreError>) -> CopyStep {
        match result {
            Ok(found) => if found.match_made == StoreMatch::MatchFull {
                CopyStep::Associate(self.destination)
            } else {
                CopyStep::Finish(Err(StoreError::AddressNotFound { address: self.source }))
            },
            Err(e) => CopyStep::Finish(Err(e)),
        }
    }

    /// What follows from a step of the query for the source.
    pub open spec fn queried(self, step: QueryStep) -> CopyStep {
        match step {
            QueryStep::Probe(query) => CopyStep::Probe(CopyProbe { copy: self, query }),
            QueryStep::Metadata(query) => CopyStep::Metadata(CopyMetadata { copy: self, query }),
            QueryStep::Finish(result) => self.decided(result),
        }
    }

    /// What is to be done, given the result of the query for the source.
    pub fn decide(&self, result: Result<StoreQueryResult, StoreError>) -> (step: CopyStep)
        ensures
            step == self.decided(result),
    {
        match result {
            Ok(found) => {
                if found.match_made == StoreMatch::MatchFull {
                    CopyStep::Associate(self.destination)
                } else {
                    CopyStep::Finish(Err(StoreError::AddressNotFound { address: self.source }))
                }
            },
            Err(e) => CopyStep::Finish(Err(e)),
        }
    }

    fn follow(&self, step: QueryStep) -> (next: CopyStep)
        ensures
            next == self.queried(step),
    {
        match step {
            QueryStep::Probe(query) => CopyStep::Probe(CopyProbe { copy: *self, query }),
            QueryStep::Metadata(query) => CopyStep::Metadata(CopyMetadata { copy: *self, query }),
            QueryStep::Finish(result) => self.decide(result),
        }
    }
}

impl CopyProbe {
    /// The statement to execute.
    pub fn statement(&self) -> (statement: ImmutableStatement)
        ensures
            statement == self.query.probe.question(
                self.query.query.repository,
                self.query.query.address,
            ),
    {
        self.query.statement()
    }

    /// The next step, from whether a row was found.
    pub fn reply(&self, reply: Result<bool, Fault>) -> (step: CopyStep)
        ensures
            step == self.copy.queried(self.query.answered(reply)),
    {
        let step = self.query.reply(reply);
        self.copy.follow(step)
    }
}

impl CopyMetadata {
    /// The statement to execute.
    pub fn statement(&self) -> (statement: ImmutableStatement)
        ensures
            statement == (ImmutableStatement::LoadMetadata { hash: self.query.query.address.hash }),
    {
        self.query.statement()
    }

    /// The next step, from the row that was found, if any.
    pub fn reply(&self, reply: Result<Option<MetadataRow>, Fault>) -> (step: CopyStep)
        ensures
            step == self.copy.decided(self.query.answered(reply)),
    {
        let result = self.query.reply(reply);
        self.copy.decide(result)
    }
}

/// What the host is asked about a fragment that is to be stored.
#[derive(Clone, Copy, Debug, PartialEq, Eq)]
pub enum PutCheck {
    /// Whether its sizes are valid in themselves.
    Sizes,
    /// Whether they are valid for a payload of this many bytes.
    Payload(usize),
}

/// A fragment that is to be stored, given the host's verdict on it.
pub open spec fn put_started(
    rules: StoreRules,
    partition: Partition,
    address: Address,
    checked: Result<Fragment, String>,
    payload: Option<Bytes>,
) -> PutStep {
    match checked {
        Ok(fragment) => {
            let put = Put { rules, repository: partition, address, fragment, payload };
            put.queried(put.query().started(StoreMatch::MatchFull))
        },
        Err(cause) => PutStep::Finish(Err(StoreError::Invalid { cause })),
    }
}

/// A copy, before anything is known of its source.
pub open spec fn copy_started(
    flags: FragmentFlags,
    source_partition: Partition,
    source: Address,
    destination_partition: Partition,
    destination_context: Context,
) -> CopyStep {
    let copy = CopyRequest {
        source,
        destination: Association {
            repository: destination_partition,
            address: Address { hash: source.hash, context: destination_context },
        },
    };
    let query = Query {
        repository: source_partition,
        address: source,
        hide_obliterates: false,
        flags,
    };
    copy.queried(query.started(StoreMatch::MatchFull))
}

impl PgImmutableStore {
    /// What the host is to be asked about a fragment before it is stored: about its payload
    /// where there is one, about its sizes alone where there is none.
    pub fn put_check(&self, payload: &Option<Bytes>) -> (check: PutCheck)
        ensures
            match *payload {
                Some(payload) => check matches PutCheck::Payload(len) && len == bytes_contents(
                    payload,
                ).len(),
                None => check == PutCheck::Sizes,
            },
    {
        match payload {
            Some(payload) => PutCheck::Payload(payload.len()),
            None => PutCheck::Sizes,
        }
    }

    /// Stores a fragment. `checked` is the fragment as the host lets it pass, or why it does
    /// not: without flags that only concern behaviour, and with sizes that hold against what
    /// [`PgImmutableStore::put_check`] says to ask.
    pub fn put(
        &self,
        partition: Partition,
        address: Address,
        checked: Result<Fragment, String>,
        payload: Option<Bytes>,
        _force: bool,
    ) -> (step: PutStep)
        ensures
            step == put_started(self.spec_rules(), partition, address, checked, payload),
    {
        match checked {
            Ok(fragment) => {
                let rules = self.rules();
                let query = Query {
                    repository: partition,
                    address,
                    hide_obliterates: false,
                    flags: rules.flags,
                };
                let put = Put { rules, repository: partition, address, fragment, payload };
                put.follow(query.start(StoreMatch::MatchFull))
            },
            Err(cause) => PutStep::Finish(Err(StoreError::Invalid { cause })),
        }
    }

    /// Associates the fragment at an address with another repository and context.
    pub fn copy(
        &self,
        source_partition: Partition,
        source_address: Address,
        destination_partition: Partition,
        destination_context: Context,
        _durable: bool,
    ) -> (step: CopyStep)
        ensures
            step == copy_started(
                self.spec_rules().flags,
                source_partition,
                source_address,
                destination_partition,
                destination_context,
            ),
    {
        let copy = CopyRequest {
            source: source_address,
            destination: Association {
                repository: destination_partition,
                address: Address { hash: source_address.hash, context: destination_context },
            },
        };
        let query = Query {
            repository: source_partition,
            address: source_address,
            hide_obliterates: false,
            flags: self.rules().flags,
        };
        copy.follow(query.start(StoreMatch::MatchFull))
    }
}

} // verus!
