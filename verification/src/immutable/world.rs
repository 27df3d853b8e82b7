//! What the statements of the immutable store mean for its tables, and what becomes of an
//! operation that is followed from its first step to its end.
//!
//! The meaning given to a statement here is that of its SQL text, as
//! [`meaning`](crate::immutable::meaning) shows. Each step is answered from the tables and the
//! objects, with nobody else writing to them in the meantime; what a transaction has done
//! counts once it is committed.

use crate::error::StoreError;
use crate::immutable::get::{
    fragment_loaded, payload_checked, FragmentView, GetStepView, GetView, LoadStepView, LoadView,
};
use crate::immutable::lookup::{probe_for, ExistRequest, Probe, QueryStep, StoreQueryResult};
use crate::immutable::metadata::{row_of, MetadataRow};
use crate::immutable::payload::{object_key, ObjectFault};
use crate::immutable::put::{Association, CopyStep, PutStep};
use crate::immutable::statements::{ImmutableStatement, StoreRules};
use crate::outside::bytes_contents;
use crate::sql::Fault;
use crate::types::{Address, ContentHash, RepositoryId, StoreMatch};
use vstd::prelude::*;

verus! {

/// What is stored: the two tables, and the objects by their keys.
pub struct World {
    pub associations: Set<Association>,
    pub metadata: Map<ContentHash, MetadataRow>,
    pub objects: Map<Seq<char>, Seq<u8>>,
}

impl World {
    /// The tables are no larger than tables can be counted.
    pub open spec fn countable(self) -> bool {
        &&& self.associations.finite()
        &&& self.associations.len() <= i64::MAX
        &&& self.metadata.dom().finite()
        &&& self.metadata.dom().len() <= i64::MAX
    }

    /// The hash is associated with the repository and the context.
    pub open spec fn associated(self, repository: RepositoryId, address: Address) -> bool {
        self.associations.contains(Association { repository, address })
    }

    /// The hash is associated with the repository, in some context.
    pub open spec fn in_repository(self, repository: RepositoryId, hash: ContentHash) -> bool {
        exists|a: Association|
            #[trigger] self.associations.contains(a) && a.repository == repository
                && a.address.hash == hash
    }

    /// The hash is associated with something.
    pub open spec fn anywhere(self, hash: ContentHash) -> bool {
        exists|a: Association| #[trigger] self.associations.contains(a) && a.address.hash == hash
    }

    /// The answer to a question about associations.
    pub open spec fn found(self, statement: ImmutableStatement) -> bool {
        match statement {
            ImmutableStatement::ExistsExact { hash, repository, context } => self.associated(
                repository,
                Address { hash, context },
            ),
            ImmutableStatement::ExistsRepository { hash, repository } => self.in_repository(
                repository,
                hash,
            ),
            ImmutableStatement::ExistsHash { hash } => self.anywhere(hash),
            _ => false,
        }
    }

    /// The row of metadata of a hash.
    pub open spec fn row(self, hash: ContentHash) -> Option<MetadataRow> {
        if self.metadata.contains_key(hash) {
            Some(self.metadata[hash])
        } else {
            None
        }
    }

    /// The number of associations of a hash.
    pub open spec fn association_count(self, hash: ContentHash) -> nat {
        self.associations.filter(|a: Association| a.address.hash == hash).len()
    }

    /// The contents of the object of a hash.
    pub open spec fn object(self, hash: ContentHash) -> Result<Seq<u8>, ObjectFault> {
        if self.objects.contains_key(object_key(hash)) {
            Ok(self.objects[object_key(hash)])
        } else {
            Err(ObjectFault::NoSuchKey)
        }
    }

    /// The metadata of the hash is the expected one.
    pub open spec fn replaces(self, statement: ImmutableStatement) -> bool {
        match statement {
            ImmutableStatement::UpdateMetadata { hash, updated, expected } => self.row(hash)
                == Some(row_of(expected)),
            _ => false,
        }
    }

    /// The number of rows that a replacement of metadata changes.
    pub open spec fn changed(self, statement: ImmutableStatement) -> u64 {
        if self.replaces(statement) {
            1
        } else {
            0
        }
    }

    /// The tables after a statement.
    pub open spec fn after(self, statement: ImmutableStatement) -> World {
        match statement {
            ImmutableStatement::WriteMetadata { hash, fragment } => World {
                metadata: self.metadata.insert(hash, row_of(fragment)),
                ..self
            },
            ImmutableStatement::UpdateMetadata { hash, updated, .. } => if self.replaces(
                statement,
            ) {
                World { metadata: self.metadata.insert(hash, row_of(updated)), ..self }
            } else {
                self
            },
            ImmutableStatement::Associate { hash, repository, context } => World {
                associations: self.associations.insert(
                    Association { repository, address: Address { hash, context } },
                ),
                ..self
            },
            ImmutableStatement::DeleteAssociation { hash, repository, context } => World {
                associations: self.associations.remove(
                    Association { repository, address: Address { hash, context } },
                ),
                ..self
            },
            _ => self,
        }
    }

    /// What is stored once an object was written.
    pub open spec fn with_object(self, hash: ContentHash, contents: Seq<u8>) -> World {
        World { objects: self.objects.insert(object_key(hash), contents), ..self }
    }

    /// What is stored once an object was deleted.
    pub open spec fn without_object(self, hash: ContentHash) -> World {
        World { objects: self.objects.remove(object_key(hash)), ..self }
    }
}

/// The count of associations tells whether there is one.
pub proof fn count_tells(world: World, hash: ContentHash)
    requires
        world.countable(),
    ensures
        world.association_count(hash) <= i64::MAX,
        world.association_count(hash) > 0 <==> world.anywhere(hash),
{
    let f = |a: Association| a.address.hash == hash;
    let some = world.associations.filter(f);
    world.associations.lemma_len_filter(f);
    if some.len() == 0 {
        some.lemma_len0_is_empty();
        if world.anywhere(hash) {
            let a = choose|a: Association|
                #[trigger] world.associations.contains(a) && a.address.hash == hash;
            assert(some.contains(a));
        }
    } else if !world.anywhere(hash) {
        assert(some =~= Set::<Association>::empty());
    }
}

// ---------------------------------------------------------------------------
// Reading
// ---------------------------------------------------------------------------

/// The answer to a question whether an address is there.
pub open spec fn exist_on(
    world: World,
    repository: RepositoryId,
    address: Address,
    requested: StoreMatch,
) -> Result<StoreMatch, StoreError> {
    match probe_for(requested) {
        Some(probe) => (ExistRequest { repository, address, probe }).matched(
            Ok(world.found(probe.question(repository, address))),
        ),
        None => Ok(StoreMatch::MatchNone),
    }
}

/// A bound on the steps of a query that are still to come.
pub open spec fn query_rank(step: QueryStep) -> nat {
    match step {
        QueryStep::Probe(s) => match s.probe {
            Probe::Full => 4,
            Probe::Partition => 3,
            Probe::Hash => 2,
        },
        QueryStep::Metadata(_) => 1,
        QueryStep::Finish(_) => 0,
    }
}

/// The result of a query that is followed to its end.
pub open spec fn run_query(world: World, step: QueryStep) -> Result<StoreQueryResult, StoreError>
    decreases query_rank(step),
{
    match step {
        QueryStep::Probe(s) => run_query(
            world,
            s.answered(
                Ok(world.found(s.probe.question(s.query.repository, s.query.address))),
            ),
        ),
        QueryStep::Metadata(s) => s.answered(Ok(world.row(s.query.address.hash))),
        QueryStep::Finish(result) => result,
    }
}

/// An answer that comes in while a fragment is read.
pub enum GetEvent {
    Existence(Result<bool, Fault>),
    Metadata(Result<Option<MetadataRow>, Fault>, Result<(), String>),
    Object(Result<Seq<u8>, ObjectFault>),
}

impl GetStepView {
    /// The next step when an answer comes in; once the reading is over it is of no account.
    pub open spec fn deliver(self, event: GetEvent) -> GetStepView {
        match self {
            GetStepView::Wait(get) => match event {
                GetEvent::Existence(reply) => get.with_existence(reply),
                GetEvent::Metadata(reply, verdict) => get.with_metadata(reply, verdict),
                GetEvent::Object(reply) => get.with_object(reply),
            },
            GetStepView::Loading(load) => match event {
                GetEvent::Existence(_) => self,
                GetEvent::Metadata(reply, verdict) => load.with_metadata(
                    reply,
                    verdict,
                ).confirmed(),
                GetEvent::Object(reply) => load.with_object(reply).confirmed(),
            },
            _ => self,
        }
    }
}

/// What all three answers amount to: the question whether the address is there comes first,
/// then the metadata, then the object.
pub open spec fn get_settled(
    existence: ExistRequest,
    rules: StoreRules,
    found: Result<bool, Fault>,
    row: Result<Option<MetadataRow>, Fault>,
    verdict: Result<(), String>,
    object: Result<Seq<u8>, ObjectFault>,
) -> GetStepView {
    let load = LoadView { rules, hash: existence.address.hash, metadata: None, object: None };
    match existence.answered(found) {
        Err(e) => GetStepView::Finish(Err(e)),
        Ok(false) => GetStepView::Finish(
            Err(StoreError::AddressNotFound { address: existence.address }),
        ),
        Ok(true) => match load.metadata_from(row, verdict) {
            Err(e) => GetStepView::Finish(Err(e)),
            Ok(fragment) => match fragment_loaded(rules, load.hash, fragment, object) {
                Err(e) => GetStepView::Finish(Err(e)),
                Ok(loaded) => GetStepView::Check(loaded),
            },
        },
    }
}

/// Whatever the order in which the three answers come in, the reading comes to the same end.
pub proof fn get_order(
    existence: ExistRequest,
    rules: StoreRules,
    found: Result<bool, Fault>,
    row: Result<Option<MetadataRow>, Fault>,
    verdict: Result<(), String>,
    object: Result<Seq<u8>, ObjectFault>,
)
    ensures
        ({
            let start = GetStepView::Wait(
                GetView {
                    existence,
                    load: LoadStepView::Wait(
                        LoadView {
                            rules,
                            hash: existence.address.hash,
                            metadata: None,
                            object: None,
                        },
                    ),
                },
            );
            let e = GetEvent::Existence(found);
            let m = GetEvent::Metadata(row, verdict);
            let o = GetEvent::Object(object);
            let end = get_settled(existence, rules, found, row, verdict, object);
            &&& start.deliver(e).deliver(m).deliver(o) == end
            &&& start.deliver(e).deliver(o).deliver(m) == end
            &&& start.deliver(m).deliver(e).deliver(o) == end
            &&& start.deliver(m).deliver(o).deliver(e) == end
            &&& start.deliver(o).deliver(e).deliver(m) == end
            &&& start.deliver(o).deliver(m).deliver(e) == end
        }),
{
}

/// The result of reading at an address. The verdicts are the host's, on the sizes in the
/// metadata and on the payload.
pub open spec fn get_on(
    world: World,
    rules: StoreRules,
    repository: RepositoryId,
    address: Address,
    required: StoreMatch,
    sizes: Result<(), String>,
    payload: Result<(), String>,
) -> Result<FragmentView, StoreError> {
    match probe_for(required) {
        None => Err(StoreError::AddressNotFound { address }),
        Some(probe) => {
            let end = get_settled(
                ExistRequest { repository, address, probe },
                rules,
                Ok(world.found(probe.question(repository, address))),
                Ok(world.row(address.hash)),
                sizes,
                world.object(address.hash),
            );
            match end {
                GetStepView::Check(loaded) => payload_checked(loaded, payload),
                GetStepView::Finish(result) => result,
                _ => Err(StoreError::AddressNotFound { address }),
            }
        },
    }
}

// ---------------------------------------------------------------------------
// Writing
// ---------------------------------------------------------------------------

/// A bound on the steps of storing a fragment that are still to come.
pub open spec fn put_rank(step: PutStep) -> nat {
    match step {
        PutStep::Probe(s) => 10 + query_rank(QueryStep::Probe(s.query)),
        PutStep::Metadata(_) => 10,
        PutStep::Associate(_) => 1,
        PutStep::Object(_) => 5,
        PutStep::Begin(_) => 4,
        PutStep::Index(_) => 3,
        PutStep::AssociateIn(_) => 2,
        PutStep::Commit(_) => 1,
        PutStep::RollBack(_) => 0,
        PutStep::Finish(_) => 0,
    }
}

/// What becomes of a fragment that is to be stored: what is stored in the end, and the
/// result. `base` is what others see, `world` what the transaction sees.
pub open spec fn run_put(base: World, world: World, step: PutStep) -> (
    World,
    Result<(), StoreError>,
)
    decreases put_rank(step),
{
    match step {
        PutStep::Probe(s) => run_put(
            base,
            base,
            s.put.queried(
                s.query.answered(
                    Ok(
                        base.found(
                            s.query.probe.question(
                                s.query.query.repository,
                                s.query.query.address,
                            ),
                        ),
                    ),
                ),
            ),
        ),
        PutStep::Metadata(s) => run_put(
            base,
            base,
            s.put.decided(s.query.answered(Ok(base.row(s.query.query.address.hash)))),
        ),
        PutStep::Associate(s) => (base.after(s.plan()), s.made(Ok(()))),
        PutStep::Object(s) => {
            let written = base.with_object(
                s.association.address.hash,
                bytes_contents(s.payload),
            );
            run_put(written, written, s.stored(Ok(())))
        },
        PutStep::Begin(s) => run_put(base, base, s.begun(Ok(()))),
        PutStep::Index(s) => run_put(base, world.after(s.plan()), s.entered(Ok(()))),
        PutStep::AssociateIn(s) => run_put(
            base,
            world.after(s.association.plan()),
            s.entered(Ok(())),
        ),
        PutStep::Commit(s) => run_put(world, world, s.committed(Ok(()))),
        PutStep::RollBack(e) => (base, Err(e)),
        PutStep::Finish(result) => (base, result),
    }
}

/// A bound on the steps of a copy that are still to come.
pub open spec fn copy_rank(step: CopyStep) -> nat {
    match step {
        CopyStep::Probe(s) => 2 + query_rank(QueryStep::Probe(s.query)),
        CopyStep::Metadata(_) => 2,
        CopyStep::Associate(_) => 1,
        CopyStep::Finish(_) => 0,
    }
}

/// What becomes of a copy: what is stored in the end, and the result.
pub open spec fn run_copy(world: World, step: CopyStep) -> (World, Result<(), StoreError>)
    decreases copy_rank(step),
{
    match step {
        CopyStep::Probe(s) => run_copy(
            world,
            s.copy.queried(
                s.query.answered(
                    Ok(
                        world.found(
                            s.query.probe.question(
                                s.query.query.repository,
                                s.query.query.address,
                            ),
                        ),
                    ),
                ),
            ),
        ),
        CopyStep::Metadata(s) => run_copy(
            world,
            s.copy.decided(s.query.answered(Ok(world.row(s.query.query.address.hash)))),
        ),
        CopyStep::Associate(s) => (world.after(s.plan()), s.made(Ok(()))),
        CopyStep::Finish(result) => (world, result),
    }
}

} // verus!
