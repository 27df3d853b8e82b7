//! What comes of the calls to the immutable store, once the steps that they lead to are
//! carried out.
//!
//! Each step is asked for its call, the call is made on what is stored, and the step is told
//! the answer; so it goes on until there is a result.

use bytes::Bytes;
use crate::error::StoreError;
use crate::immutable::get::{
    fragment_view, object_reply_view, FragmentView, Get, GetCheck, GetStep, GetStepView, Load,
    LoadStep,
};
use crate::immutable::lookup::{
    counted, pair_rows_view, BatchExact, BatchInexact, BatchStep, ExistRequest, ExistStep, Probe,
    Query, QueryMetadata, QueryProbe, QueryStep, StoreQueryResult,
};
use crate::immutable::metadata::{fragment_of, obliteration, MetadataRow};
use crate::immutable::payload::{object_key, ObjectContents, ObjectFault};
use crate::immutable::put::{
    Association, CopyMetadata, CopyProbe, CopyStep, Put, PutAssociate, PutBegin, PutCheck,
    PutCommit, PutIndex, PutMetadata, PutObject, PutProbe, PutStep,
};
use crate::immutable::statements::{ImmutableStatement, PgImmutableStore, StoreRules};
use crate::immutable::storing::{
    answered_at, batch_answered, batch_exact_agrees, batch_inexact_agrees, best_match,
    copy_associates, copy_of_nothing, copy_on, probes_answered, put_on, query_exact, stored,
};
use crate::immutable::world::{
    get_on, get_order, run_copy, run_put, run_query, GetEvent, World,
};
use crate::outside::bytes_contents;
use crate::sql::{Fault, SqlCall};
use crate::types::{
    zero_context, Address, Context, Fragment, Partition, RepositoryId, StoreMatch,
};
use vstd::prelude::*;

verus! {

/// The row of metadata that a statement asks for.
pub open spec fn row_asked_for(world: World, statement: ImmutableStatement) -> Option<MetadataRow> {
    match statement {
        ImmutableStatement::LoadMetadata { hash } => world.row(hash),
        _ => None,
    }
}

/// The contents of the object with a key.
pub open spec fn object_at(world: World, key: Seq<char>) -> Result<Seq<u8>, ObjectFault> {
    if world.objects.contains_key(key) {
        Ok(world.objects[key])
    } else {
        Err(ObjectFault::NoSuchKey)
    }
}

/// The address is there, to the extent that is asked for.
pub open spec fn there(
    world: World,
    repository: RepositoryId,
    address: Address,
    requested: StoreMatch,
) -> bool {
    match requested {
        StoreMatch::MatchFull => world.associated(repository, address),
        StoreMatch::MatchPartition => world.in_repository(repository, address.hash),
        StoreMatch::MatchHash => world.anywhere(address.hash),
        StoreMatch::MatchNone => false,
    }
}

// ---------------------------------------------------------------------------
// Existence
// ---------------------------------------------------------------------------

/// A question whether an address is there comes to this result.
pub open spec fn exist_leads(
    world: World,
    step: ExistStep,
    result: Result<StoreMatch, StoreError>,
) -> bool {
    match step {
        ExistStep::Probe(s) => exists|statement: ImmutableStatement|
            {
                &&& #[trigger] call_ensures(ExistRequest::statement, (&s,), statement)
                &&& call_ensures(
                    ExistRequest::reply,
                    (&s, Ok::<bool, Fault>(world.found(statement))),
                    result,
                )
            },
        ExistStep::Finish(known) => result == known,
    }
}

/// What is said to exist is what is there: the match that was asked for, or none.
pub proof fn exist_tells(
    store: PgImmutableStore,
    world: World,
    partition: Partition,
    address: Address,
    requested: StoreMatch,
    step: ExistStep,
    result: Result<StoreMatch, StoreError>,
)
    requires
        call_ensures(PgImmutableStore::exist, (&store, partition, address, requested), step),
        exist_leads(world, step, result),
    ensures
        result == Ok::<StoreMatch, StoreError>(
            if there(world, partition, address, requested) {
                requested
            } else {
                StoreMatch::MatchNone
            },
        ),
{
}

// ---------------------------------------------------------------------------
// Queries
// ---------------------------------------------------------------------------

/// A query comes to this result, by at most as many calls.
pub open spec fn query_leads(
    world: World,
    step: QueryStep,
    calls: nat,
    result: Result<StoreQueryResult, StoreError>,
) -> bool
    decreases calls,
{
    match step {
        QueryStep::Probe(s) => calls > 0 && exists|statement: ImmutableStatement, next: QueryStep|
            {
                &&& #[trigger] call_ensures(QueryProbe::statement, (&s,), statement)
                &&& #[trigger] call_ensures(
                    QueryProbe::reply,
                    (&s, Ok::<bool, Fault>(world.found(statement))),
                    next,
                )
                &&& query_leads(world, next, (calls - 1) as nat, result)
            },
        QueryStep::Metadata(s) => exists|statement: ImmutableStatement|
            {
                &&& #[trigger] call_ensures(QueryMetadata::statement, (&s,), statement)
                &&& call_ensures(
                    QueryMetadata::reply,
                    (&s, Ok::<Option<MetadataRow>, Fault>(row_asked_for(world, statement))),
                    result,
                )
            },
        QueryStep::Finish(known) => result == known,
    }
}

proof fn lemma_query_leads(
    world: World,
    step: QueryStep,
    calls: nat,
    result: Result<StoreQueryResult, StoreError>,
)
    requires
        query_leads(world, step, calls, result),
    ensures
        result == run_query(world, step),
    decreases calls,
{
    if let QueryStep::Probe(s) = step {
        let (statement, next) = choose|statement: ImmutableStatement, next: QueryStep|
            {
                &&& #[trigger] call_ensures(QueryProbe::statement, (&s,), statement)
                &&& #[trigger] call_ensures(
                    QueryProbe::reply,
                    (&s, Ok::<bool, Fault>(world.found(statement))),
                    next,
                )
                &&& query_leads(world, next, (calls - 1) as nat, result)
            };
        lemma_query_leads(world, next, (calls - 1) as nat, result);
    }
}

/// A query makes the best match there is. What it finds is the metadata of the hash; a
/// fragment that is being obliterated, or has been, counts as not there.
pub proof fn query_tells(
    store: PgImmutableStore,
    world: World,
    partition: Partition,
    address: Address,
    requested: StoreMatch,
    step: QueryStep,
    calls: nat,
    result: Result<StoreQueryResult, StoreError>,
)
    requires
        call_ensures(PgImmutableStore::query, (&store, partition, address, requested), step),
        query_leads(world, step, calls, result),
    ensures
        ({
            let best = best_match(world, partition, address, requested);
            let nothing = StoreQueryResult {
                fragment: Fragment { flags: 0, size_payload: 0, size_content: 0 },
                match_made: StoreMatch::MatchNone,
            };
            result == if best == StoreMatch::MatchNone {
                Ok::<StoreQueryResult, StoreError>(nothing)
            } else {
                match world.row(address.hash) {
                    Some(row) => Ok(
                        if obliteration(store.spec_rules().flags, fragment_of(row)) {
                            nothing
                        } else {
                            StoreQueryResult { fragment: fragment_of(row), match_made: best }
                        },
                    ),
                    None => Err(
                        StoreError::Metadata {
                            inner: Box::new(
                                StoreError::AddressNotFound {
                                    address: Address {
                                        hash: address.hash,
                                        context: zero_context(),
                                    },
                                },
                            ),
                        },
                    ),
                }
            }
        }),
{
    lemma_query_leads(world, step, calls, result);
    query_exact(
        world,
        Query {
            repository: partition,
            address,
            hide_obliterates: true,
            flags: store.spec_rules().flags,
        },
        requested,
    );
}

// ---------------------------------------------------------------------------
// Storing
// ---------------------------------------------------------------------------

/// A fragment that is to be stored comes to this end, by at most as many calls: what is
/// stored then, and the result. `base` is what others see, `world` what the transaction sees.
pub open spec fn put_leads(
    base: World,
    world: World,
    step: PutStep,
    calls: nat,
    after: World,
    result: Result<(), StoreError>,
) -> bool
    decreases calls,
{
    let left = (calls - 1) as nat;
    match step {
        PutStep::Probe(s) => calls > 0 && exists|statement: ImmutableStatement, next: PutStep|
            {
                &&& #[trigger] call_ensures(PutProbe::statement, (&s,), statement)
                &&& #[trigger] call_ensures(
                    PutProbe::reply,
                    (s, Ok::<bool, Fault>(base.found(statement))),
                    next,
                )
                &&& put_leads(base, base, next, left, after, result)
            },
        PutStep::Metadata(s) => calls > 0 && exists|statement: ImmutableStatement, next: PutStep|
            {
                &&& #[trigger] call_ensures(PutMetadata::statement, (&s,), statement)
                &&& #[trigger] call_ensures(
                    PutMetadata::reply,
                    (s, Ok::<Option<MetadataRow>, Fault>(row_asked_for(base, statement))),
                    next,
                )
                &&& put_leads(base, base, next, left, after, result)
            },
        PutStep::Associate(s) => exists|statement: ImmutableStatement|
            {
                &&& #[trigger] call_ensures(Association::statement, (&s,), statement)
                &&& call_ensures(Association::reply, (&s, Ok::<(), Fault>(())), result)
                &&& after == base.after(statement)
            },
        PutStep::Object(s) => calls > 0 && exists|key: String, next: PutStep|
            {
                let written = World {
                    objects: base.objects.insert(key@, bytes_contents(s.payload)),
                    ..base
                };
                &&& #[trigger] call_ensures(PutObject::key, (&s,), key)
                &&& #[trigger] call_ensures(PutObject::reply, (&s, Ok::<(), String>(())), next)
                &&& put_leads(written, written, next, left, after, result)
            },
        PutStep::Begin(s) => calls > 0 && exists|next: PutStep|
            {
                &&& #[trigger] call_ensures(PutBegin::reply, (&s, Ok::<(), Fault>(())), next)
                &&& put_leads(base, base, next, left, after, result)
            },
        PutStep::Index(s) => calls > 0 && exists|statement: ImmutableStatement, next: PutStep|
            {
                &&& #[trigger] call_ensures(PutIndex::statement, (&s,), statement)
                &&& #[trigger] call_ensures(PutIndex::reply, (&s, Ok::<(), String>(())), next)
                &&& put_leads(base, world.after(statement), next, left, after, result)
            },
        PutStep::AssociateIn(s) => calls > 0 && exists|statement: ImmutableStatement, next: PutStep|
            {
                &&& #[trigger] call_ensures(PutAssociate::statement, (&s,), statement)
                &&& #[trigger] call_ensures(PutAssociate::reply, (&s, Ok::<(), String>(())), next)
                &&& put_leads(base, world.after(statement), next, left, after, result)
            },
        PutStep::Commit(s) => calls > 0 && exists|next: PutStep|
            {
                &&& #[trigger] call_ensures(PutCommit::reply, (&s, Ok::<(), String>(())), next)
                &&& put_leads(world, world, next, left, after, result)
            },
        PutStep::RollBack(e) => after == base && result == Err::<(), StoreError>(e),
        PutStep::Finish(known) => after == base && result == known,
    }
}

#[verifier::rlimit(40)]
proof fn lemma_put_leads(
    base: World,
    world: World,
    step: PutStep,
    calls: nat,
    after: World,
    result: Result<(), StoreError>,
)
    requires
        put_leads(base, world, step, calls, after, result),
    ensures
        (after, result) == run_put(base, world, step),
    decreases calls,
{
    let left = (calls - 1) as nat;
    match step {
        PutStep::Probe(s) => {
            let (statement, next) = choose|statement: ImmutableStatement, next: PutStep|
                {
                    &&& #[trigger] call_ensures(PutProbe::statement, (&s,), statement)
                    &&& #[trigger] call_ensures(
                        PutProbe::reply,
                        (s, Ok::<bool, Fault>(base.found(statement))),
                        next,
                    )
                    &&& put_leads(base, base, next, left, after, result)
                };
            lemma_put_leads(base, base, next, left, after, result);
        },
        PutStep::Metadata(s) => {
            let (statement, next) = choose|statement: ImmutableStatement, next: PutStep|
                {
                    &&& #[trigger] call_ensures(PutMetadata::statement, (&s,), statement)
                    &&& #[trigger] call_ensures(
                        PutMetadata::reply,
                        (s, Ok::<Option<MetadataRow>, Fault>(row_asked_for(base, statement))),
                        next,
                    )
                    &&& put_leads(base, base, next, left, after, result)
                };
            lemma_put_leads(base, base, next, left, after, result);
        },
        PutStep::Associate(_) => {},
        PutStep::Object(s) => {
            let (key, next) = choose|key: String, next: PutStep|
                {
                    let written = World {
                        objects: base.objects.insert(key@, bytes_contents(s.payload)),
                        ..base
                    };
                    &&& #[trigger] call_ensures(PutObject::key, (&s,), key)
                    &&& #[trigger] call_ensures(PutObject::reply, (&s, Ok::<(), String>(())), next)
                    &&& put_leads(written, written, next, left, after, result)
                };
            let written = World {
                objects: base.objects.insert(key@, bytes_contents(s.payload)),
                ..base
            };
            lemma_put_leads(written, written, next, left, after, result);
        },
        PutStep::Begin(s) => {
            let next = choose|next: PutStep|
                {
                    &&& #[trigger] call_ensures(PutBegin::reply, (&s, Ok::<(), Fault>(())), next)
                    &&& put_leads(base, base, next, left, after, result)
                };
            lemma_put_leads(base, base, next, left, after, result);
        },
        PutStep::Index(s) => {
            let (statement, next) = choose|statement: ImmutableStatement, next: PutStep|
                {
                    &&& #[trigger] call_ensures(PutIndex::statement, (&s,), statement)
                    &&& #[trigger] call_ensures(PutIndex::reply, (&s, Ok::<(), String>(())), next)
                    &&& put_leads(base, world.after(statement), next, left, after, result)
                };
            lemma_put_leads(base, world.after(statement), next, left, after, result);
        },
        PutStep::AssociateIn(s) => {
            let (statement, next) = choose|statement: ImmutableStatement, next: PutStep|
                {
                    &&& #[trigger] call_ensures(PutAssociate::statement, (&s,), statement)
                    &&& #[trigger] call_ensures(
                        PutAssociate::reply,
                        (&s, Ok::<(), String>(())),
                        next,
                    )
                    &&& put_leads(base, world.after(statement), next, left, after, result)
                };
            lemma_put_leads(base, world.after(statement), next, left, after, result);
        },
        PutStep::Commit(s) => {
            let next = choose|next: PutStep|
                {
                    &&& #[trigger] call_ensures(PutCommit::reply, (&s, Ok::<(), String>(())), next)
                    &&& put_leads(world, world, next, left, after, result)
                };
            lemma_put_leads(world, world, next, left, after, result);
        },
        PutStep::RollBack(_) => {},
        PutStep::Finish(_) => {},
    }
}

/// A fragment that is stored by carrying out the steps is stored as [`put_on`] says, with the
/// rules of the store, under the address and in the repository that were given.
pub proof fn put_carried_out(
    store: PgImmutableStore,
    world: World,
    partition: Partition,
    address: Address,
    fragment: Fragment,
    payload: Option<Bytes>,
    force: bool,
    step: PutStep,
    calls: nat,
    after: World,
    result: Result<(), StoreError>,
)
    requires
        call_ensures(
            PgImmutableStore::put,
            (&store, partition, address, Ok::<Fragment, String>(fragment), payload, force),
            step,
        ),
        put_leads(world, world, step, calls, after, result),
    ensures
        (after, result) == put_on(
            world,
            Put {
                rules: store.spec_rules(),
                repository: partition,
                address,
                fragment,
                payload,
            },
        ),
{
    lemma_put_leads(world, world, step, calls, after, result);
}

/// A fragment that the host objects to is refused with its words, and nothing is stored.
pub proof fn put_objected(
    store: PgImmutableStore,
    world: World,
    partition: Partition,
    address: Address,
    cause: String,
    payload: Option<Bytes>,
    force: bool,
    step: PutStep,
    calls: nat,
    after: World,
    result: Result<(), StoreError>,
)
    requires
        call_ensures(
            PgImmutableStore::put,
            (&store, partition, address, Err::<Fragment, String>(cause), payload, force),
            step,
        ),
        put_leads(world, world, step, calls, after, result),
    ensures
        after == world,
        result == Err::<(), StoreError>(StoreError::Invalid { cause }),
{
}

// ---------------------------------------------------------------------------
// Copying
// ---------------------------------------------------------------------------

/// A copy comes to this end, by at most as many calls: what is stored then, and the result.
pub open spec fn copy_leads(
    world: World,
    step: CopyStep,
    calls: nat,
    after: World,
    result: Result<(), StoreError>,
) -> bool
    decreases calls,
{
    let left = (calls - 1) as nat;
    match step {
        CopyStep::Probe(s) => calls > 0 && exists|statement: ImmutableStatement, next: CopyStep|
            {
                &&& #[trigger] call_ensures(CopyProbe::statement, (&s,), statement)
                &&& #[trigger] call_ensures(
                    CopyProbe::reply,
                    (&s, Ok::<bool, Fault>(world.found(statement))),
                    next,
                )
                &&& copy_leads(world, next, left, after, result)
            },
        CopyStep::Metadata(s) => calls > 0 && exists|statement: ImmutableStatement, next: CopyStep|
            {
                &&& #[trigger] call_ensures(CopyMetadata::statement, (&s,), statement)
                &&& #[trigger] call_ensures(
                    CopyMetadata::reply,
                    (&s, Ok::<Option<MetadataRow>, Fault>(row_asked_for(world, statement))),
                    next,
                )
                &&& copy_leads(world, next, left, after, result)
            },
        CopyStep::Associate(s) => exists|statement: ImmutableStatement|
            {
                &&& #[trigger] call_ensures(Association::statement, (&s,), statement)
                &&& call_ensures(Association::reply, (&s, Ok::<(), Fault>(())), result)
                &&& after == world.after(statement)
            },
        CopyStep::Finish(known) => after == world && result == known,
    }
}

proof fn lemma_copy_leads(
    world: World,
    step: CopyStep,
    calls: nat,
    after: World,
    result: Result<(), StoreError>,
)
    requires
        copy_leads(world, step, calls, after, result),
    ensures
        (after, result) == run_copy(world, step),
    decreases calls,
{
    let left = (calls - 1) as nat;
    match step {
        CopyStep::Probe(s) => {
            let (statement, next) = choose|statement: ImmutableStatement, next: CopyStep|
                {
                    &&& #[trigger] call_ensures(CopyProbe::statement, (&s,), statement)
                    &&& #[trigger] call_ensures(
                        CopyProbe::reply,
                        (&s, Ok::<bool, Fault>(world.found(statement))),
                        next,
                    )
                    &&& copy_leads(world, next, left, after, result)
                };
            lemma_copy_leads(world, next, left, after, result);
        },
        CopyStep::Metadata(s) => {
            let (statement, next) = choose|statement: ImmutableStatement, next: CopyStep|
                {
                    &&& #[trigger] call_ensures(CopyMetadata::statement, (&s,), statement)
                    &&& #[trigger] call_ensures(
                        CopyMetadata::reply,
                        (&s, Ok::<Option<MetadataRow>, Fault>(row_asked_for(world, statement))),
                        next,
                    )
                    &&& copy_leads(world, next, left, after, result)
                };
            lemma_copy_leads(world, next, left, after, result);
        },
        _ => {},
    }
}

/// A copy that is made by carrying out the steps associates the hash with the destination, and
/// does nothing else; where there is no source, or one without metadata, it does nothing at all.
pub proof fn copy_carried_out(
    store: PgImmutableStore,
    world: World,
    source_partition: Partition,
    source: Address,
    partition: Partition,
    context: Context,
    durable: bool,
    step: CopyStep,
    calls: nat,
    after: World,
    result: Result<(), StoreError>,
)
    requires
        call_ensures(
            PgImmutableStore::copy,
            (&store, source_partition, source, partition, context, durable),
            step,
        ),
        copy_leads(world, step, calls, after, result),
    ensures
        stored(world, source_partition, source) ==> after == (World {
            associations: world.associations.insert(
                Association {
                    repository: partition,
                    address: Address { hash: source.hash, context },
                },
            ),
            ..world
        }) && result == Ok::<(), StoreError>(()),
        !world.associated(source_partition, source) ==> after == world && result == Err::<
            (),
            StoreError,
        >(StoreError::AddressNotFound { address: source }),
        world.associated(source_partition, source) && !world.metadata.contains_key(source.hash)
            ==> after == world && result == Err::<(), StoreError>(
            StoreError::Metadata {
                inner: Box::new(
                    StoreError::AddressNotFound {
                        address: Address { hash: source.hash, context: zero_context() },
                    },
                ),
            },
        ),
{
    reveal_with_fuel(run_copy, 4);
    lemma_copy_leads(world, step, calls, after, result);
    let flags = store.spec_rules().flags;
    assert((after, result) == copy_on(world, flags, source_partition, source, partition, context));
    if stored(world, source_partition, source) {
        copy_associates(world, flags, source_partition, source, partition, context);
    }
    if !world.associated(source_partition, source) {
        copy_of_nothing(world, flags, source_partition, source, partition, context);
    }
}

// ---------------------------------------------------------------------------
// Reading
// ---------------------------------------------------------------------------

/// What is read at an address. The address has to be there to the extent that is asked for,
/// the hash needs metadata that the host accepts and that is not marked by an obliteration,
/// and the payload, with a header of sixteen bytes in front of it or without, needs the size
/// that the metadata states.
pub open spec fn read_at(
    world: World,
    rules: StoreRules,
    repository: RepositoryId,
    address: Address,
    required: StoreMatch,
    sizes: Result<(), String>,
    verdict: Result<(), String>,
) -> Result<FragmentView, StoreError> {
    let gone = StoreError::AddressNotFound {
        address: Address { hash: address.hash, context: zero_context() },
    };
    if !there(world, repository, address, required) {
        Err(StoreError::AddressNotFound { address })
    } else if !world.metadata.contains_key(address.hash) {
        Err(gone)
    } else {
        let fragment = fragment_of(world.metadata[address.hash]);
        let key = object_key(address.hash);
        let contents = world.objects[key];
        let size = fragment.size_payload as int;
        if let Err(cause) = sizes {
            Err(StoreError::Invalid { cause })
        } else if obliteration(rules.flags, fragment) || !world.objects.contains_key(key) {
            Err(gone)
        } else if contents.len() != size && !(rules.force_write && contents.len() == size + 16) {
            Err(
                StoreError::LoadSize {
                    loaded: contents.len() as usize,
                    expected: fragment.size_payload as usize,
                    hash: address.hash,
                },
            )
        } else if let Err(cause) = verdict {
            Err(StoreError::Invalid { cause })
        } else {
            Ok((fragment, contents.subrange(contents.len() - size, contents.len() as int)))
        }
    }
}

/// What comes of a reading is what is there to be read.
pub proof fn get_exact(
    world: World,
    rules: StoreRules,
    repository: RepositoryId,
    address: Address,
    required: StoreMatch,
    sizes: Result<(), String>,
    verdict: Result<(), String>,
)
    ensures
        get_on(world, rules, repository, address, required, sizes, verdict) == read_at(
            world,
            rules,
            repository,
            address,
            required,
            sizes,
            verdict,
        ),
{
    if world.metadata.contains_key(address.hash) {
        let size = fragment_of(world.metadata[address.hash]).size_payload as int;
        let contents = world.objects[object_key(address.hash)];
        if contents.len() == size {
            assert(contents.subrange(0, size) =~= contents);
        } else if contents.len() == size + 16 {
            assert(contents.subrange(16, contents.len() as int) =~= contents.skip(16));
        }
    }
}

/// An answer to one of the three calls that are made to read a fragment.
pub enum GetAnswer {
    Existence(Result<bool, Fault>),
    Metadata(Result<Option<MetadataRow>, Fault>, Result<(), String>),
    Object(Result<ObjectContents, ObjectFault>),
}

impl View for GetAnswer {
    type V = GetEvent;

    open spec fn view(&self) -> GetEvent {
        match *self {
            GetAnswer::Existence(reply) => GetEvent::Existence(reply),
            GetAnswer::Metadata(reply, sizes) => GetEvent::Metadata(reply, sizes),
            GetAnswer::Object(reply) => GetEvent::Object(object_reply_view(reply)),
        }
    }
}

/// A reading that is told an answer comes to this step; once it is over it is told no more.
pub open spec fn told(step: GetStep, answer: GetAnswer, next: GetStep) -> bool {
    match step {
        GetStep::Wait(get) => match answer {
            GetAnswer::Existence(reply) => call_ensures(Get::existence, (get, reply), next),
            GetAnswer::Metadata(reply, sizes) => call_ensures(
                Get::metadata,
                (get, reply, sizes),
                next,
            ),
            GetAnswer::Object(reply) => call_ensures(Get::object, (get, reply), next),
        },
        GetStep::Loading(load) => match answer {
            GetAnswer::Existence(_) => next == step,
            GetAnswer::Metadata(reply, sizes) => exists|loaded: LoadStep|
                {
                    &&& #[trigger] call_ensures(Load::metadata, (load, reply, sizes), loaded)
                    &&& call_ensures(LoadStep::confirm, (loaded,), next)
                },
            GetAnswer::Object(reply) => exists|loaded: LoadStep|
                {
                    &&& #[trigger] call_ensures(Load::object, (load, reply), loaded)
                    &&& call_ensures(LoadStep::confirm, (loaded,), next)
                },
        },
        _ => next == step,
    }
}

proof fn lemma_told(step: GetStep, answer: GetAnswer, next: GetStep)
    requires
        told(step, answer, next),
    ensures
        next@ == step@.deliver(answer@),
{
}

/// Three answers are these three, in some order.
pub open spec fn in_some_order(
    answers: (GetAnswer, GetAnswer, GetAnswer),
    a: GetAnswer,
    b: GetAnswer,
    c: GetAnswer,
) -> bool {
    ||| answers == (a, b, c)
    ||| answers == (a, c, b)
    ||| answers == (b, a, c)
    ||| answers == (b, c, a)
    ||| answers == (c, a, b)
    ||| answers == (c, b, a)
}

/// The three calls of a reading are answered from what is stored.
pub open spec fn get_answered(
    world: World,
    get: Get,
    sizes: Result<(), String>,
    found: Result<bool, Fault>,
    row: Result<Option<MetadataRow>, Fault>,
    object: Result<ObjectContents, ObjectFault>,
) -> bool {
    exists|asked: ImmutableStatement, wanted: ImmutableStatement, key: String|
        {
            &&& #[trigger] call_ensures(Get::existence_statement, (&get,), asked)
            &&& #[trigger] call_ensures(Get::metadata_statement, (&get,), wanted)
            &&& #[trigger] call_ensures(Get::key, (&get,), key)
            &&& found == Ok::<bool, Fault>(world.found(asked))
            &&& row == Ok::<Option<MetadataRow>, Fault>(row_asked_for(world, wanted))
            &&& object_reply_view(object) == object_at(world, key@)
        }
}

/// Reading makes three calls, and in whatever order they are answered from what is stored,
/// what comes of it is what is there to be read.
pub proof fn get_carried_out(
    store: PgImmutableStore,
    world: World,
    partition: Partition,
    address: Address,
    required: StoreMatch,
    sizes: Result<(), String>,
    verdict: Result<(), String>,
    get: Get,
    found: Result<bool, Fault>,
    row: Result<Option<MetadataRow>, Fault>,
    object: Result<ObjectContents, ObjectFault>,
    answers: (GetAnswer, GetAnswer, GetAnswer),
    one: GetStep,
    two: GetStep,
    end: GetStep,
    result: Result<(Fragment, Bytes), StoreError>,
)
    requires
        required != StoreMatch::MatchNone,
        call_ensures(
            PgImmutableStore::get,
            (&store, partition, address, required),
            GetStep::Wait(get),
        ),
        get_answered(world, get, sizes, found, row, object),
        in_some_order(
            answers,
            GetAnswer::Existence(found),
            GetAnswer::Metadata(row, sizes),
            GetAnswer::Object(object),
        ),
        told(GetStep::Wait(get), answers.0, one),
        told(one, answers.1, two),
        told(two, answers.2, end),
        end matches GetStep::Check(check) ==> call_ensures(
            GetCheck::reply,
            (check, verdict),
            result,
        ),
        end matches GetStep::Finish(known) ==> result == known,
    ensures
        fragment_view(result) == read_at(
            world,
            store.spec_rules(),
            partition,
            address,
            required,
            sizes,
            verdict,
        ),
{
    lemma_told(GetStep::Wait(get), answers.0, one);
    lemma_told(one, answers.1, two);
    lemma_told(two, answers.2, end);
    let rules = store.spec_rules();
    get_order(get@.existence, rules, found, row, sizes, object_reply_view(object));
    get_exact(world, rules, partition, address, required, sizes, verdict);
}

/// Where no match is asked for, nothing is read.
pub proof fn get_nothing(
    store: PgImmutableStore,
    partition: Partition,
    address: Address,
    step: GetStep,
)
    requires
        call_ensures(
            PgImmutableStore::get,
            (&store, partition, address, StoreMatch::MatchNone),
            step,
        ),
    ensures
        step@ == GetStepView::Finish(
            Err(StoreError::AddressNotFound { address }),
        ),
{
}


// ---------------------------------------------------------------------------
// Batches and counts
// ---------------------------------------------------------------------------

/// A batch that asks for full matches says of each address, in order, whether it is there.
pub proof fn batch_exact_tells(
    store: PgImmutableStore,
    world: World,
    partition: Partition,
    addresses: &[Address],
    batch: BatchExact,
    rows: Vec<(Vec<u8>, Vec<u8>)>,
    matches: Result<Vec<StoreMatch>, StoreError>,
)
    requires
        call_ensures(
            PgImmutableStore::exist_batch,
            (&store, partition, addresses, StoreMatch::MatchFull),
            BatchStep::Exact(batch),
        ),
        batch_answered(world, batch.repository, batch.addresses@, pair_rows_view(rows@)),
        call_ensures(
            BatchExact::reply,
            (&batch, Ok::<Vec<(Vec<u8>, Vec<u8>)>, Fault>(rows)),
            matches,
        ),
    ensures
        matches is Ok,
        matches->Ok_0@.len() == addresses@.len(),
        forall|i: int|
            0 <= i < addresses@.len() ==> #[trigger] matches->Ok_0@[i] == if world.associated(
                partition,
                addresses@[i],
            ) {
                StoreMatch::MatchFull
            } else {
                StoreMatch::MatchNone
            },
{
    assert forall|i: int| 0 <= i < addresses@.len() implies #[trigger] matches->Ok_0@[i]
        == if world.associated(partition, addresses@[i]) {
        StoreMatch::MatchFull
    } else {
        StoreMatch::MatchNone
    } by {
        batch_exact_agrees(world, partition, addresses@, pair_rows_view(rows@), i);
    }
}

/// A batch that asks for other matches puts one question for each address, and says of each,
/// in order, whether it is there, in whatever order the answers have come in.
pub proof fn batch_inexact_tells(
    store: PgImmutableStore,
    world: World,
    partition: Partition,
    addresses: &[Address],
    requested: StoreMatch,
    batch: BatchInexact,
    statements: Vec<ImmutableStatement>,
    answers: Vec<(usize, Result<bool, Fault>)>,
    matches: Vec<StoreMatch>,
)
    requires
        requested == StoreMatch::MatchPartition || requested == StoreMatch::MatchHash,
        call_ensures(
            PgImmutableStore::exist_batch,
            (&store, partition, addresses, requested),
            BatchStep::Inexact(batch),
        ),
        call_ensures(BatchInexact::statements, (&batch,), statements),
        forall|k: int|
            0 <= k < answers@.len() ==> {
                let position = (#[trigger] answers@[k]).0 as int;
                &&& position < statements@.len()
                &&& answers@[k].1 == Ok::<bool, Fault>(world.found(statements@[position]))
            },
        forall|i: int| 0 <= i < addresses@.len() ==> #[trigger] answered_at(answers@, i),
        call_ensures(BatchInexact::reply, (&batch, answers), matches),
    ensures
        statements@.len() == addresses@.len(),
        matches@.len() == addresses@.len(),
        forall|i: int|
            0 <= i < addresses@.len() ==> #[trigger] matches@[i] == if there(
                world,
                partition,
                addresses@[i],
                requested,
            ) {
                requested
            } else {
                StoreMatch::MatchNone
            },
{
    assert(probes_answered(world, partition, addresses@, batch.probe, answers@)) by {
        assert forall|k: int| 0 <= k < answers@.len() implies {
            let position = (#[trigger] answers@[k]).0 as int;
            &&& 0 <= position < addresses@.len()
            &&& answers@[k].1 == Ok::<bool, Fault>(
                world.found(batch.probe.question(partition, addresses@[position])),
            )
        } by {
            let position = answers@[k].0 as int;
            assert(statements@[position] == batch.probe.question(partition, addresses@[position]));
        }
    }
    assert forall|i: int| 0 <= i < addresses@.len() implies #[trigger] matches@[i] == if there(
        world,
        partition,
        addresses@[i],
        requested,
    ) {
        requested
    } else {
        StoreMatch::MatchNone
    } by {
        batch_inexact_agrees(world, partition, addresses@, batch.probe, answers@, i);
    }
}

/// A batch that asks for no match finds none, for each of its addresses; and a batch is asked
/// for in one go if and only if it asks for full matches.
pub proof fn batch_asks(
    store: PgImmutableStore,
    partition: Partition,
    addresses: &[Address],
    requested: StoreMatch,
    step: BatchStep,
)
    requires
        call_ensures(
            PgImmutableStore::exist_batch,
            (&store, partition, addresses, requested),
            step,
        ),
    ensures
        step is Exact <==> requested == StoreMatch::MatchFull,
        step is Finish <==> requested == StoreMatch::MatchNone,
        step matches BatchStep::Finish(matches) ==> matches@.len() == addresses@.len() && forall|
            i: int,
        |
            0 <= i < addresses@.len() ==> #[trigger] matches@[i] == StoreMatch::MatchNone,
{
}

/// An address of a batch is there if and only if an answer of yes has come in for it: an answer
/// that failed counts as no, and so does one that has not come in.
pub proof fn batch_counts_yes(
    batch: BatchInexact,
    answers: Vec<(usize, Result<bool, Fault>)>,
    matches: Vec<StoreMatch>,
    i: int,
)
    requires
        call_ensures(BatchInexact::reply, (&batch, answers), matches),
        0 <= i < batch.addresses@.len(),
    ensures
        matches@.len() == batch.addresses@.len(),
        matches@[i] == if exists|k: int|
            0 <= k < answers@.len() && (#[trigger] answers@[k]).0 == i && answers@[k].1 == Ok::<
                bool,
                Fault,
            >(true) {
            match batch.probe {
                Probe::Full => StoreMatch::MatchFull,
                Probe::Partition => StoreMatch::MatchPartition,
                Probe::Hash => StoreMatch::MatchHash,
            }
        } else {
            StoreMatch::MatchNone
        },
{
}

/// A hundred addresses are asked about at once, and no more.
pub proof fn batch_limit(store: PgImmutableStore, limit: Option<usize>)
    requires
        call_ensures(PgImmutableStore::max_query_batch, (&store,), limit),
    ensures
        limit == Some(100usize),
{
}

/// The number of fragments is the number of hashes that have metadata.
pub proof fn fragments_counted(
    store: PgImmutableStore,
    world: World,
    statement: ImmutableStatement,
    count: i64,
    result: Option<usize>,
)
    requires
        world.countable(),
        world.metadata.dom().len() <= usize::MAX,
        call_ensures(PgImmutableStore::fragment_count, (&store,), statement),
        statement is CountMetadata ==> count == world.metadata.dom().len(),
        call_ensures(counted, (Ok::<i64, Fault>(count),), result),
    ensures
        result matches Some(n) && n == world.metadata.dom().len(),
{
}

// ---------------------------------------------------------------------------
// Calls that fail
// ---------------------------------------------------------------------------

/// The error for a call to Postgres that has failed: it names the call, or the pool where no
/// connection was to be had, and passes the cause on.
pub open spec fn named(fault: Fault, call: SqlCall) -> StoreError {
    match fault {
        Fault::Pool(cause) => StoreError::Sql { call: SqlCall::Pool, cause },
        Fault::Statement(cause) => StoreError::Sql { call, cause },
    }
}

/// The call by which a question is asked.
pub open spec fn asking(probe: Probe) -> SqlCall {
    match probe {
        Probe::Full => SqlCall::ExistsExact,
        Probe::Partition => SqlCall::ExistsRepository,
        Probe::Hash => SqlCall::ExistsHash,
    }
}

/// A reading ends where it cannot be found out whether the address is there, and a copy where
/// nothing can be found out of its source, with an error that names the question.
pub proof fn reading_failures_named(
    fault: Fault,
    get: Get,
    read: GetStep,
    copy: CopyProbe,
    copied: CopyStep,
    metadata: CopyMetadata,
    unloaded: CopyStep,
)
    requires
        call_ensures(Get::existence, (get, Err::<bool, Fault>(fault)), read),
        call_ensures(CopyProbe::reply, (&copy, Err::<bool, Fault>(fault)), copied),
        call_ensures(
            CopyMetadata::reply,
            (&metadata, Err::<Option<MetadataRow>, Fault>(fault)),
            unloaded,
        ),
    ensures
        read@ == GetStepView::Finish(Err(named(fault, asking(get@.existence.probe)))),
        copied == CopyStep::Finish(Err(named(fault, asking(copy.query.probe)))),
        unloaded == CopyStep::Finish(
            Err(StoreError::Metadata { inner: Box::new(named(fault, SqlCall::LoadMetadata)) }),
        ),
{
}

// ---------------------------------------------------------------------------
// What the host is asked
// ---------------------------------------------------------------------------

/// What the host is asked to judge of a fragment that was read is what is handed out if it has
/// no objection; if it has one, that is the error.
pub proof fn judged_as_handed_out(
    check: GetCheck,
    fragment: Fragment,
    len: usize,
    accepted: Result<(Fragment, Bytes), StoreError>,
    cause: String,
    refused: Result<(Fragment, Bytes), StoreError>,
)
    requires
        call_ensures(GetCheck::fragment, (&check,), fragment),
        call_ensures(GetCheck::payload_len, (&check,), len),
        call_ensures(GetCheck::reply, (check, Ok::<(), String>(())), accepted),
        call_ensures(GetCheck::reply, (check, Err::<(), String>(cause)), refused),
    ensures
        fragment_view(accepted) matches Ok(read) && read.0 == fragment && read.1.len() == len
            && read == check@,
        refused == Err::<(Fragment, Bytes), StoreError>(StoreError::Invalid { cause }),
{
}

/// Of a fragment that is to be stored the host is asked about the payload that comes with it,
/// by its length; about the sizes alone where none does.
pub proof fn payload_judged(
    store: PgImmutableStore,
    payload: Option<Bytes>,
    check: PutCheck,
)
    requires
        call_ensures(PgImmutableStore::put_check, (&store, &payload), check),
    ensures
        check is Sizes <==> payload is None,
        payload matches Some(bytes) ==> (check matches PutCheck::Payload(len) && len
            == bytes_contents(bytes).len()),
{
}

} // verus!
