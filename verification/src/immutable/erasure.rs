//! What comes of a call to obliterate a fragment, once the steps that it leads to are carried
//! out, and what comes of calls that fail.

use crate::error::{ObjectCall, StoreError};
use crate::immutable::carried::{asking, named, object_at, row_asked_for};
use crate::immutable::erasing::{
    obliterate_on, run_obliterate, run_parts, HostRules, Obliterated,
};
use crate::immutable::get::object_reply_view;
use crate::immutable::lookup::{
    counted, BatchExact, ExistRequest, QueryMetadata, QueryProbe, QueryStep,
    StoreQueryResult,
};
use crate::immutable::metadata::{
    fragment_of, metadata_with_load_validation, obliteration, update_metadata_cas, MetadataRow,
};
use crate::immutable::obliterate::{
    Obliterate, ObliterateCount, ObliterateDecode, ObliterateDelete, ObliterateDetach,
    ObliterateFetch, ObliterateLock, ObliterateOutcome, ObliterateParts, ObliterateRead,
    ObliterateRestore, ObliterateSeal, ObliterateStep, ObliterateStepView, PartOutcome,
};
use crate::immutable::payload::{object_failure, ObjectContents, ObjectFault};
use crate::immutable::put::{
    Association, PutAssociate, PutBegin, PutCommit, PutIndex, PutObject, PutStep,
};
use crate::immutable::statements::{ImmutableStatement, PgImmutableStore};
use crate::immutable::world::World;
use crate::outside::bytes_contents;
use crate::sql::{Fault, SqlCall};
use crate::types::{
    zero_context, Address, ContentHash, Fragment, FragmentFlags, Partition, StoreMatch,
};
use vstd::prelude::*;

verus! {

/// The number of associations that a statement asks for.
pub open spec fn count_asked_for(world: World, statement: ImmutableStatement) -> nat {
    match statement {
        ImmutableStatement::CountAssociations { hash } => world.association_count(hash),
        _ => 0,
    }
}

/// The call that a step names was made, storage has answered and is like this now, and the
/// next step is known. Listed fragments are another matter.
pub open spec fn obliterate_next(
    world: World,
    host: HostRules,
    step: ObliterateStep,
    after: World,
    next: ObliterateStep,
) -> bool {
    match step {
        ObliterateStep::Read(s) => exists|statement: ImmutableStatement|
            {
                let row = row_asked_for(world, statement);
                let verdict = match row {
                    Some(row) => (host.sizes)(fragment_of(row)),
                    None => Ok(()),
                };
                &&& #[trigger] call_ensures(ObliterateRead::statement, (&s,), statement)
                &&& call_ensures(
                    ObliterateRead::reply,
                    (&s, Ok::<Option<MetadataRow>, Fault>(row), verdict),
                    next,
                )
                &&& after == world
            },
        ObliterateStep::Lock(s) => exists|statement: ImmutableStatement|
            {
                &&& #[trigger] call_ensures(ObliterateLock::statement, (&s,), statement)
                &&& call_ensures(
                    ObliterateLock::reply,
                    (&s, Ok::<u64, Fault>(world.changed(statement))),
                    next,
                )
                &&& after == world.after(statement)
            },
        ObliterateStep::Fetch(s) => exists|
            key: String,
            reply: Result<ObjectContents, ObjectFault>,
        |
            {
                &&& #[trigger] call_ensures(ObliterateFetch::key, (&s,), key)
                &&& object_reply_view(reply) == object_at(world, key@)
                &&& #[trigger] call_ensures(ObliterateFetch::reply, (&s, reply), next)
                &&& after == world
            },
        ObliterateStep::Decode(s) => exists|hashes: &[ContentHash]|
            {
                &&& hashes@ == (host.decode)(bytes_contents(s.payload))
                &&& #[trigger] call_ensures(ObliterateDecode::reply, (&s, hashes), next)
                &&& after == world
            },
        ObliterateStep::Parts(_) => false,
        ObliterateStep::Detach(s) => exists|statement: ImmutableStatement|
            {
                &&& #[trigger] call_ensures(ObliterateDetach::statement, (&s,), statement)
                &&& call_ensures(ObliterateDetach::reply, (&s, Ok::<(), Fault>(())), next)
                &&& after == world.after(statement)
            },
        ObliterateStep::Count(s) => exists|statement: ImmutableStatement|
            {
                &&& #[trigger] call_ensures(ObliterateCount::statement, (&s,), statement)
                &&& call_ensures(
                    ObliterateCount::reply,
                    (&s, Ok::<i64, Fault>(count_asked_for(world, statement) as i64)),
                    next,
                )
                &&& after == world
            },
        ObliterateStep::Restore(s) => exists|statement: ImmutableStatement|
            {
                &&& #[trigger] call_ensures(ObliterateRestore::statement, (&s,), statement)
                &&& call_ensures(
                    ObliterateRestore::reply,
                    (&s, Ok::<u64, Fault>(world.changed(statement))),
                    next,
                )
                &&& after == world.after(statement)
            },
        ObliterateStep::Delete(s) => exists|key: String|
            {
                &&& #[trigger] call_ensures(ObliterateDelete::key, (&s,), key)
                &&& call_ensures(ObliterateDelete::reply, (&s, Ok::<(), String>(())), next)
                &&& after == (World { objects: world.objects.remove(key@), ..world })
            },
        ObliterateStep::Seal(s) => exists|statement: ImmutableStatement|
            {
                &&& #[trigger] call_ensures(ObliterateSeal::statement, (&s,), statement)
                &&& call_ensures(
                    ObliterateSeal::reply,
                    (&s, Ok::<u64, Fault>(world.changed(statement))),
                    next,
                )
                &&& after == world.after(statement)
            },
        ObliterateStep::Finish(_) => false,
    }
}

/// A call to obliterate a fragment sets out to do what [`obliterate_on`] says, with the rules
/// of the store, at the address and in the repository that were given.
pub proof fn obliterate_sets_out(
    store: PgImmutableStore,
    world: World,
    host: HostRules,
    partition: Partition,
    address: Address,
    step: ObliterateStep,
    depth: nat,
)
    requires
        call_ensures(PgImmutableStore::obliterate, (&store, partition, address), step),
    ensures
        run_obliterate(world, host, step@, depth) == obliterate_on(
            world,
            host,
            Obliterate { rules: store.spec_rules(), repository: partition, address },
            depth,
        ),
{
}

/// Making the call that a step names, and going on with the next step, comes to the end that
/// the step was to come to.
pub proof fn obliterate_goes_on(
    world: World,
    host: HostRules,
    step: ObliterateStep,
    after: World,
    next: ObliterateStep,
    depth: nat,
)
    requires
        obliterate_next(world, host, step, after, next),
    ensures
        run_obliterate(after, host, next@, depth) == run_obliterate(world, host, step@, depth),
{
    reveal_with_fuel(run_obliterate, 2);
}

/// Once the listed fragments have been obliterated, in the context and the repository of the
/// one that lists them, going on with the next step comes to the end that the step was to come
/// to; what was removed with them is counted in.
pub proof fn obliterate_parts_go_on(
    world: World,
    host: HostRules,
    parts: ObliterateParts,
    outcomes: &[PartOutcome],
    next: ObliterateStep,
    depth: nat,
)
    requires
        depth > 0,
        outcomes@ == run_parts(
            world,
            host,
            parts.at.request,
            parts.parts@,
            (depth - 1) as nat,
        ).outcomes,
        call_ensures(ObliterateParts::reply, (&parts, outcomes), next),
    ensures
        ({
            let done = run_parts(
                world,
                host,
                parts.at.request,
                parts.parts@,
                (depth - 1) as nat,
            );
            let rest = run_obliterate(done.world, host, next@, depth);
            run_obliterate(world, host, ObliterateStep::Parts(parts)@, depth) == (Obliterated {
                num_fragments: rest.num_fragments + done.num_fragments,
                num_payloads: rest.num_payloads + done.num_payloads,
                ..rest
            })
        }),
{
    reveal_with_fuel(run_obliterate, 2);
}

/// The outcome that is reported in the end is what has become of the fragment.
pub proof fn obliterate_ends(
    world: World,
    host: HostRules,
    outcome: ObliterateOutcome,
    depth: nat,
)
    ensures
        run_obliterate(world, host, ObliterateStep::Finish(outcome)@, depth) == (Obliterated {
            world,
            result: outcome.result,
            num_fragments: outcome.num_fragments as nat,
            num_payloads: outcome.num_payloads as nat,
        }),
{
}

/// Whoever keeps count on the way counts an association when it is removed and a payload when
/// it is deleted, and nothing else; in the end the count is the one that is reported.
pub proof fn removals_counted(
    world: World,
    host: HostRules,
    step: ObliterateStep,
    after: World,
    next: ObliterateStep,
    before_count: (u64, u64),
    after_count: (u64, u64),
)
    requires
        obliterate_next(world, host, step, after, next),
        call_ensures(ObliterateStep::removed, (&step,), before_count),
        call_ensures(ObliterateStep::removed, (&next,), after_count),
    ensures
        after_count.0 == before_count.0 + if step is Detach {
            1int
        } else {
            0int
        },
        after_count.1 == before_count.1 + if step is Delete {
            1int
        } else {
            0int
        },
        step is Read ==> before_count == (0u64, 0u64),
        next matches ObliterateStep::Finish(outcome) ==> after_count == (
            outcome.num_fragments,
            outcome.num_payloads,
        ),
{
}

// ---------------------------------------------------------------------------
// Calls that fail
// ---------------------------------------------------------------------------

/// A question that cannot be answered is an error that names the question.
pub proof fn lookup_failures_named(
    fault: Fault,
    exist: ExistRequest,
    there: Result<StoreMatch, StoreError>,
    probe: QueryProbe,
    next: QueryStep,
    metadata: QueryMetadata,
    found: Result<StoreQueryResult, StoreError>,
    batch: BatchExact,
    matches: Result<Vec<StoreMatch>, StoreError>,
    count: Option<usize>,
)
    requires
        call_ensures(ExistRequest::reply, (&exist, Err::<bool, Fault>(fault)), there),
        call_ensures(QueryProbe::reply, (&probe, Err::<bool, Fault>(fault)), next),
        call_ensures(
            QueryMetadata::reply,
            (&metadata, Err::<Option<MetadataRow>, Fault>(fault)),
            found,
        ),
        call_ensures(
            BatchExact::reply,
            (&batch, Err::<Vec<(Vec<u8>, Vec<u8>)>, Fault>(fault)),
            matches,
        ),
        call_ensures(counted, (Err::<i64, Fault>(fault),), count),
    ensures
        there == Err::<StoreMatch, StoreError>(named(fault, asking(exist.probe))),
        next == QueryStep::Finish(Err(named(fault, asking(probe.probe)))),
        found == Err::<StoreQueryResult, StoreError>(
            StoreError::Metadata { inner: Box::new(named(fault, SqlCall::LoadMetadata)) },
        ),
        matches == Err::<Vec<StoreMatch>, StoreError>(named(fault, SqlCall::ExistBatchExact)),
        count == None::<usize>,
{
}

/// A payload that cannot be written, or an entry that cannot be made, ends the storing with an
/// error that names what has failed; what the transaction has done is rolled back.
pub proof fn put_failures_named(
    fault: Fault,
    cause: String,
    association: Association,
    associated: Result<(), StoreError>,
    object: PutObject,
    written: PutStep,
    begin: PutBegin,
    begun: PutStep,
    index: PutIndex,
    indexed: PutStep,
    associate: PutAssociate,
    entered: PutStep,
    commit: PutCommit,
    committed: PutStep,
)
    requires
        call_ensures(Association::reply, (&association, Err::<(), Fault>(fault)), associated),
        call_ensures(PutObject::reply, (&object, Err::<(), String>(cause)), written),
        call_ensures(PutBegin::reply, (&begin, Err::<(), Fault>(fault)), begun),
        call_ensures(PutIndex::reply, (&index, Err::<(), String>(cause)), indexed),
        call_ensures(PutAssociate::reply, (&associate, Err::<(), String>(cause)), entered),
        call_ensures(PutCommit::reply, (&commit, Err::<(), String>(cause)), committed),
    ensures
        associated == Err::<(), StoreError>(named(fault, SqlCall::AssociateFragment)),
        written == PutStep::Finish(
            Err(StoreError::Object { operation: ObjectCall::Put, cause }),
        ),
        begun == PutStep::Finish(Err(named(fault, SqlCall::Begin))),
        indexed == PutStep::RollBack(StoreError::Sql { call: SqlCall::WriteMetadata, cause }),
        entered == PutStep::RollBack(StoreError::Sql { call: SqlCall::AssociateFragment, cause }),
        committed == PutStep::Finish(Err(StoreError::Sql { call: SqlCall::Commit, cause })),
{
}

/// Metadata that cannot be read is an error that names the reading. An object that is missing
/// is not found; a service that refuses is to be called less often; and what breaks off on the
/// way is an error that passes the cause on.
pub proof fn read_failures_named(
    flags: FragmentFlags,
    hash: ContentHash,
    fault: Fault,
    verdict: Result<(), String>,
    metadata: Result<Fragment, StoreError>,
    lost: ObjectFault,
    error: StoreError,
)
    requires
        call_ensures(
            metadata_with_load_validation,
            (flags, hash, Err::<Option<MetadataRow>, Fault>(fault), verdict),
            metadata,
        ),
        call_ensures(object_failure, (hash, lost), error),
    ensures
        metadata == Err::<Fragment, StoreError>(named(fault, SqlCall::LoadMetadata)),
        lost is NoSuchKey ==> error == (StoreError::AddressNotFound {
            address: Address { hash, context: zero_context() },
        }),
        lost is Service ==> error == StoreError::SlowDown,
        lost matches ObjectFault::Request(cause) ==> error == (StoreError::Object {
            operation: ObjectCall::Get,
            cause,
        }),
        lost matches ObjectFault::Read(cause) ==> error == (StoreError::Object {
            operation: ObjectCall::Read,
            cause,
        }),
{
}

/// A replacement of metadata that changes nothing has met somebody else's; one that fails is an
/// error that names it; any other is done.
pub proof fn replacement_told(reply: Result<u64, Fault>, result: Result<(), StoreError>)
    requires
        call_ensures(update_metadata_cas, (reply,), result),
    ensures
        result is Ok <==> (reply matches Ok(rows) && rows > 0),
        reply == Ok::<u64, Fault>(0) ==> result == Err::<(), StoreError>(
            StoreError::MetadataConflict,
        ),
        reply matches Err(fault) ==> result == Err::<(), StoreError>(
            named(fault, SqlCall::UpdateMetadataCas),
        ),
{
}

/// An obliteration ends where a call fails, with an error that names the call and with the
/// counts of what was removed before.
pub proof fn obliterate_failures_named(
    fault: Fault,
    cause: String,
    verdict: Result<(), String>,
    read: ObliterateRead,
    unread: ObliterateStep,
    lock: ObliterateLock,
    unlocked: ObliterateStep,
    detach: ObliterateDetach,
    attached: ObliterateStep,
    count: ObliterateCount,
    uncounted: ObliterateStep,
    restore: ObliterateRestore,
    unrestored: ObliterateStep,
    delete: ObliterateDelete,
    undeleted: ObliterateStep,
    seal: ObliterateSeal,
    unsealed: ObliterateStep,
)
    requires
        call_ensures(
            ObliterateRead::reply,
            (&read, Err::<Option<MetadataRow>, Fault>(fault), verdict),
            unread,
        ),
        call_ensures(ObliterateLock::reply, (&lock, Err::<u64, Fault>(fault)), unlocked),
        call_ensures(ObliterateDetach::reply, (&detach, Err::<(), Fault>(fault)), attached),
        call_ensures(ObliterateCount::reply, (&count, Err::<i64, Fault>(fault)), uncounted),
        call_ensures(ObliterateRestore::reply, (&restore, Err::<u64, Fault>(fault)), unrestored),
        call_ensures(ObliterateDelete::reply, (&delete, Err::<(), String>(cause)), undeleted),
        call_ensures(ObliterateSeal::reply, (&seal, Err::<u64, Fault>(fault)), unsealed),
    ensures
        unread == gave_up(named(fault, SqlCall::LoadMetadata), 0, 0),
        unlocked == gave_up(named(fault, SqlCall::UpdateMetadataCas), 0, 0),
        attached == gave_up(named(fault, SqlCall::DeleteAssociation), 0, 0),
        uncounted == gave_up(named(fault, SqlCall::CountAssociations), 1, 0),
        unrestored == gave_up(named(fault, SqlCall::UpdateMetadataCas), 1, 0),
        undeleted == gave_up(StoreError::Object { operation: ObjectCall::Delete, cause }, 1, 0),
        unsealed == gave_up(named(fault, SqlCall::UpdateMetadataCas), 1, 1),
{
}

/// An obliteration that has failed, with what was removed before.
pub open spec fn gave_up(
    error: StoreError,
    num_fragments: u64,
    num_payloads: u64,
) -> ObliterateStep {
    ObliterateStep::Finish(
        ObliterateOutcome { result: Err(error), num_fragments, num_payloads },
    )
}

// ---------------------------------------------------------------------------
// The steps of an obliteration
// ---------------------------------------------------------------------------

/// A fragment that is marked by an obliteration is left alone, and that is no error. Any other
/// is locked first: its metadata is to be replaced by the same with the mark of one that is
/// being obliterated.
pub proof fn locked_first(
    read: ObliterateRead,
    row: MetadataRow,
    next: ObliterateStep,
    lock: ObliterateLock,
    statement: ImmutableStatement,
)
    requires
        call_ensures(
            ObliterateRead::reply,
            (&read, Ok::<Option<MetadataRow>, Fault>(Some(row)), Ok::<(), String>(())),
            next,
        ),
        next == ObliterateStep::Lock(lock),
        call_ensures(ObliterateLock::statement, (&lock,), statement),
    ensures
        !obliteration(read.request.rules.flags, fragment_of(row)),
        statement == (ImmutableStatement::UpdateMetadata {
            hash: read.request.address.hash,
            updated: Fragment {
                flags: fragment_of(row).flags | read.request.rules.flags.payload_obliterating,
                size_payload: fragment_of(row).size_payload,
                size_content: fragment_of(row).size_content,
            },
            expected: fragment_of(row),
        }),
{
}

/// A fragment that is marked by an obliteration is left alone, and that is no error.
pub proof fn marked_left_alone(read: ObliterateRead, row: MetadataRow, next: ObliterateStep)
    requires
        call_ensures(
            ObliterateRead::reply,
            (&read, Ok::<Option<MetadataRow>, Fault>(Some(row)), Ok::<(), String>(())),
            next,
        ),
    ensures
        obliteration(read.request.rules.flags, fragment_of(row)) <==> next
            == ObliterateStep::Finish(
            ObliterateOutcome { result: Ok(()), num_fragments: 0, num_payloads: 0 },
        ),
{
}

/// The payload of a fragment that lists others is handed on to be decoded, without a header of
/// sixteen bytes where it carries one; a payload that cannot be had, or has another size than
/// the metadata states, ends the obliteration.
pub proof fn listing_fetched(
    fetch: ObliterateFetch,
    contents: ObjectContents,
    next: ObliterateStep,
    fault: ObjectFault,
    lost: ObliterateStep,
    error: StoreError,
)
    requires
        call_ensures(
            ObliterateFetch::reply,
            (&fetch, Ok::<ObjectContents, ObjectFault>(contents)),
            next,
        ),
        call_ensures(
            ObliterateFetch::reply,
            (&fetch, Err::<ObjectContents, ObjectFault>(fault)),
            lost,
        ),
        call_ensures(object_failure, (fetch.at.request.address.hash, fault), error),
    ensures
        lost == gave_up(error, 0, 0),
        ({
            let size = fetch.at.original.size_payload as int;
            let len = contents@.len() as int;
            if len == size || (fetch.at.request.rules.force_write && len == size + 16) {
                next matches ObliterateStep::Decode(decode) && decode.at == fetch.at
                    && bytes_contents(decode.payload) == contents@.subrange(len - size, len)
            } else {
                next == gave_up(
                    StoreError::LoadSize {
                        loaded: len as usize,
                        expected: fetch.at.original.size_payload as usize,
                        hash: fetch.at.request.address.hash,
                    },
                    0,
                    0,
                )
            }
        }),
{
    let size = fetch.at.original.size_payload as int;
    if contents@.len() == size {
        assert(contents@.subrange(0, size) =~= contents@);
    } else if contents@.len() == size + 16 {
        assert(contents@.subrange(16, size + 16) =~= contents@.skip(16));
    }
}

/// Every listed hash is obliterated in the context of the fragment that lists it. Once all of
/// them are, the fragment itself is; if one of them could not be, or nothing was heard of it,
/// the fragment is not.
pub proof fn listed_go_first(
    decode: ObliterateDecode,
    hashes: &[ContentHash],
    parts: ObliterateParts,
    outcomes: &[PartOutcome],
    next: ObliterateStep,
)
    requires
        call_ensures(ObliterateDecode::reply, (&decode, hashes), ObliterateStep::Parts(parts)),
        call_ensures(ObliterateParts::reply, (&parts, outcomes), next),
    ensures
        parts.parts@.len() == hashes@.len(),
        forall|i: int|
            0 <= i < hashes@.len() ==> #[trigger] parts.parts@[i] == (Address {
                hash: hashes@[i],
                context: decode.at.request.address.context,
            }),
        next@ == if outcomes@.len() >= hashes@.len() && (forall|i: int|
            0 <= i < outcomes@.len() ==> (#[trigger] outcomes@[i]) is Done) {
            ObliterateStepView::Detach(decode.at)
        } else {
            gave_up(StoreError::Obliterate { address: decode.at.request.address }, 0, 0)@
        },
{
}

/// Where associations remain, the metadata is restored; where none does, the payload goes.
pub proof fn last_association_decides(count: ObliterateCount, n: i64, next: ObliterateStep)
    requires
        call_ensures(ObliterateCount::reply, (&count, Ok::<i64, Fault>(n)), next),
    ensures
        n > 0 ==> next == ObliterateStep::Restore(ObliterateRestore { at: count.at }),
        n <= 0 ==> next == ObliterateStep::Delete(ObliterateDelete { at: count.at }),
{
}

} // verus!
