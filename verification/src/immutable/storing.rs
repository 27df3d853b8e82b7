//! What holds of storing, reading, querying and copying fragments as a whole.

use bytes::Bytes;
use crate::error::StoreError;
use crate::immutable::get::FragmentView;
use crate::immutable::lookup::{
    answered_yes, exact_matches, inexact_matches, nothing_found, Probe, Query, QueryMetadata,
    StoreQueryResult,
};
use crate::immutable::metadata::{fragment_of, metadata_round_trip, obliteration, row_of};
use crate::immutable::payload::{object_key, object_key_injective};
use crate::immutable::put::{
    copy_started, has_flag, put_started, Association, CopyRequest, CopyStep, Put, PutStep,
};
use crate::immutable::statements::StoreRules;
use crate::immutable::world::{exist_on, get_on, put_rank, run_copy, run_put, run_query, World};
use crate::outside::bytes_contents;
use crate::sql::Fault;
use crate::types::{
    zero_context_address, Address, ContentHash, Context, FragmentFlags, RepositoryId, StoreMatch,
};
use vstd::prelude::*;

verus! {

/// What becomes of a fragment that is to be stored, once the host has let it pass.
pub open spec fn put_on(world: World, put: Put) -> (World, Result<(), StoreError>) {
    run_put(
        world,
        world,
        put_started(put.rules, put.repository, put.address, Ok(put.fragment), put.payload),
    )
}

/// What is stored once a fragment and its payload were written.
pub open spec fn with_fragment(world: World, put: Put, contents: Seq<u8>) -> World {
    World {
        associations: world.associations.insert(put.association()),
        metadata: world.metadata.insert(put.address.hash, row_of(put.fragment)),
        objects: world.objects.insert(object_key(put.address.hash), contents),
    }
}

/// A fragment is stored at the address: it is associated and has metadata.
pub open spec fn stored(world: World, repository: RepositoryId, address: Address) -> bool {
    world.associated(repository, address) && world.metadata.contains_key(address.hash)
}

proof fn lemma_no_flags(flag: u32)
    requires
        flag != 0,
    ensures
        0u32 & flag != flag,
{
    assert(0u32 & flag == 0) by (bit_vector);
}

proof fn lemma_full_query(world: World, query: Query)
    ensures
        run_query(world, query.started(StoreMatch::MatchFull)) == if !world.associated(
            query.repository,
            query.address,
        ) {
            Ok::<StoreQueryResult, StoreError>(nothing_found())
        } else {
            (QueryMetadata {
                query,
                match_made: StoreMatch::MatchFull,
            }).answered(Ok(world.row(query.address.hash)))
        },
{
    reveal_with_fuel(run_query, 3);
}

proof fn lemma_put_decides(world: World, put: Put)
    ensures
        put_on(world, put) == run_put(
            world,
            world,
            put.decided(run_query(world, put.query().started(StoreMatch::MatchFull))),
        ),
{
    reveal_with_fuel(run_put, 3);
    lemma_full_query(world, put.query());
}

proof fn lemma_run_write(world: World, put: Put, payload: Bytes)
    requires
        bytes_contents(payload).len() == put.fragment.size_payload,
    ensures
        run_put(world, world, put.written(payload)) == (
            with_fragment(world, put, bytes_contents(payload)),
            Ok::<(), StoreError>(()),
        ),
{
    reveal_with_fuel(run_put, 6);
}

/// A fragment that is not stored yet is written: association, metadata and payload, and
/// nothing else changes. Where writing is forced, this goes for every fragment.
pub proof fn put_writes(world: World, put: Put, payload: Bytes)
    requires
        put.rules.flags.well_formed(),
        put.payload == Some(payload),
        bytes_contents(payload).len() == put.fragment.size_payload,
        put.rules.force_write || !stored(world, put.repository, put.address),
    ensures
        put_on(world, put) == (
            with_fragment(world, put, bytes_contents(payload)),
            Ok::<(), StoreError>(()),
        ),
{
    lemma_put_decides(world, put);
    lemma_full_query(world, put.query());
    lemma_no_flags(put.rules.flags.payload_obliterating);
    lemma_run_write(world, put, payload);
}

/// A fragment that is not stored yet, and comes without a payload or with one of the wrong
/// size, is refused, and nothing changes.
pub proof fn put_refuses(world: World, put: Put)
    requires
        put.rules.flags.well_formed(),
        put.payload matches Some(payload) ==> bytes_contents(payload).len()
            != put.fragment.size_payload,
        put.rules.force_write || !stored(world, put.repository, put.address),
    ensures
        put_on(world, put) == (
            world,
            Err::<(), StoreError>(
                match put.payload {
                    Some(_) => StoreError::PayloadSize { hash: put.address.hash },
                    None => StoreError::PayloadRequired,
                },
            ),
        ),
{
    lemma_put_decides(world, put);
    lemma_full_query(world, put.query());
    lemma_no_flags(put.rules.flags.payload_obliterating);
}

/// A fragment that is stored already is left as it is, unless writing is forced. It is an
/// error if it is just being obliterated, or if its contents have another size and were not
/// obliterated.
pub proof fn put_again(world: World, put: Put)
    requires
        !put.rules.force_write,
        stored(world, put.repository, put.address),
    ensures
        ({
            let there = fragment_of(world.metadata[put.address.hash]);
            let obliterating = put.rules.flags.payload_obliterating;
            let obliterated = put.rules.flags.payload_obliterated;
            put_on(world, put) == (
                world,
                if there.flags & obliterating == obliterating {
                    Err::<(), StoreError>(StoreError::Obliterate { address: put.address })
                } else if there.size_content != put.fragment.size_content && there.flags
                    & obliterated != obliterated {
                    Err(StoreError::HashCollision)
                } else {
                    Ok(())
                },
            )
        }),
{
    lemma_put_decides(world, put);
    lemma_full_query(world, put.query());
}

/// Where the hash is known already, in whatever way, a fragment is completed by what it lacks:
/// its association alone, unless nothing was found; and its contents have to have the same
/// size, unless they were obliterated.
pub proof fn put_completes(world: World, put: Put, found: StoreQueryResult, step: PutStep)
    requires
        call_ensures(Put::decide, (put, Ok::<StoreQueryResult, StoreError>(found)), step),
        !put.rules.force_write,
        found.match_made != StoreMatch::MatchNone,
        !has_flag(found.fragment, put.rules.flags.payload_obliterating),
        put.fragment.size_content == found.fragment.size_content || has_flag(
            found.fragment,
            put.rules.flags.payload_obliterated,
        ),
        put.payload is Some || found.match_made != StoreMatch::MatchHash,
    ensures
        run_put(world, world, step) == (
            if found.match_made == StoreMatch::MatchFull {
                world
            } else {
                World {
                    associations: world.associations.insert(
                        Association { repository: put.repository, address: put.address },
                    ),
                    ..world
                }
            },
            Ok::<(), StoreError>(()),
        ),
{
    reveal_with_fuel(run_put, 2);
}

/// Where a fragment was found that is just being obliterated, or one with contents of another
/// size that have not been obliterated, nothing is stored.
pub proof fn put_stops(world: World, put: Put, found: StoreQueryResult, step: PutStep)
    requires
        call_ensures(Put::decide, (put, Ok::<StoreQueryResult, StoreError>(found)), step),
        !put.rules.force_write,
        found.match_made != StoreMatch::MatchNone,
    ensures
        ({
            let there = found.fragment.flags;
            let obliterating = put.rules.flags.payload_obliterating;
            let obliterated = put.rules.flags.payload_obliterated;
            &&& there & obliterating == obliterating ==> run_put(world, world, step) == (
                world,
                Err::<(), StoreError>(StoreError::Obliterate { address: put.address }),
            )
            &&& there & obliterating != obliterating && there & obliterated != obliterated
                && found.fragment.size_content != put.fragment.size_content ==> run_put(
                world,
                world,
                step,
            ) == (world, Err::<(), StoreError>(StoreError::HashCollision))
        }),
{
    reveal_with_fuel(run_put, 2);
}

/// A payload is needed where the hash is all that was found, or nothing.
pub proof fn put_needs_payload(world: World, put: Put, found: StoreQueryResult, step: PutStep)
    requires
        call_ensures(Put::decide, (put, Ok::<StoreQueryResult, StoreError>(found)), step),
        put.payload is None,
        !has_flag(found.fragment, put.rules.flags.payload_obliterating),
        put.fragment.size_content == found.fragment.size_content || found.match_made
            == StoreMatch::MatchNone,
        found.match_made == StoreMatch::MatchHash || found.match_made == StoreMatch::MatchNone,
    ensures
        run_put(world, world, step) == (
            world,
            Err::<(), StoreError>(StoreError::PayloadRequired),
        ),
{
    reveal_with_fuel(run_put, 2);
}

/// A query that has failed stands in nobody's way: the fragment is stored as if nothing had
/// been found.
pub proof fn put_despite_failure(
    world: World,
    put: Put,
    payload: Bytes,
    failure: StoreError,
    step: PutStep,
)
    requires
        call_ensures(Put::decide, (put, Err::<StoreQueryResult, StoreError>(failure)), step),
        put.payload == Some(payload),
        bytes_contents(payload).len() == put.fragment.size_payload,
    ensures
        run_put(world, world, step) == (
            with_fragment(world, put, bytes_contents(payload)),
            Ok::<(), StoreError>(()),
        ),
{
    lemma_run_write(world, put, payload);
}

/// A copy needs a full match of its source, whatever else was found of it.
pub proof fn copy_needs_full_match(
    world: World,
    copy: CopyRequest,
    found: StoreQueryResult,
    step: CopyStep,
)
    requires
        call_ensures(CopyRequest::decide, (&copy, Ok::<StoreQueryResult, StoreError>(found)), step),
    ensures
        run_copy(world, step) == if found.match_made == StoreMatch::MatchFull {
            (
                World { associations: world.associations.insert(copy.destination), ..world },
                Ok::<(), StoreError>(()),
            )
        } else {
            (world, Err(StoreError::AddressNotFound { address: copy.source }))
        },
{
    reveal_with_fuel(run_copy, 2);
    assert(Association {
        repository: copy.destination.repository,
        address: Address {
            hash: copy.destination.address.hash,
            context: copy.destination.address.context,
        },
    } == copy.destination);
}

/// Storing a fragment a second time succeeds and changes nothing.
pub proof fn put_twice(world: World, put: Put, payload: Bytes)
    requires
        put.rules.flags.well_formed(),
        !put.rules.force_write,
        !obliteration(put.rules.flags, put.fragment),
        put.payload == Some(payload),
        bytes_contents(payload).len() == put.fragment.size_payload,
        !stored(world, put.repository, put.address),
    ensures
        put_on(put_on(world, put).0, put) == (put_on(world, put).0, Ok::<(), StoreError>(())),
{
    put_writes(world, put, payload);
    let after = put_on(world, put).0;
    put_again(after, put);
    metadata_round_trip(put.fragment);
    let flags = put.rules.flags;
    let (f, a, b) = (
        put.fragment.flags,
        flags.payload_obliterating,
        flags.payload_obliterated,
    );
    assert(f & a != a) by (bit_vector)
        requires
            f & (a | b) == 0,
            a != 0,
    ;
}

/// The payload that was stored is what is read, with the fragment it was stored with,
/// whatever match is asked for.
pub proof fn put_then_get(world: World, put: Put, payload: Bytes, required: StoreMatch)
    requires
        put.rules.flags.well_formed(),
        !obliteration(put.rules.flags, put.fragment),
        put.payload == Some(payload),
        bytes_contents(payload).len() == put.fragment.size_payload,
        put.rules.force_write || !stored(world, put.repository, put.address),
        required != StoreMatch::MatchNone,
    ensures
        put_on(world, put).1 == Ok::<(), StoreError>(()),
        get_on(
            put_on(world, put).0,
            put.rules,
            put.repository,
            put.address,
            required,
            Ok(()),
            Ok(()),
        ) == Ok::<FragmentView, StoreError>((put.fragment, bytes_contents(payload))),
{
    put_writes(world, put, payload);
    let after = put_on(world, put).0;
    metadata_round_trip(put.fragment);
    assert(after.associations.contains(put.association()));
}

/// Once a fragment was stored, it exists, to whatever extent is asked for.
pub proof fn put_then_exist(world: World, put: Put, payload: Bytes, requested: StoreMatch)
    requires
        put.rules.flags.well_formed(),
        put.payload == Some(payload),
        bytes_contents(payload).len() == put.fragment.size_payload,
        put.rules.force_write || !stored(world, put.repository, put.address),
    ensures
        exist_on(put_on(world, put).0, put.repository, put.address, requested) == Ok::<
            StoreMatch,
            StoreError,
        >(requested),
{
    put_writes(world, put, payload);
    let after = put_on(world, put).0;
    assert(after.associations.contains(put.association()));
}

/// Once a fragment was stored, a query finds it with its metadata.
pub proof fn put_then_query(
    world: World,
    put: Put,
    payload: Bytes,
    requested: StoreMatch,
    hide_obliterates: bool,
)
    requires
        put.rules.flags.well_formed(),
        !obliteration(put.rules.flags, put.fragment),
        put.payload == Some(payload),
        bytes_contents(payload).len() == put.fragment.size_payload,
        put.rules.force_write || !stored(world, put.repository, put.address),
        requested != StoreMatch::MatchNone,
    ensures
        run_query(
            put_on(world, put).0,
            (Query { hide_obliterates, ..put.query() }).started(requested),
        ) == Ok::<StoreQueryResult, StoreError>(
            StoreQueryResult { fragment: put.fragment, match_made: requested },
        ),
{
    put_writes(world, put, payload);
    let after = put_on(world, put).0;
    metadata_round_trip(put.fragment);
    assert(after.associations.contains(put.association()));
    reveal_with_fuel(run_query, 3);
}

/// Storing a fragment adds one to the number of stored hashes if the hash is new, and leaves
/// it alone otherwise.
pub proof fn put_counts(world: World, put: Put, payload: Bytes)
    requires
        world.countable(),
        put.rules.flags.well_formed(),
        put.payload == Some(payload),
        bytes_contents(payload).len() == put.fragment.size_payload,
        put.rules.force_write || !stored(world, put.repository, put.address),
    ensures
        put_on(world, put).0.metadata.dom().len() == world.metadata.dom().len()
            + if world.metadata.contains_key(put.address.hash) {
            0int
        } else {
            1int
        },
{
    put_writes(world, put, payload);
    let after = put_on(world, put).0;
    assert(after.metadata.dom() =~= world.metadata.dom().insert(put.address.hash));
}

/// Storing a fragment leaves everything under other hashes as it is, and takes no
/// association away.
pub proof fn put_keeps_others(world: World, put: Put, payload: Bytes, hash: ContentHash)
    requires
        put.rules.flags.well_formed(),
        put.payload == Some(payload),
        bytes_contents(payload).len() == put.fragment.size_payload,
        put.rules.force_write || !stored(world, put.repository, put.address),
        hash != put.address.hash,
    ensures
        put_on(world, put).0.row(hash) == world.row(hash),
        put_on(world, put).0.object(hash) == world.object(hash),
        forall|a: Association|
            #[trigger] put_on(world, put).0.associations.contains(a) <==> world.associations.contains(
                a,
            ) || a == put.association(),
{
    put_writes(world, put, payload);
    if object_key(hash) == object_key(put.address.hash) {
        object_key_injective(hash, put.address.hash);
    }
}

// ---------------------------------------------------------------------------
// Failures on the way
// ---------------------------------------------------------------------------

/// What becomes of a fragment that is to be stored when the call that comes after `calls`
/// others fails. A commit that fails, or the writing of an object that does, is taken not to
/// have happened.
pub open spec fn run_put_failing(
    base: World,
    world: World,
    step: PutStep,
    calls: nat,
    cause: String,
) -> (World, Result<(), StoreError>)
    decreases put_rank(step),
{
    let left = (calls - 1) as nat;
    match step {
        PutStep::Probe(s) => if calls == 0 {
            run_put(base, base, s.put.queried(s.query.answered(Err(Fault::Statement(cause)))))
        } else {
            run_put_failing(
                base,
                base,
                s.put.queried(
                    s.query.answered(
                        Ok(
                            base.found(
                                s.query.probe.question(
                                    s.query.query.repository,
                                    s.query.query.address,
                                ),
                            ),
                        ),
                    ),
                ),
                left,
                cause,
            )
        },
        PutStep::Metadata(s) => if calls == 0 {
            run_put(base, base, s.put.decided(s.query.answered(Err(Fault::Statement(cause)))))
        } else {
            run_put_failing(
                base,
                base,
                s.put.decided(s.query.answered(Ok(base.row(s.query.query.address.hash)))),
                left,
                cause,
            )
        },
        PutStep::Associate(s) => if calls == 0 {
            (base, s.made(Err(Fault::Statement(cause))))
        } else {
            (base.after(s.plan()), s.made(Ok(())))
        },
        PutStep::Object(s) => if calls == 0 {
            run_put(base, base, s.stored(Err(cause)))
        } else {
            let written = base.with_object(
                s.association.address.hash,
                bytes_contents(s.payload),
            );
            run_put_failing(written, written, s.stored(Ok(())), left, cause)
        },
        PutStep::Begin(s) => if calls == 0 {
            run_put(base, base, s.begun(Err(Fault::Statement(cause))))
        } else {
            run_put_failing(base, base, s.begun(Ok(())), left, cause)
        },
        PutStep::Index(s) => if calls == 0 {
            run_put(base, world, s.entered(Err(cause)))
        } else {
            run_put_failing(base, world.after(s.plan()), s.entered(Ok(())), left, cause)
        },
        PutStep::AssociateIn(s) => if calls == 0 {
            run_put(base, world, s.entered(Err(cause)))
        } else {
            run_put_failing(
                base,
                world.after(s.association.plan()),
                s.entered(Ok(())),
                left,
                cause,
            )
        },
        PutStep::Commit(s) => if calls == 0 {
            run_put(base, world, s.committed(Err(cause)))
        } else {
            run_put(world, world, s.committed(Ok(())))
        },
        PutStep::RollBack(e) => (base, Err(e)),
        PutStep::Finish(result) => (base, result),
    }
}

/// The tables are as they were.
pub open spec fn tables_kept(before: World, after: World) -> bool {
    after.associations == before.associations && after.metadata == before.metadata
}

/// The tables have both the metadata and the association of the fragment, and its payload is
/// there.
pub open spec fn tables_entered(before: World, put: Put, after: World) -> bool {
    put.payload matches Some(payload) && after == with_fragment(
        before,
        put,
        bytes_contents(payload),
    )
}

proof fn lemma_write_failing(world: World, put: Put, payload: Bytes, calls: nat, cause: String)
    requires
        put.payload == Some(payload),
        bytes_contents(payload).len() == put.fragment.size_payload,
    ensures
        ({
            let (after, result) = run_put_failing(world, world, put.written(payload), calls, cause);
            (tables_kept(world, after) && result is Err) || (tables_entered(world, put, after)
                && result is Ok)
        }),
{
    reveal_with_fuel(run_put, 6);
    reveal_with_fuel(run_put_failing, 6);
}

proof fn lemma_decided_failing(
    world: World,
    put: Put,
    result: Result<StoreQueryResult, StoreError>,
    calls: nat,
    cause: String,
)
    requires
        result matches Ok(found) ==> found.match_made == StoreMatch::MatchFull || found.match_made
            == StoreMatch::MatchNone,
    ensures
        ({
            let (after, end) = run_put_failing(world, world, put.decided(result), calls, cause);
            tables_kept(world, after) || (tables_entered(world, put, after) && end is Ok)
        }),
{
    if let Some(payload) = put.payload {
        if bytes_contents(payload).len() == put.fragment.size_payload {
            lemma_write_failing(world, put, payload, calls, cause);
        }
    }
}

/// Whichever call fails on the way, the tables have either both the metadata and the
/// association, and the payload is there, or they are as they were; and without a success
/// they are as they were.
pub proof fn put_atomic(world: World, put: Put, calls: nat, cause: String)
    ensures
        ({
            let (after, result) = run_put_failing(
                world,
                world,
                put_started(put.rules, put.repository, put.address, Ok(put.fragment), put.payload),
                calls,
                cause,
            );
            tables_kept(world, after) || (tables_entered(world, put, after) && result is Ok)
        }),
{
    reveal_with_fuel(run_put, 3);
    reveal_with_fuel(run_put_failing, 3);
    let found = Ok::<StoreQueryResult, StoreError>(nothing_found());
    let metadata = QueryMetadata {
        query: put.query(),
        match_made: StoreMatch::MatchFull,
    };
    let failed = metadata.answered(Err(Fault::Statement(cause)));
    let loaded = metadata.answered(Ok(world.row(put.address.hash)));
    let lost = Err::<StoreQueryResult, StoreError>(
        StoreError::of_fault(Fault::Statement(cause), Probe::Full.spec_call()),
    );
    lemma_put_ends(world, put, lost);
    lemma_put_ends(world, put, failed);
    if calls >= 1 {
        lemma_decided_failing(world, put, found, (calls - 1) as nat, cause);
    }
    if calls >= 2 {
        lemma_decided_failing(world, put, loaded, (calls - 2) as nat, cause);
    }
}

proof fn lemma_put_ends(world: World, put: Put, result: Result<StoreQueryResult, StoreError>)
    requires
        result matches Ok(found) ==> found.match_made == StoreMatch::MatchFull || found.match_made
            == StoreMatch::MatchNone,
    ensures
        ({
            let (after, end) = run_put(world, world, put.decided(result));
            tables_kept(world, after) || (tables_entered(world, put, after) && end is Ok)
        }),
{
    if let Some(payload) = put.payload {
        if bytes_contents(payload).len() == put.fragment.size_payload {
            lemma_run_write(world, put, payload);
        }
    }
}

// ---------------------------------------------------------------------------
// Matches
// ---------------------------------------------------------------------------

/// A full match is a match in the repository, and that is a match of the hash.
pub proof fn matches_nested(world: World, repository: RepositoryId, address: Address)
    ensures
        world.found(Probe::Full.question(repository, address)) ==> world.found(
            Probe::Partition.question(repository, address),
        ),
        world.found(Probe::Partition.question(repository, address)) ==> world.found(
            Probe::Hash.question(repository, address),
        ),
{
}

/// The match that a query makes: what was asked for where it is there. Where a match in the
/// repository is asked for and there is none, a match of the hash will do; a full match is
/// all or nothing.
pub open spec fn best_match(
    world: World,
    repository: RepositoryId,
    address: Address,
    requested: StoreMatch,
) -> StoreMatch {
    match requested {
        StoreMatch::MatchFull => if world.associated(repository, address) {
            StoreMatch::MatchFull
        } else {
            StoreMatch::MatchNone
        },
        StoreMatch::MatchPartition => if world.in_repository(repository, address.hash) {
            StoreMatch::MatchPartition
        } else if world.anywhere(address.hash) {
            StoreMatch::MatchHash
        } else {
            StoreMatch::MatchNone
        },
        StoreMatch::MatchHash => if world.anywhere(address.hash) {
            StoreMatch::MatchHash
        } else {
            StoreMatch::MatchNone
        },
        StoreMatch::MatchNone => StoreMatch::MatchNone,
    }
}

/// A query makes the best match. What it finds there is the metadata of the hash; a fragment
/// that is being obliterated, or has been, counts as not there where those are hidden.
pub proof fn query_exact(world: World, query: Query, requested: StoreMatch)
    ensures
        run_query(world, query.started(requested)) == {
            let best = best_match(world, query.repository, query.address, requested);
            if best == StoreMatch::MatchNone {
                Ok::<StoreQueryResult, StoreError>(nothing_found())
            } else {
                match world.row(query.address.hash) {
                    Some(row) => Ok(
                        if obliteration(query.flags, fragment_of(row)) && query.hide_obliterates {
                            nothing_found()
                        } else {
                            StoreQueryResult { fragment: fragment_of(row), match_made: best }
                        },
                    ),
                    None => Err(
                        StoreError::Metadata {
                            inner: Box::new(
                                StoreError::AddressNotFound {
                                    address: zero_context_address(query.address.hash),
                                },
                            ),
                        },
                    ),
                }
            }
        },
{
    reveal_with_fuel(run_query, 4);
}

/// The one statement for a batch is answered with these rows: the hashes and contexts of
/// the addresses that are associated with the repository.
pub open spec fn batch_answered(
    world: World,
    repository: RepositoryId,
    addresses: Seq<Address>,
    rows: Seq<(Seq<u8>, Seq<u8>)>,
) -> bool {
    forall|address: Address|
        #[trigger] rows.contains((address.hash@, address.context@)) <==> addresses.contains(address)
            && world.associated(repository, address)
}

/// A batch that asks for full matches says of each address what a question about it alone
/// would have said.
pub proof fn batch_exact_agrees(
    world: World,
    repository: RepositoryId,
    addresses: Seq<Address>,
    rows: Seq<(Seq<u8>, Seq<u8>)>,
    i: int,
)
    requires
        batch_answered(world, repository, addresses, rows),
        0 <= i < addresses.len(),
    ensures
        Ok::<StoreMatch, StoreError>(exact_matches(addresses, rows)[i]) == exist_on(
            world,
            repository,
            addresses[i],
            StoreMatch::MatchFull,
        ),
{
    assert(addresses.contains(addresses[i]));
    assert(rows.contains((addresses[i].hash@, addresses[i].context@)) <==> world.associated(
        repository,
        addresses[i],
    ));
}

/// Every address has been answered about, truthfully, in some order.
pub open spec fn probes_answered(
    world: World,
    repository: RepositoryId,
    addresses: Seq<Address>,
    probe: Probe,
    answers: Seq<(usize, Result<bool, Fault>)>,
) -> bool {
    &&& forall|k: int|
        0 <= k < answers.len() ==> {
            let position = (#[trigger] answers[k]).0 as int;
            &&& 0 <= position < addresses.len()
            &&& answers[k].1 == Ok::<bool, Fault>(
                world.found(probe.question(repository, addresses[position])),
            )
        }
    &&& forall|i: int| 0 <= i < addresses.len() ==> #[trigger] answered_at(answers, i)
}

/// There is an answer about the address at this position.
pub open spec fn answered_at(answers: Seq<(usize, Result<bool, Fault>)>, position: int) -> bool {
    exists|k: int| 0 <= k < answers.len() && (#[trigger] answers[k]).0 == position
}

/// A batch that asks for other matches says of each address what a question about it alone
/// would have said, in whatever order the answers have come in.
pub proof fn batch_inexact_agrees(
    world: World,
    repository: RepositoryId,
    addresses: Seq<Address>,
    probe: Probe,
    answers: Seq<(usize, Result<bool, Fault>)>,
    i: int,
)
    requires
        probes_answered(world, repository, addresses, probe, answers),
        0 <= i < addresses.len(),
    ensures
        Ok::<StoreMatch, StoreError>(
            inexact_matches(addresses.len(), probe, answers)[i],
        ) == exist_on(world, repository, addresses[i], probe.spec_matched()),
{
    assert(answered_at(answers, i));
    let k = choose|k: int| 0 <= k < answers.len() && (#[trigger] answers[k]).0 == i;
    assert(answers[k].1 == Ok::<bool, Fault>(
        world.found(probe.question(repository, addresses[i])),
    ));
    if answered_yes(answers, i) {
        let j = choose|j: int|
            0 <= j < answers.len() && (#[trigger] answers[j]).0 == i && answers[j].1 == Ok::<
                bool,
                Fault,
            >(true);
        assert(answers[j].1 == Ok::<bool, Fault>(
            world.found(probe.question(repository, addresses[i])),
        ));
    }
}

// ---------------------------------------------------------------------------
// Copying
// ---------------------------------------------------------------------------

/// What becomes of a copy.
pub open spec fn copy_on(
    world: World,
    flags: FragmentFlags,
    source_repository: RepositoryId,
    source: Address,
    repository: RepositoryId,
    context: Context,
) -> (World, Result<(), StoreError>) {
    run_copy(world, copy_started(flags, source_repository, source, repository, context))
}

/// A copy associates the hash with the destination, and does nothing else.
pub proof fn copy_associates(
    world: World,
    flags: FragmentFlags,
    source_repository: RepositoryId,
    source: Address,
    repository: RepositoryId,
    context: Context,
)
    requires
        stored(world, source_repository, source),
    ensures
        copy_on(world, flags, source_repository, source, repository, context) == (
            World {
                associations: world.associations.insert(
                    Association { repository, address: Address { hash: source.hash, context } },
                ),
                ..world
            },
            Ok::<(), StoreError>(()),
        ),
{
    reveal_with_fuel(run_copy, 4);
}

/// A copy of a fragment that is not there is an error, and nothing changes.
pub proof fn copy_of_nothing(
    world: World,
    flags: FragmentFlags,
    source_repository: RepositoryId,
    source: Address,
    repository: RepositoryId,
    context: Context,
)
    requires
        !world.associated(source_repository, source),
    ensures
        copy_on(world, flags, source_repository, source, repository, context) == (
            world,
            Err::<(), StoreError>(StoreError::AddressNotFound { address: source }),
        ),
{
    reveal_with_fuel(run_copy, 4);
}

/// What is read at the destination of a copy is what is read at its source.
pub proof fn copy_then_get(
    world: World,
    rules: StoreRules,
    source_repository: RepositoryId,
    source: Address,
    repository: RepositoryId,
    context: Context,
    sizes: Result<(), String>,
    payload: Result<(), String>,
)
    requires
        stored(world, source_repository, source),
    ensures
        ({
            let after = copy_on(
                world,
                rules.flags,
                source_repository,
                source,
                repository,
                context,
            ).0;
            get_on(
                after,
                rules,
                repository,
                Address { hash: source.hash, context },
                StoreMatch::MatchFull,
                sizes,
                payload,
            ) == get_on(
                world,
                rules,
                source_repository,
                source,
                StoreMatch::MatchFull,
                sizes,
                payload,
            )
        }),
{
    copy_associates(world, rules.flags, source_repository, source, repository, context);
}

} // verus!
