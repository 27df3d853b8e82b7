//! What holds of obliterating fragments as a whole.

use bytes::Bytes;
use crate::error::StoreError;
use crate::immutable::metadata::{
    fragment_of, metadata_loaded, metadata_round_trip, metadata_updated, obliteration, row_of,
    size_validated,
};
use crate::immutable::obliterate::{
    ended, Locked, Obliterate, ObliterateStepView, PartOutcome,
};
use crate::immutable::payload::{object_key, object_key_injective, payload_in, ObjectFault};
use crate::immutable::put::{has_flag, Association, Put};
use crate::immutable::storing::{put_again, put_on, put_writes, with_fragment};
use crate::immutable::world::{count_tells, exist_on, get_on, World};
use crate::outside::bytes_contents;
use crate::types::{
    zero_context_address, Address, ContentHash, Fragment, FragmentFlags, StoreMatch,
};
use vstd::prelude::*;

verus! {

/// What the host contributes: its verdict on sizes, and the hashes that a payload lists.
pub struct HostRules {
    pub sizes: spec_fn(Fragment) -> Result<(), String>,
    pub decode: spec_fn(Seq<u8>) -> Seq<ContentHash>,
}

/// What has become of an obliteration: what is stored in the end, the result, and how many
/// associations and payloads were removed, those of listed fragments included.
pub struct Obliterated {
    pub world: World,
    pub result: Result<(), StoreError>,
    pub num_fragments: nat,
    pub num_payloads: nat,
}

/// What has become of the obliteration of listed fragments.
pub struct PartsObliterated {
    pub world: World,
    pub outcomes: Seq<PartOutcome>,
    pub num_fragments: nat,
    pub num_payloads: nat,
}

/// Listed fragments that were not followed.
pub open spec fn lost_parts(world: World, count: nat) -> PartsObliterated {
    PartsObliterated {
        world,
        outcomes: Seq::new(count, |i: int| PartOutcome::Failed(StoreError::SlowDown)),
        num_fragments: 0,
        num_payloads: 0,
    }
}

/// A bound on the steps that are still to come.
pub open spec fn obliterate_rank(step: ObliterateStepView) -> nat {
    match step {
        ObliterateStepView::Read(_) => 10,
        ObliterateStepView::Lock(_) => 9,
        ObliterateStepView::Fetch(_) => 8,
        ObliterateStepView::Decode(_, _) => 7,
        ObliterateStepView::Parts(_, _) => 6,
        ObliterateStepView::Detach(_) => 5,
        ObliterateStepView::Count(_) => 4,
        ObliterateStepView::Restore(_) => 3,
        ObliterateStepView::Delete(_) => 2,
        ObliterateStepView::Seal(_) => 1,
        ObliterateStepView::Finish(_) => 0,
    }
}

/// What becomes of a fragment that is to be obliterated. Fragments that list others are
/// followed down to the given depth; what lies deeper is lost.
pub open spec fn run_obliterate(
    world: World,
    host: HostRules,
    step: ObliterateStepView,
    depth: nat,
) -> Obliterated
    decreases depth, obliterate_rank(step),
{
    match step {
        ObliterateStepView::Read(request) => {
            let hash = request.address.hash;
            let loaded = metadata_loaded(hash, Ok(world.row(hash)));
            let verdict = match loaded {
                Ok(fragment) => (host.sizes)(fragment),
                Err(_) => Ok(()),
            };
            run_obliterate(
                world,
                host,
                request.metadata_read(size_validated(loaded, verdict)),
                depth,
            )
        },
        ObliterateStepView::Lock(at) => run_obliterate(
            world.after(at.lock_plan()),
            host,
            at.lock_set(Ok(world.changed(at.lock_plan()))),
            depth,
        ),
        ObliterateStepView::Fetch(at) => run_obliterate(
            world,
            host,
            at.fetched(world.object(at.request.address.hash)),
            depth,
        ),
        ObliterateStepView::Decode(at, payload) => run_obliterate(
            world,
            host,
            ObliterateStepView::Parts(at, at.part_addresses((host.decode)(payload))),
            depth,
        ),
        ObliterateStepView::Parts(at, parts) => {
            let done = if depth == 0 {
                lost_parts(world, parts.len())
            } else {
                run_parts(world, host, at.request, parts, (depth - 1) as nat)
            };
            let rest = run_obliterate(
                done.world,
                host,
                at.parts_done(parts, done.outcomes),
                depth,
            );
            Obliterated {
                num_fragments: rest.num_fragments + done.num_fragments,
                num_payloads: rest.num_payloads + done.num_payloads,
                ..rest
            }
        },
        ObliterateStepView::Detach(at) => run_obliterate(
            world.after(at.detach_plan()),
            host,
            at.detached(Ok(())),
            depth,
        ),
        ObliterateStepView::Count(at) => run_obliterate(
            world,
            host,
            at.counted(Ok(world.association_count(at.request.address.hash) as i64)),
            depth,
        ),
        ObliterateStepView::Restore(at) => run_obliterate(
            world.after(at.restore_plan()),
            host,
            ended(metadata_updated(Ok(world.changed(at.restore_plan()))), 1, 0),
            depth,
        ),
        ObliterateStepView::Delete(at) => run_obliterate(
            world.without_object(at.request.address.hash),
            host,
            at.deleted(Ok(())),
            depth,
        ),
        ObliterateStepView::Seal(at) => run_obliterate(
            world.after(at.seal_plan()),
            host,
            ended(metadata_updated(Ok(world.changed(at.seal_plan()))), 1, 1),
            depth,
        ),
        ObliterateStepView::Finish(outcome) => Obliterated {
            world,
            result: outcome.result,
            num_fragments: outcome.num_fragments as nat,
            num_payloads: outcome.num_payloads as nat,
        },
    }
}

/// What becomes of the fragments that one lists, obliterated one after the other.
pub open spec fn run_parts(
    world: World,
    host: HostRules,
    request: Obliterate,
    parts: Seq<Address>,
    depth: nat,
) -> PartsObliterated
    decreases depth, 11 + parts.len(),
{
    if parts.len() == 0 {
        PartsObliterated { world, outcomes: seq![], num_fragments: 0, num_payloads: 0 }
    } else {
        let before = run_parts(world, host, request, parts.drop_last(), depth);
        let last = run_obliterate(
            before.world,
            host,
            ObliterateStepView::Read(Obliterate { address: parts.last(), ..request }),
            depth,
        );
        PartsObliterated {
            world: last.world,
            outcomes: before.outcomes.push(
                match last.result {
                    Ok(()) => PartOutcome::Done,
                    Err(e) => PartOutcome::Failed(e),
                },
            ),
            num_fragments: before.num_fragments + last.num_fragments,
            num_payloads: before.num_payloads + last.num_payloads,
        }
    }
}

/// What becomes of a fragment that is to be obliterated.
pub open spec fn obliterate_on(
    world: World,
    host: HostRules,
    request: Obliterate,
    depth: nat,
) -> Obliterated {
    run_obliterate(world, host, ObliterateStepView::Read(request), depth)
}

// ---------------------------------------------------------------------------
// What an obliteration leaves alone
// ---------------------------------------------------------------------------

/// The hash is being obliterated, or has been.
pub open spec fn locked_in(world: World, flags: FragmentFlags, hash: ContentHash) -> bool {
    world.metadata.contains_key(hash) && obliteration(flags, fragment_of(world.metadata[hash]))
}

/// Everything under a hash is as it was.
pub open spec fn same_at(before: World, after: World, hash: ContentHash) -> bool {
    &&& after.row(hash) == before.row(hash)
    &&& after.object(hash) == before.object(hash)
    &&& forall|a: Association|
        a.address.hash == hash ==> (#[trigger] after.associations.contains(a)
            <==> before.associations.contains(a))
}

/// An obliteration has taken associations only from one repository and context, and has
/// added nothing.
pub open spec fn only_taken(before: World, after: World, request: Obliterate) -> bool {
    &&& forall|a: Association| #[trigger]
        after.associations.contains(a) ==> before.associations.contains(a)
    &&& forall|a: Association| #[trigger]
        before.associations.contains(a) && !after.associations.contains(a) ==> a.repository
            == request.repository && a.address.context == request.address.context
    &&& forall|hash: ContentHash| #[trigger]
        after.metadata.contains_key(hash) <==> before.metadata.contains_key(hash)
    &&& forall|key: Seq<char>| #[trigger]
        after.objects.contains_key(key) ==> before.objects.contains_key(key) && after.objects[key]
            == before.objects[key]
    &&& before.countable() ==> after.countable()
}

/// The request that a step belongs to.
pub open spec fn request_of(step: ObliterateStepView) -> Option<Obliterate> {
    match step {
        ObliterateStepView::Read(request) => Some(request),
        ObliterateStepView::Lock(at) => Some(at.request),
        ObliterateStepView::Fetch(at) => Some(at.request),
        ObliterateStepView::Decode(at, _) => Some(at.request),
        ObliterateStepView::Parts(at, _) => Some(at.request),
        ObliterateStepView::Detach(at) => Some(at.request),
        ObliterateStepView::Count(at) => Some(at.request),
        ObliterateStepView::Restore(at) => Some(at.request),
        ObliterateStepView::Delete(at) => Some(at.request),
        ObliterateStepView::Seal(at) => Some(at.request),
        ObliterateStepView::Finish(_) => None,
    }
}

pub(crate) proof fn lemma_taken_transitive(a: World, b: World, c: World, request: Obliterate)
    requires
        only_taken(a, b, request),
        only_taken(b, c, request),
    ensures
        only_taken(a, c, request),
{
    assert forall|x: Association| #[trigger]
        a.associations.contains(x) && !c.associations.contains(x) implies x.repository
        == request.repository && x.address.context == request.address.context by {
        if b.associations.contains(x) {
        }
    }
    assert forall|key: Seq<char>| #[trigger]
        c.objects.contains_key(key) implies a.objects.contains_key(key) && c.objects[key]
        == a.objects[key] by {
        assert(b.objects.contains_key(key));
    }
    assert forall|hash: ContentHash| #[trigger]
        c.metadata.contains_key(hash) <==> a.metadata.contains_key(hash) by {
        assert(b.metadata.contains_key(hash) <==> a.metadata.contains_key(hash));
    }
}

/// What is stored after a step, apart from what becomes of listed fragments.
pub open spec fn own_effect(world: World, step: ObliterateStepView) -> World {
    match step {
        ObliterateStepView::Lock(at) => world.after(at.lock_plan()),
        ObliterateStepView::Detach(at) => world.after(at.detach_plan()),
        ObliterateStepView::Restore(at) => world.after(at.restore_plan()),
        ObliterateStepView::Delete(at) => world.without_object(at.request.address.hash),
        ObliterateStepView::Seal(at) => world.after(at.seal_plan()),
        _ => world,
    }
}

/// The step that follows once storage has answered, apart from what becomes of listed
/// fragments.
pub open spec fn next_step(
    world: World,
    host: HostRules,
    step: ObliterateStepView,
) -> ObliterateStepView {
    match step {
        ObliterateStepView::Read(request) => {
            let hash = request.address.hash;
            let loaded = metadata_loaded(hash, Ok(world.row(hash)));
            let verdict = match loaded {
                Ok(fragment) => (host.sizes)(fragment),
                Err(_) => Ok(()),
            };
            request.metadata_read(size_validated(loaded, verdict))
        },
        ObliterateStepView::Lock(at) => at.lock_set(Ok(world.changed(at.lock_plan()))),
        ObliterateStepView::Fetch(at) => at.fetched(world.object(at.request.address.hash)),
        ObliterateStepView::Decode(at, payload) => ObliterateStepView::Parts(
            at,
            at.part_addresses((host.decode)(payload)),
        ),
        ObliterateStepView::Detach(at) => at.detached(Ok(())),
        ObliterateStepView::Count(at) => at.counted(
            Ok(world.association_count(at.request.address.hash) as i64),
        ),
        ObliterateStepView::Restore(at) => ended(
            metadata_updated(Ok(world.changed(at.restore_plan()))),
            1,
            0,
        ),
        ObliterateStepView::Delete(at) => at.deleted(Ok(())),
        ObliterateStepView::Seal(at) => ended(
            metadata_updated(Ok(world.changed(at.seal_plan()))),
            1,
            1,
        ),
        _ => step,
    }
}

/// One step changes nothing under other hashes.
pub(crate) proof fn lemma_step_frame(world: World, step: ObliterateStepView, hash: ContentHash)
    requires
        request_of(step) matches Some(request) && request.address.hash != hash,
    ensures
        same_at(world, own_effect(world, step), hash),
{
    let own = request_of(step)->0.address.hash;
    if object_key(hash) == object_key(own) {
        object_key_injective(hash, own);
    }
}

pub(crate) proof fn lemma_step_taken(world: World, step: ObliterateStepView)
    requires
        request_of(step) is Some,
    ensures
        only_taken(world, own_effect(world, step), request_of(step)->0),
{
    let after = own_effect(world, step);
    assert(after.metadata.dom() =~= world.metadata.dom());
    if world.countable() {
        vstd::set_lib::lemma_len_subset(after.associations, world.associations);
    }
}

proof fn lemma_run_frame(
    world: World,
    host: HostRules,
    step: ObliterateStepView,
    depth: nat,
    hash: ContentHash,
)
    requires
        request_of(step) matches Some(request) ==> locked_in(world, request.rules.flags, hash),
        request_of(step) matches Some(request) ==> step is Read || request.address.hash != hash,
    ensures
        same_at(world, run_obliterate(world, host, step, depth).world, hash),
    decreases depth, obliterate_rank(step),
{
    match step {
        ObliterateStepView::Parts(at, parts) => {
            let done = if depth == 0 {
                lost_parts(world, parts.len())
            } else {
                run_parts(world, host, at.request, parts, (depth - 1) as nat)
            };
            if depth > 0 {
                lemma_parts_frame(world, host, at.request, parts, (depth - 1) as nat, hash);
            }
            lemma_run_frame(done.world, host, at.parts_done(parts, done.outcomes), depth, hash);
        },
        ObliterateStepView::Finish(_) => {},
        _ => {
            if !(step is Read) {
                lemma_step_frame(world, step, hash);
            }
            let next_world = own_effect(world, step);
            lemma_run_frame(next_world, host, next_step(world, host, step), depth, hash);
        },
    }
}

proof fn lemma_parts_frame(
    world: World,
    host: HostRules,
    request: Obliterate,
    parts: Seq<Address>,
    depth: nat,
    hash: ContentHash,
)
    requires
        locked_in(world, request.rules.flags, hash),
    ensures
        same_at(world, run_parts(world, host, request, parts, depth).world, hash),
    decreases depth, 11 + parts.len(),
{
    if parts.len() > 0 {
        lemma_parts_frame(world, host, request, parts.drop_last(), depth, hash);
        let before = run_parts(world, host, request, parts.drop_last(), depth);
        let step = ObliterateStepView::Read(Obliterate { address: parts.last(), ..request });
        lemma_run_frame(before.world, host, step, depth, hash);
    }
}

/// Each of the listed fragments has an outcome.
proof fn lemma_parts_counted(
    world: World,
    host: HostRules,
    request: Obliterate,
    parts: Seq<Address>,
    depth: nat,
)
    ensures
        run_parts(world, host, request, parts, depth).outcomes.len() == parts.len(),
    decreases parts.len(),
{
    if parts.len() > 0 {
        lemma_parts_counted(world, host, request, parts.drop_last(), depth);
    }
}

proof fn lemma_run_taken(world: World, host: HostRules, step: ObliterateStepView, depth: nat)
    requires
        request_of(step) is Some,
        step matches ObliterateStepView::Parts(at, parts) ==> (forall|i: int|
            0 <= i < parts.len() ==> (#[trigger] parts[i]).context == at.request.address.context),
    ensures
        only_taken(
            world,
            run_obliterate(world, host, step, depth).world,
            request_of(step)->0,
        ),
    decreases depth, obliterate_rank(step),
{
    let request = request_of(step)->0;
    lemma_step_taken(world, step);
    let next_world = own_effect(world, step);
    match step {
        ObliterateStepView::Parts(at, parts) => {
            let done = if depth == 0 {
                lost_parts(world, parts.len())
            } else {
                run_parts(world, host, at.request, parts, (depth - 1) as nat)
            };
            if depth > 0 {
                lemma_parts_taken(world, host, request, parts, (depth - 1) as nat);
            }
            let next = at.parts_done(parts, done.outcomes);
            if request_of(next) is Some {
                lemma_run_taken(done.world, host, next, depth);
                lemma_taken_transitive(
                    world,
                    done.world,
                    run_obliterate(done.world, host, next, depth).world,
                    request,
                );
            }
        },
        _ => {
            let next = next_step(world, host, step);
            if request_of(next) is Some {
                lemma_run_taken(next_world, host, next, depth);
                lemma_taken_transitive(
                    world,
                    next_world,
                    run_obliterate(next_world, host, next, depth).world,
                    request,
                );
            }
        },
    }
}

proof fn lemma_parts_taken(
    world: World,
    host: HostRules,
    request: Obliterate,
    parts: Seq<Address>,
    depth: nat,
)
    requires
        forall|i: int|
            0 <= i < parts.len() ==> (#[trigger] parts[i]).context == request.address.context,
    ensures
        only_taken(world, run_parts(world, host, request, parts, depth).world, request),
    decreases depth, 11 + parts.len(),
{
    if parts.len() > 0 {
        lemma_parts_taken(world, host, request, parts.drop_last(), depth);
        let before = run_parts(world, host, request, parts.drop_last(), depth);
        let part = Obliterate { address: parts.last(), ..request };
        let step = ObliterateStepView::Read(part);
        lemma_run_taken(before.world, host, step, depth);
        let after = run_obliterate(before.world, host, step, depth).world;
        assert(parts[parts.len() - 1].context == request.address.context);
        assert(only_taken(before.world, after, request));
        lemma_taken_transitive(world, before.world, after, request);
    }
}

/// An obliteration adds nothing. It takes associations only from the repository and the
/// context that it was asked for, forgets no metadata, and changes no object but by deleting
/// it.
pub proof fn obliterate_only_takes(
    world: World,
    host: HostRules,
    request: Obliterate,
    depth: nat,
)
    ensures
        only_taken(world, obliterate_on(world, host, request, depth).world, request),
{
    lemma_run_taken(world, host, ObliterateStepView::Read(request), depth);
}

/// An obliteration leaves everything alone under a hash that somebody else is obliterating,
/// or that has been obliterated.
pub proof fn obliterate_respects_lock(
    world: World,
    host: HostRules,
    request: Obliterate,
    depth: nat,
    hash: ContentHash,
)
    requires
        locked_in(world, request.rules.flags, hash),
    ensures
        same_at(world, obliterate_on(world, host, request, depth).world, hash),
{
    lemma_run_frame(world, host, ObliterateStepView::Read(request), depth, hash);
}

// ---------------------------------------------------------------------------
// What an obliteration does
// ---------------------------------------------------------------------------

/// The row of a hash is one that was written for a fragment.
pub open spec fn written_row(world: World, hash: ContentHash) -> bool {
    world.metadata.contains_key(hash) && world.metadata[hash] == row_of(
        fragment_of(world.metadata[hash]),
    )
}

/// The association of the fragment is gone. With other associations left, metadata and
/// payload are what they were; with none left, the payload is gone and the metadata says so.
pub open spec fn erased(before: World, after: World, request: Obliterate) -> bool {
    let hash = request.address.hash;
    &&& !after.associated(request.repository, request.address)
    &&& if after.anywhere(hash) {
        after.row(hash) == before.row(hash) && after.object(hash) == before.object(hash)
    } else {
        &&& after.row(hash) == Some(
            row_of(
                Fragment {
                    flags: request.rules.flags.payload_obliterated,
                    size_payload: 0,
                    size_content: 0,
                },
            ),
        )
        &&& after.object(hash) == Err::<Seq<u8>, ObjectFault>(ObjectFault::NoSuchKey)
    }
}

pub(crate) proof fn lemma_lock_flag(flags: FragmentFlags, original: Fragment)
    requires
        flags.well_formed(),
        !obliteration(flags, original),
    ensures
        ({
            let updated = Fragment {
                flags: original.flags | flags.payload_obliterating,
                ..original
            };
            &&& obliteration(flags, updated)
            &&& has_flag(updated, flags.payload_obliterating)
            &&& updated != original
            &&& (updated.flags & flags.payload_fragmented != 0) == (original.flags
                & flags.payload_fragmented != 0)
        }),
{
    let f = original.flags;
    let a = flags.payload_obliterating;
    let b = flags.payload_obliterated;
    let c = flags.payload_fragmented;
    assert((f | a) & (a | b) != 0) by (bit_vector)
        requires
            a != 0,
    ;
    assert((f | a) & a == a) by (bit_vector);
    assert(f | a != f) by (bit_vector)
        requires
            a != 0,
            f & (a | b) == 0,
    ;
    assert((f | a) & c == f & c) by (bit_vector)
        requires
            c & (a | b) == 0,
    ;
}

pub(crate) proof fn lemma_detach(world: World, host: HostRules, at: Locked, depth: nat)
    requires
        world.countable(),
        world.row(at.request.address.hash) == Some(row_of(at.updated)),
    ensures
        ({
            let end = run_obliterate(world, host, ObliterateStepView::Detach(at), depth);
            let hash = at.request.address.hash;
            let detached = world.after(at.detach_plan());
            &&& end.result == Ok::<(), StoreError>(())
            &&& end.num_fragments == 1
            &&& end.num_payloads == if detached.anywhere(hash) {
                0nat
            } else {
                1nat
            }
            &&& end.world == if detached.anywhere(hash) {
                World {
                    metadata: detached.metadata.insert(hash, row_of(at.original)),
                    ..detached
                }
            } else {
                World {
                    metadata: detached.metadata.insert(hash, row_of(at.sealed())),
                    objects: detached.objects.remove(object_key(hash)),
                    ..detached
                }
            }
        }),
{
    reveal_with_fuel(run_obliterate, 6);
    let detached = world.after(at.detach_plan());
    lemma_step_taken(world, ObliterateStepView::Detach(at));
    count_tells(detached, at.request.address.hash);
}

/// An obliteration that succeeds has erased the fragment, and has done so in the same way
/// whether or not the fragment lists others.
pub proof fn obliterate_erases(world: World, host: HostRules, request: Obliterate, depth: nat)
    requires
        world.countable(),
        request.rules.flags.well_formed(),
        written_row(world, request.address.hash),
        !locked_in(world, request.rules.flags, request.address.hash),
        obliterate_on(world, host, request, depth).result is Ok,
    ensures
        erased(world, obliterate_on(world, host, request, depth).world, request),
{
    reveal_with_fuel(run_obliterate, 6);
    let hash = request.address.hash;
    let original = fragment_of(world.metadata[hash]);
    let at = request.locked(original);
    lemma_lock_flag(request.rules.flags, original);
    metadata_round_trip(at.updated);
    let end = obliterate_on(world, host, request, depth).world;
    let locked = world.after(at.lock_plan());
    lemma_step_taken(world, ObliterateStepView::Lock(at));
    let ready = if !at.lists_parts() {
        locked
    } else {
        let payload = (at.fetched(locked.object(hash)))->Decode_1;
        let parts = at.part_addresses((host.decode)(payload));
        if depth == 0 {
            locked
        } else {
            lemma_parts_frame(locked, host, request, parts, (depth - 1) as nat, hash);
            lemma_parts_taken(locked, host, request, parts, (depth - 1) as nat);
            run_parts(locked, host, request, parts, (depth - 1) as nat).world
        }
    };
    lemma_detach(ready, host, at, depth);
    assert(end == run_obliterate(ready, host, ObliterateStepView::Detach(at), depth).world);
    let detached = ready.after(at.detach_plan());
    assert(end.associations == detached.associations);
    assert(end.anywhere(hash) == detached.anywhere(hash));
}

/// A fragment that lists no others is obliterated without fail: its association is gone,
/// nothing else is taken, and everything under other hashes is as it was. One association is
/// counted, and one payload if it was the last.
pub proof fn obliterate_single(world: World, host: HostRules, request: Obliterate, depth: nat)
    requires
        world.countable(),
        request.rules.flags.well_formed(),
        written_row(world, request.address.hash),
        !locked_in(world, request.rules.flags, request.address.hash),
        fragment_of(world.metadata[request.address.hash]).flags
            & request.rules.flags.payload_fragmented == 0,
        (host.sizes)(fragment_of(world.metadata[request.address.hash])) == Ok::<(), String>(()),
    ensures
        ({
            let end = obliterate_on(world, host, request, depth);
            &&& end.result == Ok::<(), StoreError>(())
            &&& erased(world, end.world, request)
            &&& end.world.associations == world.associations.remove(
                Association { repository: request.repository, address: request.address },
            )
            &&& forall|other: ContentHash|
                other != request.address.hash ==> #[trigger] same_at(world, end.world, other)
            &&& end.num_fragments == 1
            &&& end.num_payloads == if end.world.anywhere(request.address.hash) {
                0nat
            } else {
                1nat
            }
        }),
{
    reveal_with_fuel(run_obliterate, 4);
    let hash = request.address.hash;
    let original = fragment_of(world.metadata[hash]);
    let at = request.locked(original);
    lemma_lock_flag(request.rules.flags, original);
    let locked = world.after(at.lock_plan());
    lemma_step_taken(world, ObliterateStepView::Lock(at));
    lemma_detach(locked, host, at, depth);
    let end = obliterate_on(world, host, request, depth);
    assert(end == run_obliterate(locked, host, ObliterateStepView::Detach(at), depth));
    let detached = locked.after(at.detach_plan());
    assert(end.world.associations == detached.associations);
    assert(end.world.anywhere(hash) == detached.anywhere(hash));
    assert forall|other: ContentHash| other != hash implies #[trigger] same_at(
        world,
        end.world,
        other,
    ) by {
        if object_key(other) == object_key(hash) {
            object_key_injective(other, hash);
        }
    }
}

/// What becomes of the fragments that one lists, followed down to the given depth.
pub open spec fn parts_followed(
    world: World,
    host: HostRules,
    request: Obliterate,
    parts: Seq<Address>,
    depth: nat,
) -> PartsObliterated {
    if depth == 0 {
        lost_parts(world, parts.len())
    } else {
        run_parts(world, host, request, parts, (depth - 1) as nat)
    }
}

/// The fragment is there with its associations and its payload, and its metadata is locked,
/// with the sizes that it had.
pub open spec fn left_locked(before: World, after: World, request: Obliterate) -> bool {
    let hash = request.address.hash;
    let original = fragment_of(before.metadata[hash]);
    &&& after.row(hash) == Some(row_of(request.locked(original).updated))
    &&& after.object(hash) == before.object(hash)
    &&& forall|a: Association|
        a.address.hash == hash ==> (#[trigger] after.associations.contains(a)
            <==> before.associations.contains(a))
}

/// A fragment that lists others is obliterated if all of these are; what was removed with
/// them is counted in. If one of them cannot be obliterated, nothing more is done: the
/// fragment is left locked, the error names it, and only what was removed with the others is
/// counted.
pub proof fn obliterate_listing(
    world: World,
    host: HostRules,
    request: Obliterate,
    depth: nat,
    contents: Seq<u8>,
    payload: Seq<u8>,
)
    requires
        world.countable(),
        request.rules.flags.well_formed(),
        written_row(world, request.address.hash),
        !locked_in(world, request.rules.flags, request.address.hash),
        fragment_of(world.metadata[request.address.hash]).flags
            & request.rules.flags.payload_fragmented != 0,
        (host.sizes)(fragment_of(world.metadata[request.address.hash])) == Ok::<(), String>(()),
        world.object(request.address.hash) == Ok::<Seq<u8>, ObjectFault>(contents),
        payload_in(
            request.rules.force_write,
            contents,
            request.address.hash,
            fragment_of(world.metadata[request.address.hash]),
        ) == Ok::<Seq<u8>, StoreError>(payload),
    ensures
        ({
            let at = request.locked(fragment_of(world.metadata[request.address.hash]));
            let parts = at.part_addresses((host.decode)(payload));
            let done = parts_followed(
                world.after(at.lock_plan()),
                host,
                request,
                parts,
                depth,
            );
            let end = obliterate_on(world, host, request, depth);
            if forall|i: int|
                0 <= i < done.outcomes.len() ==> (#[trigger] done.outcomes[i]) is Done {
                &&& end.result == Ok::<(), StoreError>(())
                &&& erased(world, end.world, request)
                &&& end.num_fragments == done.num_fragments + 1
                &&& end.num_payloads == done.num_payloads + if end.world.anywhere(
                    request.address.hash,
                ) {
                    0nat
                } else {
                    1nat
                }
            } else {
                &&& end.result == Err::<(), StoreError>(
                    StoreError::Obliterate { address: request.address },
                )
                &&& end.world == done.world
                &&& left_locked(world, end.world, request)
                &&& end.num_fragments == done.num_fragments
                &&& end.num_payloads == done.num_payloads
            }
        }),
{
    let hash = request.address.hash;
    let original = fragment_of(world.metadata[hash]);
    let at = request.locked(original);
    lemma_lock_flag(request.rules.flags, original);
    metadata_round_trip(at.updated);
    let locked = world.after(at.lock_plan());
    lemma_step_taken(world, ObliterateStepView::Lock(at));
    let parts = at.part_addresses((host.decode)(payload));
    let done = parts_followed(locked, host, request, parts, depth);
    if depth > 0 {
        lemma_parts_frame(locked, host, request, parts, (depth - 1) as nat, hash);
        lemma_parts_taken(locked, host, request, parts, (depth - 1) as nat);
        lemma_parts_counted(locked, host, request, parts, (depth - 1) as nat);
    }
    let end = obliterate_on(world, host, request, depth);
    lemma_reaches_parts(world, host, request, depth, contents, payload);
    let next = at.parts_done(parts, done.outcomes);
    let rest = run_obliterate(done.world, host, next, depth);
    if next is Detach {
        lemma_detach(done.world, host, at, depth);
        let detached = done.world.after(at.detach_plan());
        assert(end.world.associations == detached.associations);
        assert(end.world.anywhere(hash) == detached.anywhere(hash));
    }
}

/// The steps of a fragment that lists others, up to the listed ones.
proof fn lemma_reaches_parts(
    world: World,
    host: HostRules,
    request: Obliterate,
    depth: nat,
    contents: Seq<u8>,
    payload: Seq<u8>,
)
    requires
        request.rules.flags.well_formed(),
        written_row(world, request.address.hash),
        !locked_in(world, request.rules.flags, request.address.hash),
        fragment_of(world.metadata[request.address.hash]).flags
            & request.rules.flags.payload_fragmented != 0,
        (host.sizes)(fragment_of(world.metadata[request.address.hash])) == Ok::<(), String>(()),
        world.object(request.address.hash) == Ok::<Seq<u8>, ObjectFault>(contents),
        payload_in(
            request.rules.force_write,
            contents,
            request.address.hash,
            fragment_of(world.metadata[request.address.hash]),
        ) == Ok::<Seq<u8>, StoreError>(payload),
    ensures
        ({
            let at = request.locked(fragment_of(world.metadata[request.address.hash]));
            let parts = at.part_addresses((host.decode)(payload));
            let locked = world.after(at.lock_plan());
            let done = parts_followed(locked, host, request, parts, depth);
            let rest = run_obliterate(
                done.world,
                host,
                at.parts_done(parts, done.outcomes),
                depth,
            );
            obliterate_on(world, host, request, depth) == (Obliterated {
                num_fragments: rest.num_fragments + done.num_fragments,
                num_payloads: rest.num_payloads + done.num_payloads,
                ..rest
            })
        }),
{
    reveal_with_fuel(run_obliterate, 6);
    let original = fragment_of(world.metadata[request.address.hash]);
    lemma_lock_flag(request.rules.flags, original);
}

/// Where every call to storage is answered and an obliteration that has the lock fails all
/// the same, over its payload or over what it lists, the fragment is left locked.
pub proof fn obliterate_failed(world: World, host: HostRules, request: Obliterate, depth: nat)
    requires
        world.countable(),
        request.rules.flags.well_formed(),
        written_row(world, request.address.hash),
        !locked_in(world, request.rules.flags, request.address.hash),
        (host.sizes)(fragment_of(world.metadata[request.address.hash])) == Ok::<(), String>(()),
        obliterate_on(world, host, request, depth).result is Err,
    ensures
        left_locked(world, obliterate_on(world, host, request, depth).world, request),
{
    let hash = request.address.hash;
    let original = fragment_of(world.metadata[hash]);
    let at = request.locked(original);
    lemma_lock_flag(request.rules.flags, original);
    if original.flags & request.rules.flags.payload_fragmented == 0 {
        obliterate_single(world, host, request, depth);
    } else {
        let locked = world.after(at.lock_plan());
        match at.fetched(locked.object(hash)) {
            ObliterateStepView::Decode(_, payload) => {
                obliterate_listing(
                    world,
                    host,
                    request,
                    depth,
                    world.object(hash)->Ok_0,
                    payload,
                );
            },
            _ => {
                reveal_with_fuel(run_obliterate, 4);
                assert(obliterate_on(world, host, request, depth).world == locked);
            },
        }
    }
}

/// A fragment whose sizes the host objects to is not obliterated, and nothing changes.
pub proof fn obliterate_refused(
    world: World,
    host: HostRules,
    request: Obliterate,
    depth: nat,
    cause: String,
)
    requires
        world.metadata.contains_key(request.address.hash),
        (host.sizes)(fragment_of(world.metadata[request.address.hash])) == Err::<(), String>(
            cause,
        ),
    ensures
        obliterate_on(world, host, request, depth) == (Obliterated {
            world,
            result: Err(StoreError::Invalid { cause }),
            num_fragments: 0,
            num_payloads: 0,
        }),
{
    reveal_with_fuel(run_obliterate, 3);
}

/// A fragment that is being obliterated, or has been, is left alone, and that is no error.
pub proof fn obliterate_twice(world: World, host: HostRules, request: Obliterate, depth: nat)
    requires
        locked_in(world, request.rules.flags, request.address.hash),
        (host.sizes)(fragment_of(world.metadata[request.address.hash])) == Ok::<(), String>(()),
    ensures
        obliterate_on(world, host, request, depth) == (Obliterated {
            world,
            result: Ok(()),
            num_fragments: 0,
            num_payloads: 0,
        }),
{
    reveal_with_fuel(run_obliterate, 3);
}

/// A fragment that was never stored cannot be obliterated, and nothing changes.
pub proof fn obliterate_unknown(world: World, host: HostRules, request: Obliterate, depth: nat)
    requires
        !world.metadata.contains_key(request.address.hash),
    ensures
        obliterate_on(world, host, request, depth) == (Obliterated {
            world,
            result: Err(
                StoreError::AddressNotFound {
                    address: zero_context_address(request.address.hash),
                },
            ),
            num_fragments: 0,
            num_payloads: 0,
        }),
{
    reveal_with_fuel(run_obliterate, 3);
}

/// Of two obliterations that have read the same metadata, only one gets the lock; the other
/// one is told that the metadata has changed.
pub proof fn lock_once(world: World, first: Obliterate, second: Obliterate, original: Fragment)
    requires
        first.rules.flags.well_formed(),
        second.rules == first.rules,
        second.address.hash == first.address.hash,
        !obliteration(first.rules.flags, original),
        world.row(first.address.hash) == Some(row_of(original)),
    ensures
        world.changed(first.locked(original).lock_plan()) == 1,
        ({
            let after = world.after(first.locked(original).lock_plan());
            let at = second.locked(original);
            &&& after.changed(at.lock_plan()) == 0
            &&& after.after(at.lock_plan()) == after
            &&& at.lock_set(Ok(0)) == ended(Err(StoreError::MetadataConflict), 0, 0)
        }),
{
    lemma_lock_flag(first.rules.flags, original);
    let updated = first.locked(original).updated;
    metadata_round_trip(original);
    metadata_round_trip(updated);
    assert(row_of(updated) != row_of(original));
}

/// Once a fragment was erased it is not there, in full.
pub proof fn erased_not_there(
    before: World,
    after: World,
    request: Obliterate,
    sizes: Result<(), String>,
    payload: Result<(), String>,
)
    requires
        erased(before, after, request),
    ensures
        exist_on(after, request.repository, request.address, StoreMatch::MatchFull) == Ok::<
            StoreMatch,
            StoreError,
        >(StoreMatch::MatchNone),
        get_on(
            after,
            request.rules,
            request.repository,
            request.address,
            StoreMatch::MatchFull,
            sizes,
            payload,
        ) is Err,
{
}

/// A fragment that was erased can be stored again, and is then read as it was stored.
pub proof fn erased_then_put(
    before: World,
    after: World,
    request: Obliterate,
    put: Put,
    payload: Bytes,
)
    requires
        erased(before, after, request),
        put.rules.flags.well_formed(),
        put.repository == request.repository,
        put.address == request.address,
        put.payload == Some(payload),
        bytes_contents(payload).len() == put.fragment.size_payload,
    ensures
        put_on(after, put) == (
            with_fragment(after, put, bytes_contents(payload)),
            Ok::<(), StoreError>(()),
        ),
{
    put_writes(after, put, payload);
}

/// While a fragment is being obliterated, storing it is refused, unless writing is forced.
pub proof fn put_while_locked(world: World, request: Obliterate, original: Fragment, put: Put)
    requires
        put.rules == request.rules,
        put.rules.flags.well_formed(),
        !put.rules.force_write,
        put.address.hash == request.address.hash,
        !obliteration(request.rules.flags, original),
        world.row(request.address.hash) == Some(row_of(request.locked(original).updated)),
        world.associated(put.repository, put.address),
    ensures
        put_on(world, put) == (
            world,
            Err::<(), StoreError>(StoreError::Obliterate { address: put.address }),
        ),
{
    lemma_lock_flag(request.rules.flags, original);
    metadata_round_trip(request.locked(original).updated);
    put_again(world, put);
}

} // verus!
