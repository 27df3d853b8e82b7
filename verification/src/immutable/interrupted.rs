//! What holds of obliterating fragments when calls to storage fail.
//!
//! Any number of calls may fail, those made for listed fragments included. A call that fails
//! may have had its effect all the same, with only the answer lost.

use crate::immutable::erasing::{
    erased, lemma_detach, lemma_lock_flag, lemma_step_frame, lemma_step_taken,
    lemma_taken_transitive, locked_in, lost_parts, next_step, obliterate_on, obliterate_rank,
    only_taken, own_effect, request_of, run_obliterate, run_parts, same_at, written_row, HostRules,
    Obliterated, PartsObliterated,
};
use crate::immutable::metadata::{
    fragment_of, metadata_loaded, metadata_round_trip, metadata_updated, obliteration, row_of,
    size_validated,
};
use crate::immutable::obliterate::{
    ended, Locked, Obliterate, ObliterateStepView, PartOutcome,
};
use crate::immutable::payload::{object_key, object_key_injective, ObjectFault};
use crate::immutable::world::{count_tells, World};
use crate::sql::Fault;
use crate::types::{Address, ContentHash, Fragment, FragmentFlags};
use vstd::prelude::*;

verus! {

/// How a call to storage goes.
pub enum CallFate {
    Answered,
    /// It fails, and nothing has happened.
    Refused(String),
    /// It has had its effect, but is reported as a failure.
    Unheard(String),
}

/// What has become of an obliteration, and how many calls were made by then.
pub struct Interrupted {
    pub end: Obliterated,
    pub calls: nat,
}

/// What has become of the obliteration of listed fragments, and how many calls were made by
/// then.
pub struct PartsInterrupted {
    pub done: PartsObliterated,
    pub calls: nat,
}

/// The step that follows a call that is reported as a failure.
pub open spec fn failed_step(step: ObliterateStepView, cause: String) -> ObliterateStepView {
    match step {
        ObliterateStepView::Read(request) => request.metadata_read(
            size_validated(
                metadata_loaded(request.address.hash, Err(Fault::Statement(cause))),
                Ok(()),
            ),
        ),
        ObliterateStepView::Lock(at) => at.lock_set(Err(Fault::Statement(cause))),
        ObliterateStepView::Fetch(at) => at.fetched(Err(ObjectFault::Request(cause))),
        ObliterateStepView::Detach(at) => at.detached(Err(Fault::Statement(cause))),
        ObliterateStepView::Count(at) => at.counted(Err(Fault::Statement(cause))),
        ObliterateStepView::Restore(_) => ended(
            metadata_updated(Err(Fault::Statement(cause))),
            1,
            0,
        ),
        ObliterateStepView::Delete(at) => at.deleted(Err(cause)),
        ObliterateStepView::Seal(_) => ended(
            metadata_updated(Err(Fault::Statement(cause))),
            1,
            1,
        ),
        _ => step,
    }
}

/// How a step goes that comes after `calls` calls. To decode a payload takes no call.
pub open spec fn fate_of(
    fates: spec_fn(nat) -> CallFate,
    step: ObliterateStepView,
    calls: nat,
) -> CallFate {
    if step is Decode {
        CallFate::Answered
    } else {
        fates(calls)
    }
}

/// The number of calls made once a step was taken.
pub open spec fn calls_after(step: ObliterateStepView, calls: nat) -> nat {
    if step is Decode {
        calls
    } else {
        calls + 1
    }
}

/// What is stored after a step that goes this way.
pub open spec fn effect_with(world: World, step: ObliterateStepView, fate: CallFate) -> World {
    if fate is Refused {
        world
    } else {
        own_effect(world, step)
    }
}

/// What follows a step that goes this way.
pub open spec fn step_with(
    world: World,
    host: HostRules,
    step: ObliterateStepView,
    fate: CallFate,
) -> ObliterateStepView {
    match fate {
        CallFate::Answered => next_step(world, host, step),
        CallFate::Refused(cause) => failed_step(step, cause),
        CallFate::Unheard(cause) => failed_step(step, cause),
    }
}

/// What becomes of a fragment that is to be obliterated, when the call that comes after `n`
/// others goes as `fates(n)` says.
pub open spec fn run_obliterate_failing(
    world: World,
    host: HostRules,
    step: ObliterateStepView,
    depth: nat,
    fates: spec_fn(nat) -> CallFate,
    calls: nat,
) -> Interrupted
    decreases depth, obliterate_rank(step),
{
    match step {
        ObliterateStepView::Parts(at, parts) => {
            let followed = if depth == 0 {
                PartsInterrupted { done: lost_parts(world, parts.len()), calls }
            } else {
                run_parts_failing(world, host, at.request, parts, (depth - 1) as nat, fates, calls)
            };
            let done = followed.done;
            let rest = run_obliterate_failing(
                done.world,
                host,
                at.parts_done(parts, done.outcomes),
                depth,
                fates,
                followed.calls,
            );
            Interrupted {
                end: Obliterated {
                    num_fragments: rest.end.num_fragments + done.num_fragments,
                    num_payloads: rest.end.num_payloads + done.num_payloads,
                    ..rest.end
                },
                calls: rest.calls,
            }
        },
        ObliterateStepView::Finish(outcome) => Interrupted {
            end: Obliterated {
                world,
                result: outcome.result,
                num_fragments: outcome.num_fragments as nat,
                num_payloads: outcome.num_payloads as nat,
            },
            calls,
        },
        _ => {
            let fate = fate_of(fates, step, calls);
            run_obliterate_failing(
                effect_with(world, step, fate),
                host,
                step_with(world, host, step, fate),
                depth,
                fates,
                calls_after(step, calls),
            )
        },
    }
}

/// What becomes of the fragments that one lists, obliterated one after the other.
pub open spec fn run_parts_failing(
    world: World,
    host: HostRules,
    request: Obliterate,
    parts: Seq<Address>,
    depth: nat,
    fates: spec_fn(nat) -> CallFate,
    calls: nat,
) -> PartsInterrupted
    decreases depth, 11 + parts.len(),
{
    if parts.len() == 0 {
        PartsInterrupted {
            done: PartsObliterated { world, outcomes: seq![], num_fragments: 0, num_payloads: 0 },
            calls,
        }
    } else {
        let before = run_parts_failing(
            world,
            host,
            request,
            parts.drop_last(),
            depth,
            fates,
            calls,
        );
        let last = run_obliterate_failing(
            before.done.world,
            host,
            ObliterateStepView::Read(Obliterate { address: parts.last(), ..request }),
            depth,
            fates,
            before.calls,
        );
        PartsInterrupted {
            done: PartsObliterated {
                world: last.end.world,
                outcomes: before.done.outcomes.push(
                    match last.end.result {
                        Ok(()) => PartOutcome::Done,
                        Err(e) => PartOutcome::Failed(e),
                    },
                ),
                num_fragments: before.done.num_fragments + last.end.num_fragments,
                num_payloads: before.done.num_payloads + last.end.num_payloads,
            },
            calls: last.calls,
        }
    }
}

/// What becomes of a fragment that is to be obliterated, when calls go as `fates` says.
pub open spec fn obliterate_failing_on(
    world: World,
    host: HostRules,
    request: Obliterate,
    depth: nat,
    fates: spec_fn(nat) -> CallFate,
) -> Obliterated {
    run_obliterate_failing(
        world,
        host,
        ObliterateStepView::Read(request),
        depth,
        fates,
        0,
    ).end
}

// ---------------------------------------------------------------------------
// Without failures
// ---------------------------------------------------------------------------

proof fn lemma_run_answered(
    world: World,
    host: HostRules,
    step: ObliterateStepView,
    depth: nat,
    fates: spec_fn(nat) -> CallFate,
    calls: nat,
)
    requires
        forall|n: nat| #[trigger] fates(n) is Answered,
    ensures
        run_obliterate_failing(world, host, step, depth, fates, calls).end == run_obliterate(
            world,
            host,
            step,
            depth,
        ),
    decreases depth, obliterate_rank(step),
{
    match step {
        ObliterateStepView::Parts(at, parts) => {
            let followed = if depth == 0 {
                PartsInterrupted { done: lost_parts(world, parts.len()), calls }
            } else {
                run_parts_failing(world, host, at.request, parts, (depth - 1) as nat, fates, calls)
            };
            if depth > 0 {
                lemma_parts_answered(
                    world,
                    host,
                    at.request,
                    parts,
                    (depth - 1) as nat,
                    fates,
                    calls,
                );
            }
            let done = followed.done;
            let next = at.parts_done(parts, done.outcomes);
            lemma_run_answered(done.world, host, next, depth, fates, followed.calls);
        },
        ObliterateStepView::Finish(_) => {},
        _ => {
            lemma_run_answered(
                own_effect(world, step),
                host,
                next_step(world, host, step),
                depth,
                fates,
                calls_after(step, calls),
            );
        },
    }
}

proof fn lemma_parts_answered(
    world: World,
    host: HostRules,
    request: Obliterate,
    parts: Seq<Address>,
    depth: nat,
    fates: spec_fn(nat) -> CallFate,
    calls: nat,
)
    requires
        forall|n: nat| #[trigger] fates(n) is Answered,
    ensures
        run_parts_failing(world, host, request, parts, depth, fates, calls).done == run_parts(
            world,
            host,
            request,
            parts,
            depth,
        ),
    decreases depth, 11 + parts.len(),
{
    if parts.len() > 0 {
        let first = parts.drop_last();
        lemma_parts_answered(world, host, request, first, depth, fates, calls);
        let before = run_parts_failing(world, host, request, first, depth, fates, calls);
        let step = ObliterateStepView::Read(Obliterate { address: parts.last(), ..request });
        lemma_run_answered(before.done.world, host, step, depth, fates, before.calls);
    }
}

/// Where every call is answered, an obliteration is what it is without failures.
pub proof fn obliterate_answered(
    world: World,
    host: HostRules,
    request: Obliterate,
    depth: nat,
    fates: spec_fn(nat) -> CallFate,
)
    requires
        forall|n: nat| #[trigger] fates(n) is Answered,
    ensures
        obliterate_failing_on(world, host, request, depth, fates) == obliterate_on(
            world,
            host,
            request,
            depth,
        ),
{
    lemma_run_answered(world, host, ObliterateStepView::Read(request), depth, fates, 0);
}

// ---------------------------------------------------------------------------
// What is left alone
// ---------------------------------------------------------------------------

proof fn lemma_failing_frame(
    world: World,
    host: HostRules,
    step: ObliterateStepView,
    depth: nat,
    fates: spec_fn(nat) -> CallFate,
    calls: nat,
    hash: ContentHash,
)
    requires
        request_of(step) matches Some(request) ==> locked_in(world, request.rules.flags, hash),
        request_of(step) matches Some(request) ==> step is Read || request.address.hash != hash,
    ensures
        same_at(
            world,
            run_obliterate_failing(world, host, step, depth, fates, calls).end.world,
            hash,
        ),
    decreases depth, obliterate_rank(step),
{
    match step {
        ObliterateStepView::Parts(at, parts) => {
            let followed = if depth == 0 {
                PartsInterrupted { done: lost_parts(world, parts.len()), calls }
            } else {
                run_parts_failing(world, host, at.request, parts, (depth - 1) as nat, fates, calls)
            };
            if depth > 0 {
                lemma_parts_failing_frame(
                    world,
                    host,
                    at.request,
                    parts,
                    (depth - 1) as nat,
                    fates,
                    calls,
                    hash,
                );
            }
            let done = followed.done;
            let next = at.parts_done(parts, done.outcomes);
            lemma_failing_frame(done.world, host, next, depth, fates, followed.calls, hash);
        },
        ObliterateStepView::Finish(_) => {},
        _ => {
            if !(step is Read) {
                lemma_step_frame(world, step, hash);
            }
            let fate = fate_of(fates, step, calls);
            lemma_failing_frame(
                effect_with(world, step, fate),
                host,
                step_with(world, host, step, fate),
                depth,
                fates,
                calls_after(step, calls),
                hash,
            );
        },
    }
}

proof fn lemma_parts_failing_frame(
    world: World,
    host: HostRules,
    request: Obliterate,
    parts: Seq<Address>,
    depth: nat,
    fates: spec_fn(nat) -> CallFate,
    calls: nat,
    hash: ContentHash,
)
    requires
        locked_in(world, request.rules.flags, hash),
    ensures
        same_at(
            world,
            run_parts_failing(world, host, request, parts, depth, fates, calls).done.world,
            hash,
        ),
    decreases depth, 11 + parts.len(),
{
    if parts.len() > 0 {
        let first = parts.drop_last();
        lemma_parts_failing_frame(world, host, request, first, depth, fates, calls, hash);
        let before = run_parts_failing(world, host, request, first, depth, fates, calls);
        let step = ObliterateStepView::Read(Obliterate { address: parts.last(), ..request });
        lemma_failing_frame(before.done.world, host, step, depth, fates, before.calls, hash);
    }
}

/// Whichever calls fail, an obliteration leaves everything alone under a hash that somebody
/// else is obliterating, or that has been obliterated.
pub proof fn failing_respects_lock(
    world: World,
    host: HostRules,
    request: Obliterate,
    depth: nat,
    fates: spec_fn(nat) -> CallFate,
    hash: ContentHash,
)
    requires
        locked_in(world, request.rules.flags, hash),
    ensures
        same_at(world, obliterate_failing_on(world, host, request, depth, fates).world, hash),
{
    lemma_failing_frame(world, host, ObliterateStepView::Read(request), depth, fates, 0, hash);
}

/// If the object of a hash is gone, no association of the hash is left.
pub open spec fn gone_unused(before: World, after: World, hash: ContentHash) -> bool {
    before.object(hash) is Ok && after.object(hash) is Err ==> !after.anywhere(hash)
}

proof fn lemma_gone_transitive(
    a: World,
    b: World,
    c: World,
    request: Obliterate,
    hash: ContentHash,
)
    requires
        gone_unused(a, b, hash),
        gone_unused(b, c, hash),
        only_taken(b, c, request),
    ensures
        gone_unused(a, c, hash),
{
}

/// What one step takes, whether or not its answer is heard. The object is deleted only where
/// no association of the hash is left.
proof fn lemma_effect_taken(
    world: World,
    step: ObliterateStepView,
    fate: CallFate,
    hash: ContentHash,
)
    requires
        request_of(step) is Some,
        step matches ObliterateStepView::Delete(at) ==> !world.anywhere(at.request.address.hash),
    ensures
        only_taken(world, effect_with(world, step, fate), request_of(step)->0),
        gone_unused(world, effect_with(world, step, fate), hash),
{
    lemma_step_taken(world, step);
    let own = request_of(step)->0.address.hash;
    if object_key(hash) == object_key(own) {
        object_key_injective(hash, own);
    }
}

proof fn lemma_failing_taken(
    world: World,
    host: HostRules,
    step: ObliterateStepView,
    depth: nat,
    fates: spec_fn(nat) -> CallFate,
    calls: nat,
    hash: ContentHash,
)
    requires
        world.countable(),
        request_of(step) is Some,
        step matches ObliterateStepView::Parts(at, parts) ==> (forall|i: int|
            0 <= i < parts.len() ==> (#[trigger] parts[i]).context == at.request.address.context),
        step matches ObliterateStepView::Delete(at) ==> !world.anywhere(at.request.address.hash),
    ensures
        ({
            let end = run_obliterate_failing(world, host, step, depth, fates, calls).end.world;
            only_taken(world, end, request_of(step)->0) && gone_unused(world, end, hash)
        }),
    decreases depth, obliterate_rank(step),
{
    let request = request_of(step)->0;
    let end = run_obliterate_failing(world, host, step, depth, fates, calls).end.world;
    match step {
        ObliterateStepView::Parts(at, parts) => {
            let followed = if depth == 0 {
                PartsInterrupted { done: lost_parts(world, parts.len()), calls }
            } else {
                run_parts_failing(world, host, request, parts, (depth - 1) as nat, fates, calls)
            };
            let done = followed.done;
            if depth > 0 {
                lemma_parts_failing_taken(
                    world,
                    host,
                    request,
                    parts,
                    (depth - 1) as nat,
                    fates,
                    calls,
                    hash,
                );
            }
            let next = at.parts_done(parts, done.outcomes);
            if request_of(next) is Some {
                lemma_failing_taken(done.world, host, next, depth, fates, followed.calls, hash);
                lemma_taken_transitive(world, done.world, end, request);
                lemma_gone_transitive(world, done.world, end, request, hash);
            }
        },
        _ => {
            let fate = fate_of(fates, step, calls);
            lemma_effect_taken(world, step, fate, hash);
            count_tells(world, request.address.hash);
            let next_world = effect_with(world, step, fate);
            let next = step_with(world, host, step, fate);
            if request_of(next) is Some {
                lemma_failing_taken(
                    next_world,
                    host,
                    next,
                    depth,
                    fates,
                    calls_after(step, calls),
                    hash,
                );
                lemma_taken_transitive(world, next_world, end, request);
                lemma_gone_transitive(world, next_world, end, request, hash);
            }
        },
    }
}

proof fn lemma_parts_failing_taken(
    world: World,
    host: HostRules,
    request: Obliterate,
    parts: Seq<Address>,
    depth: nat,
    fates: spec_fn(nat) -> CallFate,
    calls: nat,
    hash: ContentHash,
)
    requires
        world.countable(),
        forall|i: int|
            0 <= i < parts.len() ==> (#[trigger] parts[i]).context == request.address.context,
    ensures
        ({
            let end = run_parts_failing(
                world,
                host,
                request,
                parts,
                depth,
                fates,
                calls,
            ).done.world;
            only_taken(world, end, request) && gone_unused(world, end, hash)
        }),
    decreases depth, 11 + parts.len(),
{
    if parts.len() > 0 {
        let first = parts.drop_last();
        lemma_parts_failing_taken(world, host, request, first, depth, fates, calls, hash);
        let before = run_parts_failing(world, host, request, first, depth, fates, calls);
        let part = Obliterate { address: parts.last(), ..request };
        let step = ObliterateStepView::Read(part);
        let between = before.done.world;
        lemma_failing_taken(between, host, step, depth, fates, before.calls, hash);
        let end = run_obliterate_failing(
            between,
            host,
            step,
            depth,
            fates,
            before.calls,
        ).end.world;
        assert(parts[parts.len() - 1].context == request.address.context);
        assert(only_taken(between, end, request));
        lemma_taken_transitive(world, between, end, request);
        lemma_gone_transitive(world, between, end, request, hash);
    }
}

// ---------------------------------------------------------------------------
// What is left behind
// ---------------------------------------------------------------------------

/// The metadata of a hash is what it was, or that with the lock, or says that the fragment
/// was obliterated.
pub open spec fn row_left(at: Locked, after: World, hash: ContentHash) -> bool {
    ||| after.row(hash) == Some(row_of(at.original))
    ||| after.row(hash) == Some(row_of(at.updated))
    ||| after.row(hash) == Some(row_of(at.sealed()))
}

/// The metadata of a hash is what it was, or that with the lock, or has come to say that the
/// fragment was obliterated. The last is so only with the object gone.
pub open spec fn moved(
    before: World,
    after: World,
    request: Obliterate,
    hash: ContentHash,
) -> bool {
    let at = request.locked(fragment_of(before.metadata[hash]));
    &&& row_left(at, after, hash)
    &&& after.row(hash) == Some(row_of(at.sealed())) && after.row(hash) != before.row(hash)
        ==> after.object(hash) is Err
}

/// The lock and the seal both count as obliteration, and are not the same.
proof fn lemma_marks(flags: FragmentFlags, original: Fragment)
    requires
        flags.well_formed(),
    ensures
        ({
            let updated = Fragment {
                flags: original.flags | flags.payload_obliterating,
                ..original
            };
            let sealed = Fragment {
                flags: flags.payload_obliterated,
                size_payload: 0,
                size_content: 0,
            };
            &&& obliteration(flags, updated)
            &&& obliteration(flags, sealed)
            &&& updated != sealed
            &&& fragment_of(row_of(original)) == original
            &&& fragment_of(row_of(updated)) == updated
            &&& fragment_of(row_of(sealed)) == sealed
        }),
{
    let f = original.flags;
    let a = flags.payload_obliterating;
    let b = flags.payload_obliterated;
    assert((f | a) & (a | b) != 0) by (bit_vector)
        requires
            a != 0,
    ;
    assert(b & (a | b) != 0) by (bit_vector)
        requires
            b != 0,
    ;
    assert(f | a != b) by (bit_vector)
        requires
            a != 0,
            a & b == 0,
    ;
    metadata_round_trip(original);
    metadata_round_trip(Fragment { flags: f | a, ..original });
    metadata_round_trip(Fragment { flags: b, size_payload: 0, size_content: 0 });
}

proof fn lemma_moved_written(
    before: World,
    after: World,
    request: Obliterate,
    hash: ContentHash,
)
    requires
        request.rules.flags.well_formed(),
        moved(before, after, request, hash),
    ensures
        written_row(after, hash),
{
    lemma_marks(request.rules.flags, fragment_of(before.metadata[hash]));
}

proof fn lemma_moved_transitive(
    a: World,
    b: World,
    c: World,
    request: Obliterate,
    hash: ContentHash,
)
    requires
        request.rules.flags.well_formed(),
        written_row(a, hash),
        moved(a, b, request, hash),
        moved(b, c, request, hash),
        locked_in(b, request.rules.flags, hash) ==> same_at(b, c, hash),
    ensures
        moved(a, c, request, hash),
{
    lemma_marks(request.rules.flags, fragment_of(a.metadata[hash]));
    if b.row(hash) != a.row(hash) {
        assert(locked_in(b, request.rules.flags, hash));
    }
}

/// What a step that comes after the metadata was read goes by.
spec fn locked_of(step: ObliterateStepView) -> Option<Locked> {
    match step {
        ObliterateStepView::Lock(at) => Some(at),
        ObliterateStepView::Fetch(at) => Some(at),
        ObliterateStepView::Decode(at, _) => Some(at),
        ObliterateStepView::Parts(at, _) => Some(at),
        ObliterateStepView::Detach(at) => Some(at),
        ObliterateStepView::Count(at) => Some(at),
        ObliterateStepView::Restore(at) => Some(at),
        ObliterateStepView::Delete(at) => Some(at),
        ObliterateStepView::Seal(at) => Some(at),
        _ => None,
    }
}

/// A step belongs to the hash itself, once the metadata was read.
spec fn within(step: ObliterateStepView, hash: ContentHash) -> bool {
    locked_of(step) matches Some(at) && at.request.address.hash == hash
}

/// The lock is set once it is due, and the object is gone before the seal.
spec fn ready(world: World, step: ObliterateStepView, hash: ContentHash) -> bool {
    within(step, hash) ==> {
        let at = locked_of(step)->0;
        &&& at == at.request.locked(at.original)
        &&& !obliteration(at.request.rules.flags, at.original)
        &&& world.row(hash) == Some(
            row_of(
                if step is Lock {
                    at.original
                } else {
                    at.updated
                },
            ),
        )
        &&& step is Seal ==> world.object(hash) is Err
    }
}

/// What a run comes to, from a step that belongs to the hash itself.
spec fn settled(at: Locked, after: World, hash: ContentHash) -> bool {
    &&& row_left(at, after, hash)
    &&& after.row(hash) == Some(row_of(at.sealed())) ==> after.object(hash) is Err
}

proof fn lemma_failing_moves(
    world: World,
    host: HostRules,
    step: ObliterateStepView,
    depth: nat,
    fates: spec_fn(nat) -> CallFate,
    calls: nat,
    hash: ContentHash,
)
    requires
        request_of(step) matches Some(request) && request.rules.flags.well_formed(),
        written_row(world, hash),
        ready(world, step, hash),
    ensures
        ({
            let end = run_obliterate_failing(world, host, step, depth, fates, calls).end.world;
            if within(step, hash) {
                settled(locked_of(step)->0, end, hash)
            } else {
                moved(world, end, request_of(step)->0, hash)
            }
        }),
    decreases depth, obliterate_rank(step),
{
    let request = request_of(step)->0;
    let flags = request.rules.flags;
    let end = run_obliterate_failing(world, host, step, depth, fates, calls).end.world;
    if within(step, hash) {
        lemma_marks(flags, locked_of(step)->0.original);
    } else {
        lemma_marks(flags, fragment_of(world.metadata[hash]));
    }
    match step {
        ObliterateStepView::Parts(at, parts) => {
            let followed = if depth == 0 {
                PartsInterrupted { done: lost_parts(world, parts.len()), calls }
            } else {
                run_parts_failing(world, host, request, parts, (depth - 1) as nat, fates, calls)
            };
            let done = followed.done;
            let next = at.parts_done(parts, done.outcomes);
            if within(step, hash) {
                if depth > 0 {
                    lemma_parts_failing_frame(
                        world,
                        host,
                        request,
                        parts,
                        (depth - 1) as nat,
                        fates,
                        calls,
                        hash,
                    );
                }
                if next is Detach {
                    lemma_failing_moves(
                        done.world,
                        host,
                        next,
                        depth,
                        fates,
                        followed.calls,
                        hash,
                    );
                }
            } else {
                if depth > 0 {
                    lemma_parts_failing_moves(
                        world,
                        host,
                        request,
                        parts,
                        (depth - 1) as nat,
                        fates,
                        calls,
                        hash,
                    );
                }
                lemma_moved_written(world, done.world, request, hash);
                if next is Detach {
                    lemma_failing_moves(
                        done.world,
                        host,
                        next,
                        depth,
                        fates,
                        followed.calls,
                        hash,
                    );
                    if locked_in(done.world, flags, hash) {
                        lemma_failing_frame(
                            done.world,
                            host,
                            next,
                            depth,
                            fates,
                            followed.calls,
                            hash,
                        );
                    }
                    lemma_moved_transitive(world, done.world, end, request, hash);
                }
            }
        },
        _ => {
            let fate = fate_of(fates, step, calls);
            let next_world = effect_with(world, step, fate);
            let next = step_with(world, host, step, fate);
            if !within(step, hash) && !(step is Read) {
                lemma_step_frame(world, step, hash);
            }
            if request_of(next) is Some {
                lemma_failing_moves(
                    next_world,
                    host,
                    next,
                    depth,
                    fates,
                    calls_after(step, calls),
                    hash,
                );
            }
        },
    }
}

proof fn lemma_parts_failing_moves(
    world: World,
    host: HostRules,
    request: Obliterate,
    parts: Seq<Address>,
    depth: nat,
    fates: spec_fn(nat) -> CallFate,
    calls: nat,
    hash: ContentHash,
)
    requires
        request.rules.flags.well_formed(),
        written_row(world, hash),
    ensures
        moved(
            world,
            run_parts_failing(world, host, request, parts, depth, fates, calls).done.world,
            request,
            hash,
        ),
    decreases depth, 11 + parts.len(),
{
    if parts.len() > 0 {
        let first = parts.drop_last();
        lemma_parts_failing_moves(world, host, request, first, depth, fates, calls, hash);
        let before = run_parts_failing(world, host, request, first, depth, fates, calls);
        let between = before.done.world;
        lemma_moved_written(world, between, request, hash);
        let step = ObliterateStepView::Read(Obliterate { address: parts.last(), ..request });
        lemma_failing_moves(between, host, step, depth, fates, before.calls, hash);
        let end = run_obliterate_failing(
            between,
            host,
            step,
            depth,
            fates,
            before.calls,
        ).end.world;
        if locked_in(between, request.rules.flags, hash) {
            lemma_failing_frame(between, host, step, depth, fates, before.calls, hash);
        }
        lemma_moved_transitive(world, between, end, request, hash);
    }
}

/// Whichever calls fail, an obliteration adds nothing, takes associations only from the
/// repository and the context that it was asked for, and forgets no metadata. Of every hash,
/// the one asked for and all others, it deletes the object only once no association is left.
pub proof fn failing_takes(
    world: World,
    host: HostRules,
    request: Obliterate,
    depth: nat,
    fates: spec_fn(nat) -> CallFate,
)
    requires
        world.countable(),
    ensures
        ({
            let end = obliterate_failing_on(world, host, request, depth, fates).world;
            &&& only_taken(world, end, request)
            &&& forall|hash: ContentHash| #[trigger] gone_unused(world, end, hash)
        }),
{
    let step = ObliterateStepView::Read(request);
    let end = obliterate_failing_on(world, host, request, depth, fates).world;
    lemma_failing_taken(world, host, step, depth, fates, 0, request.address.hash);
    assert forall|hash: ContentHash| #[trigger] gone_unused(world, end, hash) by {
        lemma_failing_taken(world, host, step, depth, fates, 0, hash);
    }
}

/// Whichever calls fail, the metadata of a hash, of the one asked for or of any other, ends
/// as what it was, as that with the lock, or as the mark of an obliterated fragment; the mark
/// is set only once the object is gone.
pub proof fn failing_leaves(
    world: World,
    host: HostRules,
    request: Obliterate,
    depth: nat,
    fates: spec_fn(nat) -> CallFate,
    hash: ContentHash,
)
    requires
        request.rules.flags.well_formed(),
        written_row(world, hash),
    ensures
        moved(
            world,
            obliterate_failing_on(world, host, request, depth, fates).world,
            request,
            hash,
        ),
{
    lemma_failing_moves(world, host, ObliterateStepView::Read(request), depth, fates, 0, hash);
}

proof fn lemma_detach_failing(
    world: World,
    host: HostRules,
    at: Locked,
    depth: nat,
    fates: spec_fn(nat) -> CallFate,
    calls: nat,
)
    ensures
        ({
            let step = ObliterateStepView::Detach(at);
            let end = run_obliterate_failing(world, host, step, depth, fates, calls).end;
            end.result is Ok ==> end == run_obliterate(world, host, step, depth)
        }),
{
    reveal_with_fuel(run_obliterate, 6);
    reveal_with_fuel(run_obliterate_failing, 6);
}

/// Whichever calls fail, an obliteration that reports success has erased the fragment.
pub proof fn failing_erases(
    world: World,
    host: HostRules,
    request: Obliterate,
    depth: nat,
    fates: spec_fn(nat) -> CallFate,
)
    requires
        world.countable(),
        request.rules.flags.well_formed(),
        written_row(world, request.address.hash),
        !locked_in(world, request.rules.flags, request.address.hash),
        obliterate_failing_on(world, host, request, depth, fates).result is Ok,
    ensures
        erased(
            world,
            obliterate_failing_on(world, host, request, depth, fates).world,
            request,
        ),
{
    reveal_with_fuel(run_obliterate_failing, 6);
    let hash = request.address.hash;
    let original = fragment_of(world.metadata[hash]);
    let at = request.locked(original);
    lemma_lock_flag(request.rules.flags, original);
    metadata_round_trip(at.updated);
    let end = obliterate_failing_on(world, host, request, depth, fates);
    let locked = world.after(at.lock_plan());
    lemma_step_taken(world, ObliterateStepView::Lock(at));
    let followed = if !at.lists_parts() {
        PartsInterrupted { done: lost_parts(locked, 0), calls: 2 }
    } else {
        let payload = (at.fetched(locked.object(hash)))->Decode_1;
        let parts = at.part_addresses((host.decode)(payload));
        if depth == 0 {
            PartsInterrupted { done: lost_parts(locked, parts.len()), calls: 3 }
        } else {
            let below = (depth - 1) as nat;
            lemma_parts_failing_frame(locked, host, request, parts, below, fates, 3, hash);
            lemma_parts_failing_taken(locked, host, request, parts, below, fates, 3, hash);
            run_parts_failing(locked, host, request, parts, below, fates, 3)
        }
    };
    let ready = followed.done.world;
    lemma_detach_failing(ready, host, at, depth, fates, followed.calls);
    lemma_detach(ready, host, at, depth);
    let step = ObliterateStepView::Detach(at);
    assert(end.world == run_obliterate_failing(
        ready,
        host,
        step,
        depth,
        fates,
        followed.calls,
    ).end.world);
    let detached = ready.after(at.detach_plan());
    assert(end.world.associations == detached.associations);
    assert(end.world.anywhere(hash) == detached.anywhere(hash));
}

} // verus!
