//! What becomes of swaps that are executed at the same time, and while others write to the
//! table.
//!
//! At the default isolation of Postgres a statement meets the table twice. What it reads is
//! the table as it was when the statement started. What it writes goes to the row as it is
//! when its turn comes, after waiting for whoever is writing to it: an insert looks for rows
//! that stand in the way then, and an update tests its condition again then, if the row is
//! still the one that it had found.

use crate::error::StoreError;
use crate::mutable::requests::{SwapRequest, SwapStep};
use crate::mutable::table::{answer, table_after, value_of, MutableKey, MutableTable};
use crate::types::{lemma_hash_bytes, zero_hash, ContentHash};
use vstd::prelude::*;

verus! {

impl SwapRequest {
    /// The statement makes the swap. `snapshot` is the table when it started, `current` the
    /// table when its turn comes; `kept` says that the row which it had found was not removed
    /// in between.
    pub open spec fn made_on(
        self,
        snapshot: MutableTable,
        current: MutableTable,
        kept: bool,
    ) -> bool {
        if self.expected == zero_hash() {
            !current.contains_key(self.at())
        } else {
            self.applies(snapshot) && kept && self.applies(current)
        }
    }

    /// The table once the statement was executed.
    pub open spec fn table_on(self, current: MutableTable, made: bool) -> MutableTable {
        if made {
            current.insert(self.at(), self.value)
        } else {
            current
        }
    }

    /// The value that the statement answers.
    pub open spec fn column_on(self, snapshot: MutableTable, made: bool) -> Option<Seq<u8>> {
        if made {
            Some(self.expected@)
        } else if self.expected == zero_hash() && !snapshot.contains_key(self.at()) {
            None
        } else {
            Some(value_of(snapshot, self.at())@)
        }
    }
}

/// Where nobody else writes in between, this is the meaning that the statement has by itself.
pub proof fn undisturbed(table: MutableTable, swap: SwapRequest)
    ensures
        ({
            let made = swap.made_on(table, table, true);
            &&& made == swap.applies(table)
            &&& swap.table_on(table, made) == table_after(table, swap.plan())
            &&& swap.column_on(table, made) == answer(table, swap.plan())
        }),
{
}

/// Whoever else writes to the table meanwhile, the report is true. The expected value is
/// reported if and only if the swap was made, unless no value is expected where the zero hash
/// is stored. Any other report is a value that the key had, and nothing was changed. A
/// statement that has to be executed again has changed nothing either, and there is a reason:
/// somebody else has changed the key while it was executed.
pub proof fn swap_report_true(
    snapshot: MutableTable,
    current: MutableTable,
    kept: bool,
    swap: SwapRequest,
    step: SwapStep,
)
    requires
        ({
            let made = swap.made_on(snapshot, current, kept);
            swap.settled(made, swap.column_on(snapshot, made), step)
        }),
    ensures
        ({
            let made = swap.made_on(snapshot, current, kept);
            let zero_stored = snapshot.contains_key(swap.at()) && snapshot[swap.at()]
                == zero_hash();
            &&& made ==> step == SwapStep::Finish(Ok(swap.expected))
            &&& !(swap.expected == zero_hash() && zero_stored) ==> (step == SwapStep::Finish(
                Ok(swap.expected),
            ) ==> made)
            &&& !made && step is Finish ==> step == SwapStep::Finish(
                Ok(value_of(snapshot, swap.at())),
            )
            &&& !made ==> swap.table_on(current, made) == current
            &&& step is Again ==> !made && (!kept || value_of(snapshot, swap.at()) != value_of(
                current,
                swap.at(),
            ) || snapshot.contains_key(swap.at()) != current.contains_key(swap.at()))
        }),
{
    lemma_hash_bytes(value_of(snapshot, swap.at()), swap.expected);
    lemma_hash_bytes(step->Finish_0->Ok_0, value_of(snapshot, swap.at()));
    lemma_hash_bytes(step->Finish_0->Ok_0, swap.expected);
}

// ---------------------------------------------------------------------------
// Swaps against each other
// ---------------------------------------------------------------------------

/// How far a swap has come.
pub enum SwapState {
    /// Its statement is to be executed, for the first time or again.
    Idle,
    /// Its statement has started, on the table as it was then.
    Running(MutableTable),
    /// It has come to its end.
    Finished(Result<ContentHash, StoreError>),
}

/// The table, and how far each of the swaps has come.
pub struct SwapRace {
    pub table: MutableTable,
    pub states: Seq<SwapState>,
}

/// The end of a swap, or its next attempt.
pub open spec fn state_after(step: SwapStep) -> SwapState {
    match step {
        SwapStep::Again => SwapState::Idle,
        SwapStep::Finish(result) => SwapState::Finished(result),
    }
}

/// The `k`-th of the swaps makes a move: its statement starts, or has its turn and is
/// answered. None of the swaps removes a row.
pub open spec fn moves(swaps: Seq<SwapRequest>, before: SwapRace, after: SwapRace, k: int) -> bool {
    &&& 0 <= k < before.states.len()
    &&& match before.states[k] {
        SwapState::Idle => {
            &&& after.table == before.table
            &&& after.states == before.states.update(k, SwapState::Running(before.table))
        },
        SwapState::Running(snapshot) => {
            let made = swaps[k].made_on(snapshot, before.table, true);
            &&& after.table == swaps[k].table_on(before.table, made)
            &&& exists|step: SwapStep|
                #[trigger] swaps[k].settled(made, swaps[k].column_on(snapshot, made), step)
                    && after.states == before.states.update(k, state_after(step))
        },
        SwapState::Finished(_) => false,
    }
}

/// Some swap makes a move.
pub open spec fn some_move(swaps: Seq<SwapRequest>, before: SwapRace, after: SwapRace) -> bool {
    exists|k: int| #[trigger] moves(swaps, before, after, k)
}

/// The swaps as they set out: none of them has started.
pub open spec fn at_the_start(
    swaps: Seq<SwapRequest>,
    table: MutableTable,
    race: SwapRace,
) -> bool {
    &&& race.table == table
    &&& race.states.len() == swaps.len()
    &&& forall|k: int| 0 <= k < swaps.len() ==> #[trigger] race.states[k] == SwapState::Idle
}

/// The swaps expect one value of one key, which the table has, and none of them sets the
/// value that it expects.
pub open spec fn rivals(
    swaps: Seq<SwapRequest>,
    table: MutableTable,
    at: MutableKey,
    expected: ContentHash,
) -> bool {
    forall|k: int|
        0 <= k < swaps.len() ==> {
            let swap = #[trigger] swaps[k];
            &&& swap.at() == at
            &&& swap.expected == expected
            &&& swap.value != expected
            &&& swap.applies(table)
        }
}

/// The `w`-th of the swaps was made, and it alone: it has reported the expected value, the
/// table has its value, and every other one that has come to its end has reported that value.
pub open spec fn won_by(
    swaps: Seq<SwapRequest>,
    table: MutableTable,
    race: SwapRace,
    w: int,
) -> bool {
    &&& 0 <= w < swaps.len()
    &&& race.table == table.insert(swaps[w].at(), swaps[w].value)
    &&& race.states[w] == SwapState::Finished(Ok(swaps[w].expected))
    &&& forall|k: int|
        0 <= k < swaps.len() && k != w && (#[trigger] race.states[k]) is Finished
            ==> race.states[k] == SwapState::Finished(Ok(swaps[w].value))
}

/// None of the swaps has come to its end, and the table is as it was.
pub open spec fn still_open(swaps: Seq<SwapRequest>, table: MutableTable, race: SwapRace) -> bool {
    &&& race.table == table
    &&& forall|k: int| 0 <= k < swaps.len() ==> !((#[trigger] race.states[k]) is Finished)
}

/// What the statements that are being executed have read is the table of the start, or the
/// table that one of the swaps has left.
spec fn snapshots_known(table: MutableTable, race: SwapRace) -> bool {
    forall|k: int|
        0 <= k < race.states.len() ==> ((#[trigger] race.states[k]) matches SwapState::Running(
            snapshot,
        ) ==> snapshot == table || snapshot == race.table)
}

proof fn lemma_move(
    swaps: Seq<SwapRequest>,
    table: MutableTable,
    at: MutableKey,
    expected: ContentHash,
    before: SwapRace,
    after: SwapRace,
    k: int,
)
    requires
        rivals(swaps, table, at, expected),
        before.states.len() == swaps.len(),
        still_open(swaps, table, before) || exists|w: int| won_by(swaps, table, before, w),
        snapshots_known(table, before),
        moves(swaps, before, after, k),
    ensures
        after.states.len() == swaps.len(),
        still_open(swaps, table, after) || exists|w: int| won_by(swaps, table, after, w),
        snapshots_known(table, after),
{
    let swap = swaps[k];
    match before.states[k] {
        SwapState::Idle => {
            if !still_open(swaps, table, before) {
                let w = choose|w: int| won_by(swaps, table, before, w);
                assert(won_by(swaps, table, after, w));
            }
        },
        SwapState::Running(snapshot) => {
            let made = swap.made_on(snapshot, before.table, true);
            let step = choose|step: SwapStep|
                #[trigger] swap.settled(made, swap.column_on(snapshot, made), step)
                    && after.states == before.states.update(k, state_after(step));
            swap_report_true(snapshot, before.table, true, swap, step);
            if still_open(swaps, table, before) {
                assert(made);
                assert(won_by(swaps, table, after, k));
            } else {
                let w = choose|w: int| won_by(swaps, table, before, w);
                assert(swaps[w].at() == at && swaps[w].value != expected);
                assert(before.table.contains_key(at) && before.table[at] == swaps[w].value);
                assert(!made);
                if step is Finish {
                    assert(snapshot == before.table);
                }
                assert(won_by(swaps, table, after, w));
            }
        },
        SwapState::Finished(_) => {},
    }
}

proof fn lemma_race(
    swaps: Seq<SwapRequest>,
    table: MutableTable,
    at: MutableKey,
    expected: ContentHash,
    race: Seq<SwapRace>,
    n: int,
)
    requires
        rivals(swaps, table, at, expected),
        race.len() > 0,
        at_the_start(swaps, table, race[0]),
        forall|i: int|
            0 <= i < race.len() - 1 ==> some_move(swaps, #[trigger] race[i], race[i + 1]),
        0 <= n < race.len(),
    ensures
        race[n].states.len() == swaps.len(),
        still_open(swaps, table, race[n]) || exists|w: int| won_by(swaps, table, race[n], w),
        snapshots_known(table, race[n]),
    decreases n,
{
    if n > 0 {
        lemma_race(swaps, table, at, expected, race, n - 1);
        let before = race[n - 1];
        assert(some_move(swaps, before, race[n - 1 + 1]));
        let k = choose|k: int| #[trigger] moves(swaps, before, race[n], k);
        lemma_move(swaps, table, at, expected, before, race[n], k);
    }
}

/// Of any number of swaps that expect one value and overlap in whatever way, exactly one is
/// made as soon as one has come to its end. It reports the expected value, and its value is
/// the one that is stored; every other one reports that value and changes nothing. Until then
/// nothing has changed.
pub proof fn one_swap_wins(
    swaps: Seq<SwapRequest>,
    table: MutableTable,
    at: MutableKey,
    expected: ContentHash,
    race: Seq<SwapRace>,
    n: int,
)
    requires
        rivals(swaps, table, at, expected),
        race.len() > 0,
        at_the_start(swaps, table, race[0]),
        forall|i: int|
            0 <= i < race.len() - 1 ==> some_move(swaps, #[trigger] race[i], race[i + 1]),
        0 <= n < race.len(),
    ensures
        still_open(swaps, table, race[n]) || exists|w: int| won_by(swaps, table, race[n], w),
{
    lemma_race(swaps, table, at, expected, race, n);
}

/// Two swaps that expect one value and overlap in whatever way: once both have come to their
/// ends, one has reported the expected value and its value is the one that is stored, and the
/// other one has reported that value.
pub proof fn two_overlapping_swaps(
    table: MutableTable,
    first: SwapRequest,
    second: SwapRequest,
    race: Seq<SwapRace>,
)
    requires
        first.at() == second.at(),
        first.expected == second.expected,
        first.value != first.expected,
        second.value != second.expected,
        first.applies(table),
        race.len() > 0,
        at_the_start(seq![first, second], table, race[0]),
        forall|i: int|
            0 <= i < race.len() - 1 ==> some_move(
                seq![first, second],
                #[trigger] race[i],
                race[i + 1],
            ),
        race.last().states[0] is Finished,
        race.last().states[1] is Finished,
    ensures
        ({
            let end = race.last();
            let expected = SwapState::Finished(Ok(first.expected));
            ||| {
                &&& end.states[0] == expected
                &&& end.states[1] == SwapState::Finished(Ok(first.value))
                &&& end.table == table.insert(first.at(), first.value)
            }
            ||| {
                &&& end.states[1] == expected
                &&& end.states[0] == SwapState::Finished(Ok(second.value))
                &&& end.table == table.insert(first.at(), second.value)
            }
        }),
{
    let swaps = seq![first, second];
    let n = race.len() - 1;
    assert forall|k: int| 0 <= k < swaps.len() implies {
        let swap = #[trigger] swaps[k];
        &&& swap.at() == first.at()
        &&& swap.expected == first.expected
        &&& swap.value != first.expected
        &&& swap.applies(table)
    } by {
        assert(swaps[k] == first || swaps[k] == second);
    }
    one_swap_wins(swaps, table, first.at(), first.expected, race, n);
    let end = race.last();
    assert(swaps.len() == 2 && swaps[0] == first && swaps[1] == second);
    assert(!still_open(swaps, table, end)) by {
        assert(end.states[0] is Finished);
    }
    let w = choose|w: int| won_by(swaps, table, end, w);
    assert(w == 0 || w == 1);
    assert(end.states[0] is Finished && end.states[1] is Finished);
}

} // verus!
