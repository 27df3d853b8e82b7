//! Finding out what is stored.

use crate::error::StoreError;
use crate::immutable::metadata::{load_metadata, metadata_loaded, obliteration, MetadataRow};
use crate::immutable::statements::{ImmutableStatement, PgImmutableStore};
use crate::sql::{Fault, SqlCall};
use crate::types::{
    empty_fragment, Address, Fragment, FragmentFlags, Partition, RepositoryId, StoreMatch,
};
use vstd::prelude::*;

verus! {

/// A question that the table of associations can answer.
#[derive(Clone, Copy, Debug, PartialEq, Eq, Structural)]
pub enum Probe {
    /// Hash, repository and context.
    Full,
    /// Hash and repository.
    Partition,
    /// The hash alone.
    Hash,
}

/// The question to ask for a match; nothing has to be asked for [`StoreMatch::MatchNone`].
pub open spec fn probe_for(requested: StoreMatch) -> Option<Probe> {
    match requested {
        StoreMatch::MatchFull => Some(Probe::Full),
        StoreMatch::MatchPartition => Some(Probe::Partition),
        StoreMatch::MatchHash => Some(Probe::Hash),
        StoreMatch::MatchNone => None,
    }
}

/// The question to ask for a match.
pub fn probe_of(requested: StoreMatch) -> (probe: Option<Probe>)
    ensures
        probe == probe_for(requested),
{
    match requested {
        StoreMatch::MatchFull => Some(Probe::Full),
        StoreMatch::MatchPartition => Some(Probe::Partition),
        StoreMatch::MatchHash => Some(Probe::Hash),
        StoreMatch::MatchNone => None,
    }
}

impl Probe {
    /// The match that is made where the answer is yes.
    pub open spec fn spec_matched(self) -> StoreMatch {
        match self {
            Probe::Full => StoreMatch::MatchFull,
            Probe::Partition => StoreMatch::MatchPartition,
            Probe::Hash => StoreMatch::MatchHash,
        }
    }

    /// The match that is made where the answer is yes.
    pub fn matched(&self) -> (matched: StoreMatch)
        ensures
            matched == self.spec_matched(),
    {
        match *self {
            Probe::Full => StoreMatch::MatchFull,
            Probe::Partition => StoreMatch::MatchPartition,
            Probe::Hash => StoreMatch::MatchHash,
        }
    }

    /// The call to Postgres, as errors name it.
    pub open spec fn spec_call(self) -> SqlCall {
        match self {
            Probe::Full => SqlCall::ExistsExact,
            Probe::Partition => SqlCall::ExistsRepository,
            Probe::Hash => SqlCall::ExistsHash,
        }
    }

    /// The call to Postgres, as errors name it.
    pub fn call(&self) -> (call: SqlCall)
        ensures
            call == self.spec_call(),
    {
        match *self {
            Probe::Full => SqlCall::ExistsExact,
            Probe::Partition => SqlCall::ExistsRepository,
            Probe::Hash => SqlCall::ExistsHash,
        }
    }

    /// The question about an address in a repository.
    pub open spec fn question(self, repository: RepositoryId, address: Address) -> ImmutableStatement {
        match self {
            Probe::Full => ImmutableStatement::ExistsExact {
                hash: address.hash,
                repository,
                context: address.context,
            },
            Probe::Partition => ImmutableStatement::ExistsRepository {
                hash: address.hash,
                repository,
            },
            Probe::Hash => ImmutableStatement::ExistsHash { hash: address.hash },
        }
    }

    /// The statement that asks about an address in a repository.
    pub fn ask(&self, repository: RepositoryId, address: Address) -> (statement: ImmutableStatement)
        ensures
            statement == self.question(repository, address),
    {
        match *self {
            Probe::Full => ImmutableStatement::ExistsExact {
                hash: address.hash,
                repository,
                context: address.context,
            },
            Probe::Partition => ImmutableStatement::ExistsRepository {
                hash: address.hash,
                repository,
            },
            Probe::Hash => ImmutableStatement::ExistsHash { hash: address.hash },
        }
    }
}

// ---------------------------------------------------------------------------
// Existence
// ---------------------------------------------------------------------------

/// A question whether an address is there.
#[derive(Clone, Copy, Debug, PartialEq, Eq)]
pub struct ExistRequest {
    pub repository: RepositoryId,
    pub address: Address,
    pub probe: Probe,
}

/// What is to be done about a question whether an address is there.
#[derive(Debug, PartialEq, Eq)]
pub enum ExistStep {
    /// Execute the statement of the request.
    Probe(ExistRequest),
    /// The answer is known.
    Finish(Result<StoreMatch, StoreError>),
}

impl ExistRequest {
    /// The answer to the question.
    pub open spec fn answered(self, reply: Result<bool, Fault>) -> Result<bool, StoreError> {
        match reply {
            Ok(found) => Ok(found),
            Err(fault) => Err(StoreError::of_fault(fault, self.probe.spec_call())),
        }
    }

    /// The match that was made.
    pub open spec fn matched(self, reply: Result<bool, Fault>) -> Result<StoreMatch, StoreError> {
        match self.answered(reply) {
            Ok(found) => Ok(
                if found {
                    self.probe.spec_matched()
                } else {
                    StoreMatch::MatchNone
                },
            ),
            Err(e) => Err(e),
        }
    }

    /// The statement to execute.
    pub fn statement(&self) -> (statement: ImmutableStatement)
        ensures
            statement == self.probe.question(self.repository, self.address),
    {
        self.probe.ask(self.repository, self.address)
    }

    /// The answer, from whether a row was found.
    pub fn is_there(&self, reply: Result<bool, Fault>) -> (result: Result<bool, StoreError>)
        ensures
            result == self.answered(reply),
    {
        match reply {
            Ok(found) => Ok(found),
            Err(fault) => Err(StoreError::from_fault(fault, self.probe.call())),
        }
    }

    /// The match that was made, from whether a row was found.
    pub fn reply(&self, reply: Result<bool, Fault>) -> (result: Result<StoreMatch, StoreError>)
        ensures
            result == self.matched(reply),
    {
        match self.is_there(reply) {
            Ok(found) => {
                if found {
                    Ok(self.probe.matched())
                } else {
                    Ok(StoreMatch::MatchNone)
                }
            },
            Err(e) => Err(e),
        }
    }
}

// ---------------------------------------------------------------------------
// Queries
// ---------------------------------------------------------------------------

/// What a query has found.
#[derive(Clone, Copy, Debug, PartialEq, Eq, Structural)]
pub struct StoreQueryResult {
    pub fragment: Fragment,
    pub match_made: StoreMatch,
}

/// The result of a query that has found nothing.
pub open spec fn nothing_found() -> StoreQueryResult {
    StoreQueryResult { fragment: empty_fragment(), match_made: StoreMatch::MatchNone }
}

/// A query for a fragment.
#[derive(Clone, Copy, Debug, PartialEq, Eq)]
pub struct Query {
    pub repository: RepositoryId,
    pub address: Address,
    /// Fragments that are being obliterated, or have been, count as not there.
    pub hide_obliterates: bool,
    pub flags: FragmentFlags,
}

/// A query that asks the table of associations.
#[derive(Clone, Copy, Debug, PartialEq, Eq)]
pub struct QueryProbe {
    pub query: Query,
    pub probe: Probe,
}

/// A query that has found its address and asks for the metadata.
#[derive(Clone, Copy, Debug, PartialEq, Eq)]
pub struct QueryMetadata {
    pub query: Query,
    pub match_made: StoreMatch,
}

/// What is to be done next about a query.
#[derive(Debug, PartialEq, Eq)]
pub enum QueryStep {
    /// Find out whether there is such an association.
    Probe(QueryProbe),
    /// Load the metadata.
    Metadata(QueryMetadata),
    /// The query is done.
    Finish(Result<StoreQueryResult, StoreError>),
}

impl Query {
    /// Looks for a match of the given kind.
    pub open spec fn started(self, requested: StoreMatch) -> QueryStep {
        match probe_for(requested) {
            Some(probe) => QueryStep::Probe(QueryProbe { query: self, probe }),
            None => QueryStep::Finish(Ok(nothing_found())),
        }
    }

    /// Looks for a match of the given kind.
    pub fn start(&self, requested: StoreMatch) -> (step: QueryStep)
        ensures
            step == self.started(requested),
    {
        match probe_of(requested) {
            Some(probe) => QueryStep::Probe(QueryProbe { query: *self, probe }),
            None => QueryStep::Finish(
                Ok(
                    StoreQueryResult {
                        fragment: Fragment::default(),
                        match_made: StoreMatch::MatchNone,
                    },
                ),
            ),
        }
    }
}

impl QueryProbe {
    /// What follows from the answer. Where there is no match, the next weaker one is looked
    /// for, except that a full match is not looked for in part.
    pub open spec fn answered(self, reply: Result<bool, Fault>) -> QueryStep {
        match reply {
            Ok(true) => QueryStep::Metadata(
                QueryMetadata { query: self.query, match_made: self.probe.spec_matched() },
            ),
            Ok(false) => if self.probe == Probe::Full {
                QueryStep::Finish(Ok(nothing_found()))
            } else {
                match self.probe.spec_matched().spec_prev() {
                    Some(weaker) => self.query.started(weaker),
                    None => QueryStep::Finish(Ok(nothing_found())),
                }
            },
            Err(fault) => QueryStep::Finish(
                Err(StoreError::of_fault(fault, self.probe.spec_call())),
            ),
        }
    }

    /// The statement to execute.
    pub fn statement(&self) -> (statement: ImmutableStatement)
        ensures
            statement == self.probe.question(self.query.repository, self.query.address),
    {
        self.probe.ask(self.query.repository, self.query.address)
    }

    /// The next step, from whether a row was found.
    pub fn reply(&self, reply: Result<bool, Fault>) -> (step: QueryStep)
        ensures
            step == self.answered(reply),
    {
        match reply {
            Ok(found) => {
                if found {
                    QueryStep::Metadata(
                        QueryMetadata { query: self.query, match_made: self.probe.matched() },
                    )
                } else if self.probe == Probe::Full {
                    self.query.start(StoreMatch::MatchNone)
                } else {
                    match self.probe.matched().prev() {
                        Some(weaker) => self.query.start(weaker),
                        None => self.query.start(StoreMatch::MatchNone),
                    }
                }
            },
            Err(fault) => QueryStep::Finish(Err(StoreError::from_fault(fault, self.probe.call()))),
        }
    }
}

impl QueryMetadata {
    /// What the query has found, given the metadata.
    pub open spec fn found(self, metadata: Result<Fragment, StoreError>) -> Result<
        StoreQueryResult,
        StoreError,
    > {
        match metadata {
            Ok(fragment) => Ok(
                if obliteration(self.query.flags, fragment) && self.query.hide_obliterates {
                    nothing_found()
                } else {
                    StoreQueryResult { fragment, match_made: self.match_made }
                },
            ),
            Err(e) => Err(StoreError::Metadata { inner: Box::new(e) }),
        }
    }

    /// The result of the query, given the row that was found, if any.
    pub open spec fn answered(self, reply: Result<Option<MetadataRow>, Fault>) -> Result<
        StoreQueryResult,
        StoreError,
    > {
        self.found(metadata_loaded(self.query.address.hash, reply))
    }

    /// The statement to execute.
    pub fn statement(&self) -> (statement: ImmutableStatement)
        ensures
            statement == (ImmutableStatement::LoadMetadata { hash: self.query.address.hash }),
    {
        ImmutableStatement::LoadMetadata { hash: self.query.address.hash }
    }

    /// The result of the query, from the row that was found, if any.
    pub fn reply(&self, reply: Result<Option<MetadataRow>, Fault>) -> (result: Result<
        StoreQueryResult,
        StoreError,
    >)
        ensures
            result == self.answered(reply),
    {
        match load_metadata(self.query.address.hash, reply) {
            Ok(fragment) => {
                if fragment.flags & self.query.flags.payload_obliteration != 0
                    && self.query.hide_obliterates {
                    Ok(
                        StoreQueryResult {
                            fragment: Fragment::default(),
                            match_made: StoreMatch::MatchNone,
                        },
                    )
                } else {
                    Ok(StoreQueryResult { fragment, match_made: self.match_made })
                }
            },
            Err(e) => Err(StoreError::Metadata { inner: Box::new(e) }),
        }
    }
}

// ---------------------------------------------------------------------------
// Batches
// ---------------------------------------------------------------------------

/// A question which of some addresses are there in full.
#[derive(Debug, PartialEq, Eq)]
pub struct BatchExact {
    pub repository: RepositoryId,
    pub addresses: Vec<Address>,
}

/// A question which of some addresses are there in part, asked for each on its own.
#[derive(Debug, PartialEq, Eq)]
pub struct BatchInexact {
    pub repository: RepositoryId,
    pub addresses: Vec<Address>,
    pub probe: Probe,
}

/// What is to be done about a question which of some addresses are there.
#[derive(Debug, PartialEq, Eq)]
pub enum BatchStep {
    /// Execute one statement for all of them.
    Exact(BatchExact),
    /// Execute one statement for each of them.
    Inexact(BatchInexact),
    /// The answer is known.
    Finish(Vec<StoreMatch>),
}

/// The rows of an answer, in terms of their bytes.
pub open spec fn pair_rows_view(rows: Seq<(Vec<u8>, Vec<u8>)>) -> Seq<(Seq<u8>, Seq<u8>)> {
    Seq::new(rows.len(), |i: int| (rows[i].0@, rows[i].1@))
}

/// The matches for addresses of which these hashes and contexts were found.
pub open spec fn exact_matches(
    addresses: Seq<Address>,
    rows: Seq<(Seq<u8>, Seq<u8>)>,
) -> Seq<StoreMatch> {
    Seq::new(
        addresses.len(),
        |i: int|
            if rows.contains((addresses[i].hash@, addresses[i].context@)) {
                StoreMatch::MatchFull
            } else {
                StoreMatch::MatchNone
            },
    )
}

fn same_bytes(a: &[u8], b: &[u8]) -> (same: bool)
    ensures
        same == (a@ == b@),
{
    if a.len() != b.len() {
        return false;
    }
    let mut i: usize = 0;
    while i < a.len()
        invariant
            0 <= i <= a@.len(),
            a@.len() == b@.len(),
            forall|j: int| 0 <= j < i ==> a@[j] == b@[j],
        decreases a@.len() - i,
    {
        if a[i] != b[i] {
            return false;
        }
        i = i + 1;
    }
    assert(a@ =~= b@);
    true
}

fn row_found(rows: &Vec<(Vec<u8>, Vec<u8>)>, address: Address) -> (found: bool)
    ensures
        found == pair_rows_view(rows@).contains((address.hash@, address.context@)),
{
    let hash = address.hash.to_vec();
    let context = address.context.to_vec();
    let ghost view = pair_rows_view(rows@);
    let mut i: usize = 0;
    while i < rows.len()
        invariant
            0 <= i <= rows@.len(),
            view == pair_rows_view(rows@),
            hash@ == address.hash@,
            context@ == address.context@,
            forall|j: int|
                0 <= j < i ==> #[trigger] view[j] != (address.hash@, address.context@),
        decreases rows@.len() - i,
    {
        if same_bytes(rows[i].0.as_slice(), hash.as_slice()) && same_bytes(
            rows[i].1.as_slice(),
            context.as_slice(),
        ) {
            assert(view[i as int] == (address.hash@, address.context@));
            return true;
        }
        i = i + 1;
    }
    false
}

impl BatchExact {
    /// The matches, from the hashes and contexts that were found.
    pub fn reply(&self, reply: Result<Vec<(Vec<u8>, Vec<u8>)>, Fault>) -> (matches: Result<
        Vec<StoreMatch>,
        StoreError,
    >)
        ensures
            match reply {
                Ok(rows) => matches is Ok && matches->Ok_0@ == exact_matches(
                    self.addresses@,
                    pair_rows_view(rows@),
                ),
                Err(fault) => matches == Err::<Vec<StoreMatch>, StoreError>(
                    StoreError::of_fault(fault, SqlCall::ExistBatchExact),
                ),
            },
    {
        let rows = match reply {
            Ok(rows) => rows,
            Err(fault) => {
                return Err(StoreError::from_fault(fault, SqlCall::ExistBatchExact));
            },
        };
        let ghost expected = exact_matches(self.addresses@, pair_rows_view(rows@));
        let mut matches: Vec<StoreMatch> = Vec::new();
        let mut i: usize = 0;
        while i < self.addresses.len()
            invariant
                0 <= i <= self.addresses@.len(),
                expected == exact_matches(self.addresses@, pair_rows_view(rows@)),
                matches@ == expected.take(i as int),
            decreases self.addresses@.len() - i,
        {
            if row_found(&rows, self.addresses[i]) {
                matches.push(StoreMatch::MatchFull);
            } else {
                matches.push(StoreMatch::MatchNone);
            }
            i = i + 1;
            assert(expected.take(i as int) =~= expected.take(i - 1).push(expected[i - 1]));
        }
        assert(expected.take(i as int) =~= expected);
        Ok(matches)
    }
}

/// An answer of yes has come in for the address at this position.
pub open spec fn answered_yes(answers: Seq<(usize, Result<bool, Fault>)>, position: int) -> bool {
    exists|k: int|
        0 <= k < answers.len() && (#[trigger] answers[k]).0 == position && answers[k].1 == Ok::<
            bool,
            Fault,
        >(true)
}

/// The matches for addresses about which these answers have come in, in whatever order. An
/// answer that failed, or has not come at all, counts as no.
pub open spec fn inexact_matches(
    count: nat,
    probe: Probe,
    answers: Seq<(usize, Result<bool, Fault>)>,
) -> Seq<StoreMatch> {
    Seq::new(
        count,
        |i: int|
            if answered_yes(answers, i) {
                probe.spec_matched()
            } else {
                StoreMatch::MatchNone
            },
    )
}

fn no_matches(count: usize) -> (matches: Vec<StoreMatch>)
    ensures
        matches@ == Seq::new(count as nat, |i: int| StoreMatch::MatchNone),
{
    let mut matches: Vec<StoreMatch> = Vec::new();
    let mut i: usize = 0;
    while i < count
        invariant
            0 <= i <= count,
            matches@.len() == i,
            forall|j: int| 0 <= j < i ==> matches@[j] == StoreMatch::MatchNone,
        decreases count - i,
    {
        matches.push(StoreMatch::MatchNone);
        i = i + 1;
    }
    assert(matches@ =~= Seq::new(count as nat, |i: int| StoreMatch::MatchNone));
    matches
}

impl BatchInexact {
    /// The statements to execute, one for each address.
    pub fn statements(&self) -> (statements: Vec<ImmutableStatement>)
        ensures
            statements@.len() == self.addresses@.len(),
            forall|i: int|
                0 <= i < statements@.len() ==> #[trigger] statements@[i] == self.probe.question(
                    self.repository,
                    self.addresses@[i],
                ),
    {
        let mut statements: Vec<ImmutableStatement> = Vec::new();
        let mut i: usize = 0;
        while i < self.addresses.len()
            invariant
                0 <= i <= self.addresses@.len(),
                statements@.len() == i,
                forall|j: int|
                    0 <= j < i ==> #[trigger] statements@[j] == self.probe.question(
                        self.repository,
                        self.addresses@[j],
                    ),
            decreases self.addresses@.len() - i,
        {
            statements.push(self.probe.ask(self.repository, self.addresses[i]));
            i = i + 1;
        }
        statements
    }

    /// The matches, from the answers in the order in which they have come in, each with the
    /// position of its address.
    pub fn reply(&self, answers: Vec<(usize, Result<bool, Fault>)>) -> (matches: Vec<StoreMatch>)
        ensures
            matches@ == inexact_matches(self.addresses@.len(), self.probe, answers@),
    {
        let count = self.addresses.len();
        let mut matches = no_matches(count);
        let mut i: usize = 0;
        while i < answers.len()
            invariant
                0 <= i <= answers@.len(),
                count == self.addresses@.len(),
                matches@.len() == count,
                forall|j: int|
                    0 <= j < count ==> #[trigger] matches@[j] == if answered_yes(
                        answers@.take(i as int),
                        j,
                    ) {
                        self.probe.spec_matched()
                    } else {
                        StoreMatch::MatchNone
                    },
            decreases answers@.len() - i,
        {
            let ghost before = answers@.take(i as int);
            let ghost after = answers@.take(i + 1);
            let position: usize = answers[i].0;
            let yes = match &answers[i].1 {
                Ok(found) => *found,
                Err(_) => false,
            };
            let ghost old_matches = matches@;
            if yes && position < count {
                matches.set(position, self.probe.matched());
            }
            proof {
                assert(after[i as int] == answers@[i as int]);
                assert forall|j: int| 0 <= j < count implies answered_yes(after, j) == (
                answered_yes(before, j) || (yes && position == j)) by {
                    if answered_yes(before, j) {
                        let k = choose|k: int|
                            0 <= k < before.len() && (#[trigger] before[k]).0 == j && before[k].1
                                == Ok::<bool, Fault>(true);
                        assert(after[k] == before[k]);
                    }
                    if answered_yes(after, j) {
                        let k = choose|k: int|
                            0 <= k < after.len() && (#[trigger] after[k]).0 == j && after[k].1
                                == Ok::<bool, Fault>(true);
                        if k < i {
                            assert(before[k] == after[k]);
                        }
                    }
                }
                assert forall|j: int| 0 <= j < count implies #[trigger] matches@[j]
                    == if answered_yes(after, j) {
                    self.probe.spec_matched()
                } else {
                    StoreMatch::MatchNone
                } by {
                    assert(old_matches[j] == if answered_yes(before, j) {
                        self.probe.spec_matched()
                    } else {
                        StoreMatch::MatchNone
                    });
                }
            }
            i = i + 1;
        }
        assert(answers@.take(i as int) =~= answers@);
        assert(matches@ =~= inexact_matches(self.addresses@.len(), self.probe, answers@));
        matches
    }
}

fn copied(addresses: &[Address]) -> (copies: Vec<Address>)
    ensures
        copies@ == addresses@,
{
    let mut copies: Vec<Address> = Vec::new();
    let mut i: usize = 0;
    while i < addresses.len()
        invariant
            0 <= i <= addresses@.len(),
            copies@ == addresses@.take(i as int),
        decreases addresses@.len() - i,
    {
        copies.push(addresses[i]);
        i = i + 1;
        assert(addresses@.take(i as int) =~= addresses@.take(i - 1).push(addresses@[i - 1]));
    }
    assert(addresses@.take(i as int) =~= addresses@);
    copies
}

impl PgImmutableStore {
    /// Asks whether an address is there, to the extent requested.
    pub fn exist(&self, partition: Partition, address: Address, match_requested: StoreMatch) -> (step:
        ExistStep)
        ensures
            step == match probe_for(match_requested) {
                Some(probe) => ExistStep::Probe(
                    ExistRequest { repository: partition, address, probe },
                ),
                None => ExistStep::Finish(Ok(StoreMatch::MatchNone)),
            },
    {
        match probe_of(match_requested) {
            Some(probe) => ExistStep::Probe(ExistRequest { repository: partition, address, probe }),
            None => ExistStep::Finish(Ok(StoreMatch::MatchNone)),
        }
    }

    /// Asks which of some addresses are there, to the extent requested.
    pub fn exist_batch(
        &self,
        partition: Partition,
        addresses: &[Address],
        match_requested: StoreMatch,
    ) -> (step: BatchStep)
        ensures
            match match_requested {
                StoreMatch::MatchNone => step matches BatchStep::Finish(matches) && matches@
                    == Seq::new(addresses@.len(), |i: int| StoreMatch::MatchNone),
                StoreMatch::MatchFull => step matches BatchStep::Exact(batch) && batch.repository
                    == partition && batch.addresses@ == addresses@,
                StoreMatch::MatchPartition => step matches BatchStep::Inexact(batch)
                    && batch.repository == partition && batch.addresses@ == addresses@
                    && batch.probe == Probe::Partition,
                StoreMatch::MatchHash => step matches BatchStep::Inexact(batch)
                    && batch.repository == partition && batch.addresses@ == addresses@
                    && batch.probe == Probe::Hash,
            },
    {
        match match_requested {
            StoreMatch::MatchNone => BatchStep::Finish(no_matches(addresses.len())),
            StoreMatch::MatchFull => BatchStep::Exact(
                BatchExact { repository: partition, addresses: copied(addresses) },
            ),
            StoreMatch::MatchPartition => BatchStep::Inexact(
                BatchInexact {
                    repository: partition,
                    addresses: copied(addresses),
                    probe: Probe::Partition,
                },
            ),
            StoreMatch::MatchHash => BatchStep::Inexact(
                BatchInexact {
                    repository: partition,
                    addresses: copied(addresses),
                    probe: Probe::Hash,
                },
            ),
        }
    }

    /// Asks for the metadata of a fragment, and for how well it matches. Obliterated
    /// fragments count as not there.
    pub fn query(&self, partition: Partition, address: Address, match_requested: StoreMatch) -> (step:
        QueryStep)
        ensures
            step == (Query {
                repository: partition,
                address,
                hide_obliterates: true,
                flags: self.spec_rules().flags,
            }).started(match_requested),
    {
        let query = Query {
            repository: partition,
            address,
            hide_obliterates: true,
            flags: self.rules().flags,
        };
        query.start(match_requested)
    }

    /// Asks for the number of hashes that are stored; [`counted`] makes the result of the
    /// count.
    pub fn fragment_count(&self) -> (statement: ImmutableStatement)
        ensures
            statement == ImmutableStatement::CountMetadata,
    {
        ImmutableStatement::CountMetadata
    }

    /// The number of addresses that one batch should hold at most.
    pub fn max_query_batch(&self) -> (limit: Option<usize>)
        ensures
            limit == Some(100usize),
    {
        Some(100)
    }
}

/// The number of hashes that are stored; `None` where it could not be found out.
pub fn counted(reply: Result<i64, Fault>) -> (count: Option<usize>)
    ensures
        count == match reply {
            Ok(n) => Some(n as usize),
            Err(_) => None,
        },
{
    match reply {
        Ok(n) => Some(n as usize),
        Err(_) => None,
    }
}

} // verus!
