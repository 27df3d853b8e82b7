//! Taking locks: all of a request, or none of it.

use crate::error::LockError;
use crate::lock::records::{
    canonical_order, in_canonical_order, locks_view, resources_view, reversed, same_resources,
    LockData, LockDataView, LockKey, LockResource, LockResourceView,
};
use crate::lock::statements::{LockStatement, LockStatementView, PgLockStore};
use crate::outside::now_millis;
use crate::sql::SqlCall;
use crate::types::RepositoryId;
use vstd::prelude::*;

verus! {

/// A request for locks, before there is a connection to Postgres.
#[derive(Debug)]
pub struct AcquireRequest {
    owner_id: String,
    repository: RepositoryId,
    resources: Vec<LockResource>,
}

/// What a request for locks asks for: the resources in the order in which they are taken.
pub struct AcquireRequestView {
    pub owner_id: Seq<char>,
    pub repository: RepositoryId,
    pub resources: Seq<LockResourceView>,
}

impl View for AcquireRequest {
    type V = AcquireRequestView;

    closed spec fn view(&self) -> AcquireRequestView {
        AcquireRequestView {
            owner_id: self.owner_id@,
            repository: self.repository,
            resources: resources_view(self.resources@),
        }
    }
}

/// A request for locks that is being carried out. The pending resources are kept with the
/// next one last.
#[derive(Debug)]
pub struct Acquire {
    owner_id: String,
    repository: RepositoryId,
    locked_at: i64,
    pending: Vec<LockResource>,
    newly_locked: Vec<LockData>,
}

/// How far a request for locks has come: the resources still to be locked, the next one
/// first, and the locks taken so far.
pub struct AcquireView {
    pub owner_id: Seq<char>,
    pub repository: RepositoryId,
    pub locked_at: i64,
    pub pending: Seq<LockResourceView>,
    pub newly_locked: Seq<LockDataView>,
}

impl View for Acquire {
    type V = AcquireView;

    closed spec fn view(&self) -> AcquireView {
        AcquireView {
            owner_id: self.owner_id@,
            repository: self.repository,
            locked_at: self.locked_at,
            pending: resources_view(self.pending@.reverse()),
            newly_locked: locks_view(self.newly_locked@),
        }
    }
}

/// A request for locks that has one resource in hand.
#[derive(Debug)]
pub struct AcquireOne {
    batch: Acquire,
    current: LockResource,
}

/// A request for locks that has one resource in hand.
pub struct AcquireOneView {
    pub batch: AcquireView,
    pub current: LockResourceView,
}

impl View for AcquireOne {
    type V = AcquireOneView;

    closed spec fn view(&self) -> AcquireOneView {
        AcquireOneView { batch: self.batch@, current: self.current@ }
    }
}

/// A request for locks whose transaction is not open yet.
#[derive(Debug)]
pub struct AcquireBegin {
    batch: Acquire,
}

impl View for AcquireBegin {
    type V = AcquireView;

    closed spec fn view(&self) -> AcquireView {
        self.batch@
    }
}

/// A request for locks with the insert of one of them to be made.
#[derive(Debug)]
pub struct AcquireInsert {
    one: AcquireOne,
}

impl View for AcquireInsert {
    type V = AcquireOneView;

    closed spec fn view(&self) -> AcquireOneView {
        self.one@
    }
}

/// A request for locks with the owner of an existing lock to be looked up.
#[derive(Debug)]
pub struct AcquireOwner {
    one: AcquireOne,
}

impl View for AcquireOwner {
    type V = AcquireOneView;

    closed spec fn view(&self) -> AcquireOneView {
        self.one@
    }
}

/// A request for locks that is ready to be committed.
#[derive(Debug)]
pub struct AcquireCommit {
    batch: Acquire,
}

impl View for AcquireCommit {
    type V = AcquireView;

    closed spec fn view(&self) -> AcquireView {
        self.batch@
    }
}

/// What to do next about a request for locks.
#[derive(Debug)]
pub enum AcquireStep {
    /// Open a transaction.
    Begin(AcquireBegin),
    /// Execute the insert and count the rows.
    Insert(AcquireInsert),
    /// Execute the query for the owner.
    SelectOwner(AcquireOwner),
    /// Commit the transaction.
    Commit(AcquireCommit),
    /// Roll the transaction back, whether that succeeds or not, and report the error.
    RollBack(LockError),
    /// Report the result. A transaction that is still open is given up.
    Finish(Result<Vec<LockData>, LockError>),
}

/// What to do next about a request for locks.
pub enum AcquireStepView {
    Begin(AcquireView),
    Insert(AcquireOneView),
    SelectOwner(AcquireOneView),
    Commit(AcquireView),
    RollBack(LockError),
    Finish(Result<Seq<LockDataView>, LockError>),
}

impl View for AcquireStep {
    type V = AcquireStepView;

    open spec fn view(&self) -> AcquireStepView {
        match *self {
            AcquireStep::Begin(s) => AcquireStepView::Begin(s@),
            AcquireStep::Insert(s) => AcquireStepView::Insert(s@),
            AcquireStep::SelectOwner(s) => AcquireStepView::SelectOwner(s@),
            AcquireStep::Commit(s) => AcquireStepView::Commit(s@),
            AcquireStep::RollBack(e) => AcquireStepView::RollBack(e),
            AcquireStep::Finish(Ok(locks)) => AcquireStepView::Finish(Ok(locks_view(locks@))),
            AcquireStep::Finish(Err(e)) => AcquireStepView::Finish(Err(e)),
        }
    }
}

impl AcquireRequestView {
    /// Once there is a connection, or none is to be had: every lock of the request gets
    /// the same time stamp.
    pub open spec fn connected(self, reply: Result<(), String>, locked_at: i64) -> AcquireStepView {
        match reply {
            Ok(()) => AcquireStepView::Begin(
                AcquireView {
                    owner_id: self.owner_id,
                    repository: self.repository,
                    locked_at,
                    pending: self.resources,
                    newly_locked: Seq::empty(),
                },
            ),
            Err(cause) => AcquireStepView::Finish(
                Err(LockError::Sql { call: SqlCall::Pool, cause }),
            ),
        }
    }
}

impl AcquireView {
    /// On to the next resource; without one, the transaction is committed.
    pub open spec fn advance(self) -> AcquireStepView {
        if self.pending.len() == 0 {
            AcquireStepView::Commit(self)
        } else {
            AcquireStepView::Insert(
                AcquireOneView {
                    batch: AcquireView { pending: self.pending.drop_first(), ..self },
                    current: self.pending.first(),
                },
            )
        }
    }

    /// Once the transaction is open.
    pub open spec fn begun(self, reply: Result<(), String>) -> AcquireStepView {
        match reply {
            Ok(()) => self.advance(),
            Err(cause) => AcquireStepView::Finish(
                Err(LockError::Sql { call: SqlCall::Begin, cause }),
            ),
        }
    }

    /// Once the transaction is committed: the locks that were not held before.
    pub open spec fn committed(self, reply: Result<(), String>) -> AcquireStepView {
        match reply {
            Ok(()) => AcquireStepView::Finish(Ok(self.newly_locked)),
            Err(cause) => AcquireStepView::Finish(
                Err(LockError::Sql { call: SqlCall::Commit, cause }),
            ),
        }
    }
}

impl AcquireOneView {
    /// The key of the resource in hand.
    pub open spec fn key(self) -> LockKey {
        self.current.key_in(self.batch.repository)
    }

    /// The insert for the resource in hand.
    pub open spec fn insert(self) -> LockStatementView {
        LockStatementView::Insert {
            key: self.key(),
            owner_id: self.batch.owner_id,
            description: self.current.description,
            locked_at: self.batch.locked_at,
        }
    }

    /// The lock on the resource in hand, as it is reported.
    pub open spec fn lock(self) -> LockDataView {
        LockDataView {
            resource: self.current,
            owner: self.batch.owner_id,
            locked_at: self.batch.locked_at as u64,
        }
    }

    /// Once the insert has been executed: a row that was added is a lock that was taken; if
    /// none was, someone holds the lock already.
    pub open spec fn inserted(self, reply: Result<u64, String>) -> AcquireStepView {
        match reply {
            Ok(rows) => if rows == 0 {
                AcquireStepView::SelectOwner(self)
            } else {
                AcquireView {
                    newly_locked: self.batch.newly_locked.push(self.lock()),
                    ..self.batch
                }.advance()
            },
            Err(cause) => AcquireStepView::Finish(
                Err(LockError::Sql { call: SqlCall::Insert, cause }),
            ),
        }
    }

    /// Once the owner is known: a lock that is held by the one who asks is passed over;
    /// anyone else's stops the request.
    pub open spec fn owner_known(self, reply: Result<Option<Seq<char>>, String>) -> AcquireStepView {
        match reply {
            Ok(Some(owner)) => if owner == self.batch.owner_id {
                self.batch.advance()
            } else {
                AcquireStepView::RollBack(LockError::LockNotOwned)
            },
            Ok(None) => AcquireStepView::RollBack(LockError::RowDisappeared),
            Err(cause) => AcquireStepView::Finish(
                Err(LockError::Sql { call: SqlCall::Select, cause }),
            ),
        }
    }
}

/// An answer about an owner, in terms of the owner's name.
pub open spec fn owner_reply_view(reply: Result<Option<String>, String>) -> Result<
    Option<Seq<char>>,
    String,
> {
    match reply {
        Ok(Some(owner)) => Ok(Some(owner@)),
        Ok(None) => Ok(None),
        Err(cause) => Err(cause),
    }
}

impl PgLockStore {
    /// Asks for locks on all of the resources.
    ///
    /// The request is all or nothing. A resource that `owner_id` has locked already is left
    /// alone and not reported; one that somebody else has locked makes the whole request
    /// fail with [`LockError::LockNotOwned`]. The locks are taken in canonical order, so
    /// that two requests that overlap cannot block each other.
    pub fn lock_resources(
        &self,
        owner_id: &str,
        repository: RepositoryId,
        resources: &[LockResource],
    ) -> (request: AcquireRequest)
        ensures
            request@.owner_id == owner_id@,
            request@.repository == repository,
            in_canonical_order(request@.resources),
            same_resources(request@.resources, resources_view(resources@)),
    {
        AcquireRequest {
            owner_id: owner_id.to_owned(),
            repository,
            resources: canonical_order(resources),
        }
    }
}

/// The clock has been read, and has shown this time.
pub closed spec fn clock_shows(now: i64) -> bool {
    call_ensures(now_millis, (), now)
}

impl AcquireRequest {
    /// Goes on once a connection has been asked for, with the current time as the time
    /// stamp of the locks: what the clock has shown, as it has shown it. Without a connection
    /// the clock is not asked.
    pub fn connected(self, reply: Result<(), String>) -> (step: AcquireStep)
        ensures
            exists|now: i64| now >= 0 && step@ == #[trigger] self@.connected(reply, now),
            reply is Ok ==> exists|now: i64|
                now >= 0 && #[trigger] clock_shows(now) && step@ == self@.connected(reply, now),
            reply is Err ==> step@ == self@.connected(reply, 0),
    {
        match reply {
            Ok(()) => {
                let now: i64 = now_millis();
                let step = self.connected_at(Ok(()), now);
                assert(step@ == self@.connected(reply, now));
                assert(clock_shows(now));
                step
            },
            Err(cause) => {
                let step = self.connected_at(Err(cause), 0);
                assert(step@ == self@.connected(reply, 0));
                step
            },
        }
    }

    /// Goes on once a connection has been asked for, with the given time stamp.
    pub fn connected_at(self, reply: Result<(), String>, locked_at: i64) -> (step: AcquireStep)
        ensures
            step@ == self@.connected(reply, locked_at),
    {
        match reply {
            Ok(()) => {
                let pending = reversed(self.resources);
                let batch = Acquire {
                    owner_id: self.owner_id,
                    repository: self.repository,
                    locked_at,
                    pending,
                    newly_locked: Vec::new(),
                };
                assert(batch.pending@.reverse() =~= self.resources@);
                assert(batch@.newly_locked =~= Seq::empty());
                AcquireStep::Begin(AcquireBegin { batch })
            },
            Err(cause) => AcquireStep::Finish(Err(LockError::Sql { call: SqlCall::Pool, cause })),
        }
    }
}

impl Acquire {
    fn advance(self) -> (step: AcquireStep)
        ensures
            step@ == self@.advance(),
    {
        let mut batch = self;
        let ghost before = batch.pending@;
        match batch.pending.pop() {
            None => {
                AcquireStep::Commit(AcquireCommit { batch })
            },
            Some(current) => {
                proof {
                    let old_view = resources_view(before.reverse());
                    assert(batch@.pending =~= old_view.drop_first());
                    assert(old_view.first() == current@);
                }
                AcquireStep::Insert(AcquireInsert { one: AcquireOne { batch, current } })
            },
        }
    }
}

impl AcquireBegin {
    /// Goes on once the transaction has been opened.
    pub fn reply(self, reply: Result<(), String>) -> (step: AcquireStep)
        ensures
            step@ == self@.begun(reply),
    {
        match reply {
            Ok(()) => self.batch.advance(),
            Err(cause) => AcquireStep::Finish(Err(LockError::Sql { call: SqlCall::Begin, cause })),
        }
    }
}

impl AcquireInsert {
    /// The insert.
    pub fn statement(&self) -> (statement: LockStatement)
        ensures
            statement@ == self@.insert(),
    {
        LockStatement::Insert {
            key: LockKey {
                repository: self.one.batch.repository,
                branch: self.one.current.branch,
                hash: self.one.current.hash,
            },
            owner_id: self.one.batch.owner_id.clone(),
            description: self.one.current.description.clone(),
            locked_at: self.one.batch.locked_at,
        }
    }

    /// Goes on with the number of rows that the insert added.
    pub fn reply(self, reply: Result<u64, String>) -> (step: AcquireStep)
        ensures
            step@ == self@.inserted(reply),
    {
        match reply {
            Ok(rows) => {
                if rows == 0 {
                    AcquireStep::SelectOwner(AcquireOwner { one: self.one })
                } else {
                    let mut batch = self.one.batch;
                    let lock = LockData {
                        resource: self.one.current,
                        owner: batch.owner_id.clone(),
                        locked_at: batch.locked_at as u64,
                    };
                    batch.newly_locked.push(lock);
                    assert(batch@.newly_locked =~= self@.batch.newly_locked.push(lock@));
                    batch.advance()
                }
            },
            Err(cause) => AcquireStep::Finish(
                Err(LockError::Sql { call: SqlCall::Insert, cause }),
            ),
        }
    }
}

impl AcquireOwner {
    /// The query for the owner.
    pub fn statement(&self) -> (statement: LockStatement)
        ensures
            statement@ == (LockStatementView::SelectOwner { key: self@.key() }),
    {
        LockStatement::SelectOwner {
            key: LockKey {
                repository: self.one.batch.repository,
                branch: self.one.current.branch,
                hash: self.one.current.hash,
            },
        }
    }

    /// Goes on with the owner that was found.
    pub fn reply(self, reply: Result<Option<String>, String>) -> (step: AcquireStep)
        ensures
            step@ == self@.owner_known(owner_reply_view(reply)),
    {
        match reply {
            Ok(Some(owner)) => {
                if owner == self.one.batch.owner_id {
                    self.one.batch.advance()
                } else {
                    AcquireStep::RollBack(LockError::LockNotOwned)
                }
            },
            Ok(None) => AcquireStep::RollBack(LockError::RowDisappeared),
            Err(cause) => AcquireStep::Finish(
                Err(LockError::Sql { call: SqlCall::Select, cause }),
            ),
        }
    }
}

impl AcquireCommit {
    /// Goes on once the transaction has been committed.
    pub fn reply(self, reply: Result<(), String>) -> (step: AcquireStep)
        ensures
            step@ == self@.committed(reply),
    {
        match reply {
            Ok(()) => AcquireStep::Finish(Ok(self.batch.newly_locked)),
            Err(cause) => AcquireStep::Finish(
                Err(LockError::Sql { call: SqlCall::Commit, cause }),
            ),
        }
    }
}

} // verus!
