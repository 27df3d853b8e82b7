//! Giving locks back: all of a request, or none of it.

use crate::error::LockError;
use crate::lock::acquire::owner_reply_view;
use crate::lock::records::{
    canonical_order, in_canonical_order, resources_view, reversed, same_resources, LockKey,
    LockResource, LockResourceView,
};
use crate::lock::statements::{LockStatement, LockStatementView, PgLockStore};
use crate::sql::SqlCall;
use crate::types::RepositoryId;
use vstd::prelude::*;

verus! {

/// A request to give locks back. The pending resources are kept with the next one last.
#[derive(Debug)]
pub struct Release {
    owner_id: String,
    validate_user: bool,
    repository: RepositoryId,
    pending: Vec<LockResource>,
    released: Vec<LockResource>,
}

/// How far a request to give locks back has come: the resources still to be unlocked, the
/// next one first, and those unlocked so far.
pub struct ReleaseView {
    pub owner_id: Seq<char>,
    pub validate_user: bool,
    pub repository: RepositoryId,
    pub pending: Seq<LockResourceView>,
    pub released: Seq<LockResourceView>,
}

impl View for Release {
    type V = ReleaseView;

    closed spec fn view(&self) -> ReleaseView {
        ReleaseView {
            owner_id: self.owner_id@,
            validate_user: self.validate_user,
            repository: self.repository,
            pending: resources_view(self.pending@.reverse()),
            released: resources_view(self.released@),
        }
    }
}

/// A request to give locks back, before there is a connection to Postgres.
#[derive(Debug)]
pub struct ReleaseRequest {
    batch: Release,
}

impl View for ReleaseRequest {
    type V = ReleaseView;

    closed spec fn view(&self) -> ReleaseView {
        self.batch@
    }
}

/// A request to give locks back whose transaction is not open yet.
#[derive(Debug)]
pub struct ReleaseBegin {
    batch: Release,
}

impl View for ReleaseBegin {
    type V = ReleaseView;

    closed spec fn view(&self) -> ReleaseView {
        self.batch@
    }
}

/// A request to give locks back that has one resource in hand.
pub struct ReleaseOneView {
    pub batch: ReleaseView,
    pub current: LockResourceView,
}

/// A request to give locks back with the delete of one of them to be made.
#[derive(Debug)]
pub struct ReleaseDelete {
    batch: Release,
    current: LockResource,
}

impl View for ReleaseDelete {
    type V = ReleaseOneView;

    closed spec fn view(&self) -> ReleaseOneView {
        ReleaseOneView { batch: self.batch@, current: self.current@ }
    }
}

/// A request to give locks back, of which one was not deleted: whose it is has to be
/// looked up.
#[derive(Debug)]
pub struct ReleaseOwner {
    batch: Release,
    current: LockResource,
}

impl View for ReleaseOwner {
    type V = ReleaseOneView;

    closed spec fn view(&self) -> ReleaseOneView {
        ReleaseOneView { batch: self.batch@, current: self.current@ }
    }
}

/// A request to give locks back that is ready to be committed.
#[derive(Debug)]
pub struct ReleaseCommit {
    batch: Release,
}

impl View for ReleaseCommit {
    type V = ReleaseView;

    closed spec fn view(&self) -> ReleaseView {
        self.batch@
    }
}

/// What to do next about a request to give locks back.
#[derive(Debug)]
pub enum ReleaseStep {
    /// Open a transaction.
    Begin(ReleaseBegin),
    /// Execute the delete and count the rows.
    Delete(ReleaseDelete),
    /// Execute the query for the owner.
    SelectOwner(ReleaseOwner),
    /// Commit the transaction.
    Commit(ReleaseCommit),
    /// Roll the transaction back, whether that succeeds or not, and report the error.
    RollBack(LockError),
    /// Report the result. A transaction that is still open is given up.
    Finish(Result<Vec<LockResource>, LockError>),
}

/// What to do next about a request to give locks back.
pub enum ReleaseStepView {
    Begin(ReleaseView),
    Delete(ReleaseOneView),
    SelectOwner(ReleaseOneView),
    Commit(ReleaseView),
    RollBack(LockError),
    Finish(Result<Seq<LockResourceView>, LockError>),
}

impl View for ReleaseStep {
    type V = ReleaseStepView;

    open spec fn view(&self) -> ReleaseStepView {
        match *self {
            ReleaseStep::Begin(s) => ReleaseStepView::Begin(s@),
            ReleaseStep::Delete(s) => ReleaseStepView::Delete(s@),
            ReleaseStep::SelectOwner(s) => ReleaseStepView::SelectOwner(s@),
            ReleaseStep::Commit(s) => ReleaseStepView::Commit(s@),
            ReleaseStep::RollBack(e) => ReleaseStepView::RollBack(e),
            ReleaseStep::Finish(Ok(list)) => ReleaseStepView::Finish(Ok(resources_view(list@))),
            ReleaseStep::Finish(Err(e)) => ReleaseStepView::Finish(Err(e)),
        }
    }
}

impl ReleaseView {
    /// Once there is a connection, or none is to be had.
    pub open spec fn connected(self, reply: Result<(), String>) -> ReleaseStepView {
        match reply {
            Ok(()) => ReleaseStepView::Begin(self),
            Err(cause) => ReleaseStepView::Finish(
                Err(LockError::Sql { call: SqlCall::Pool, cause }),
            ),
        }
    }

    /// On to the next resource; without one, the transaction is committed.
    pub open spec fn advance(self) -> ReleaseStepView {
        if self.pending.len() == 0 {
            ReleaseStepView::Commit(self)
        } else {
            ReleaseStepView::Delete(
                ReleaseOneView {
                    batch: ReleaseView { pending: self.pending.drop_first(), ..self },
                    current: self.pending.first(),
                },
            )
        }
    }

    /// Once the transaction is open.
    pub open spec fn begun(self, reply: Result<(), String>) -> ReleaseStepView {
        match reply {
            Ok(()) => self.advance(),
            Err(cause) => ReleaseStepView::Finish(
                Err(LockError::Sql { call: SqlCall::Begin, cause }),
            ),
        }
    }

    /// Once the transaction is committed: the resources of the request, in canonical order.
    pub open spec fn committed(self, reply: Result<(), String>) -> ReleaseStepView {
        match reply {
            Ok(()) => ReleaseStepView::Finish(Ok(self.released)),
            Err(cause) => ReleaseStepView::Finish(
                Err(LockError::Sql { call: SqlCall::Commit, cause }),
            ),
        }
    }
}

impl ReleaseOneView {
    /// The key of the resource in hand.
    pub open spec fn key(self) -> LockKey {
        self.current.key_in(self.batch.repository)
    }

    /// The delete for the resource in hand: of the owner's lock only, or of anyone's.
    pub open spec fn delete(self) -> LockStatementView {
        if self.batch.validate_user {
            LockStatementView::DeleteOwned { key: self.key(), owner_id: self.batch.owner_id }
        } else {
            LockStatementView::Delete { key: self.key() }
        }
    }

    /// Once the delete has been executed: where the owner matters, a row must have gone.
    pub open spec fn deleted(self, reply: Result<u64, String>) -> ReleaseStepView {
        match reply {
            Ok(rows) => if self.batch.validate_user && rows == 0 {
                ReleaseStepView::SelectOwner(self)
            } else {
                ReleaseView {
                    released: self.batch.released.push(self.current),
                    ..self.batch
                }.advance()
            },
            Err(cause) => ReleaseStepView::Finish(
                Err(LockError::Sql { call: SqlCall::Delete, cause }),
            ),
        }
    }

    /// Once the owner is known: somebody else's lock, or none at all, stops the request.
    pub open spec fn owner_known(self, reply: Result<Option<Seq<char>>, String>) -> ReleaseStepView {
        match reply {
            Ok(Some(_)) => ReleaseStepView::RollBack(LockError::LockNotOwned),
            Ok(None) => ReleaseStepView::RollBack(LockError::LockNotFound),
            Err(cause) => ReleaseStepView::Finish(
                Err(LockError::Sql { call: SqlCall::Select, cause }),
            ),
        }
    }
}

impl PgLockStore {
    /// Asks to give back the locks on all of the resources.
    ///
    /// With `validate_user` the request is all or nothing: a lock that somebody else holds
    /// makes it fail with [`LockError::LockNotOwned`], one that nobody holds with
    /// [`LockError::LockNotFound`]. Without it, the locks are removed whoever holds them,
    /// and those that nobody holds are passed over.
    pub fn unlock_resources(
        &self,
        owner_id: &str,
        validate_user: bool,
        repository: RepositoryId,
        resources: &[LockResource],
    ) -> (request: ReleaseRequest)
        ensures
            request@.owner_id == owner_id@,
            request@.validate_user == validate_user,
            request@.repository == repository,
            in_canonical_order(request@.pending),
            same_resources(request@.pending, resources_view(resources@)),
            request@.released == Seq::<LockResourceView>::empty(),
    {
        let list = canonical_order(resources);
        let ghost order = list@;
        let batch = Release {
            owner_id: owner_id.to_owned(),
            validate_user,
            repository,
            pending: reversed(list),
            released: Vec::new(),
        };
        assert(batch.pending@.reverse() =~= order);
        assert(batch@.released =~= Seq::empty());
        ReleaseRequest { batch }
    }
}

impl ReleaseRequest {
    /// Goes on once a connection has been asked for.
    pub fn connected(self, reply: Result<(), String>) -> (step: ReleaseStep)
        ensures
            step@ == self@.connected(reply),
    {
        match reply {
            Ok(()) => ReleaseStep::Begin(ReleaseBegin { batch: self.batch }),
            Err(cause) => ReleaseStep::Finish(Err(LockError::Sql { call: SqlCall::Pool, cause })),
        }
    }
}

impl Release {
    fn advance(self) -> (step: ReleaseStep)
        ensures
            step@ == self@.advance(),
    {
        let mut batch = self;
        let ghost before = batch.pending@;
        match batch.pending.pop() {
            None => ReleaseStep::Commit(ReleaseCommit { batch }),
            Some(current) => {
                proof {
                    let old_view = resources_view(before.reverse());
                    assert(batch@.pending =~= old_view.drop_first());
                    assert(old_view.first() == current@);
                }
                ReleaseStep::Delete(ReleaseDelete { batch, current })
            },
        }
    }
}

impl ReleaseBegin {
    /// Goes on once the transaction has been opened.
    pub fn reply(self, reply: Result<(), String>) -> (step: ReleaseStep)
        ensures
            step@ == self@.begun(reply),
    {
        match reply {
            Ok(()) => self.batch.advance(),
            Err(cause) => ReleaseStep::Finish(Err(LockError::Sql { call: SqlCall::Begin, cause })),
        }
    }
}

impl ReleaseDelete {
    /// The delete.
    pub fn statement(&self) -> (statement: LockStatement)
        ensures
            statement@ == self@.delete(),
    {
        let key = LockKey {
            repository: self.batch.repository,
            branch: self.current.branch,
            hash: self.current.hash,
        };
        if self.batch.validate_user {
            LockStatement::DeleteOwned { key, owner_id: self.batch.owner_id.clone() }
        } else {
            LockStatement::Delete { key }
        }
    }

    /// Goes on with the number of rows that were deleted.
    pub fn reply(self, reply: Result<u64, String>) -> (step: ReleaseStep)
        ensures
            step@ == self@.deleted(reply),
    {
        match reply {
            Ok(rows) => {
                if self.batch.validate_user && rows == 0 {
                    ReleaseStep::SelectOwner(
                        ReleaseOwner { batch: self.batch, current: self.current },
                    )
                } else {
                    let ghost current = self.current@;
                    let mut batch = self.batch;
                    batch.released.push(self.current);
                    assert(batch@.released =~= self@.batch.released.push(current));
                    batch.advance()
                }
            },
            Err(cause) => ReleaseStep::Finish(
                Err(LockError::Sql { call: SqlCall::Delete, cause }),
            ),
        }
    }
}

impl ReleaseOwner {
    /// The query for the owner.
    pub fn statement(&self) -> (statement: LockStatement)
        ensures
            statement@ == (LockStatementView::SelectOwner { key: self@.key() }),
    {
        LockStatement::SelectOwner {
            key: LockKey {
                repository: self.batch.repository,
                branch: self.current.branch,
                hash: self.current.hash,
            },
        }
    }

    /// Goes on with the owner that was found.
    pub fn reply(self, reply: Result<Option<String>, String>) -> (step: ReleaseStep)
        ensures
            step@ == self@.owner_known(owner_reply_view(reply)),
    {
        match reply {
            Ok(Some(_)) => ReleaseStep::RollBack(LockError::LockNotOwned),
            Ok(None) => ReleaseStep::RollBack(LockError::LockNotFound),
            Err(cause) => ReleaseStep::Finish(
                Err(LockError::Sql { call: SqlCall::Select, cause }),
            ),
        }
    }
}

impl ReleaseCommit {
    /// Goes on once the transaction has been committed.
    pub fn reply(self, reply: Result<(), String>) -> (step: ReleaseStep)
        ensures
            step@ == self@.committed(reply),
    {
        match reply {
            Ok(()) => ReleaseStep::Finish(Ok(self.batch.released)),
            Err(cause) => ReleaseStep::Finish(
                Err(LockError::Sql { call: SqlCall::Commit, cause }),
            ),
        }
    }
}

} // verus!
