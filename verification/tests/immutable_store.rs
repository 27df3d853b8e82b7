//! The immutable store, carried out against tables and objects in memory.

use std::collections::{BTreeMap, BTreeSet};

use bytes::Bytes;
use lore_pg::error::{ObjectCall, StoreError};
use lore_pg::immutable::get::GetStep;
use lore_pg::immutable::lookup::{
    counted, BatchStep, ExistStep, Probe, QueryStep, StoreQueryResult,
};
use lore_pg::immutable::metadata::{fragment_from_row, update_metadata_cas, MetadataRow};
use lore_pg::immutable::obliterate::{ObliterateStep, PartOutcome};
use lore_pg::immutable::payload::{hash_to_hex, read_payload, ObjectContents, ObjectFault};
use lore_pg::immutable::put::{CopyStep, PutCheck, PutStep};
use lore_pg::immutable::statements::{
    ImmutableStatement, PgImmutableStore, PgImmutableStoreSettings, StoreRules,
};
use lore_pg::sql::{Fault, SqlCall, SqlParam};
use lore_pg::types::{
    Address, ContentHash, Context, Fragment, FragmentFlags, Partition, StoreMatch,
};

const FLAGS: FragmentFlags = FragmentFlags {
    payload_obliterating: 1,
    payload_obliterated: 2,
    payload_obliteration: 3,
    payload_fragmented: 4,
};

type Association = ([u8; 32], [u8; 16], [u8; 16]);

#[derive(Clone, Debug, Default, PartialEq)]
struct World {
    associations: BTreeSet<Association>,
    metadata: BTreeMap<[u8; 32], MetadataRow>,
    objects: BTreeMap<String, Vec<u8>>,
}

fn row_of(fragment: Fragment) -> MetadataRow {
    MetadataRow {
        flags: fragment.flags as i64,
        size_payload: fragment.size_payload as i64,
        size_content: fragment.size_content as i64,
    }
}

impl World {
    fn found(&self, statement: ImmutableStatement) -> bool {
        match statement {
            ImmutableStatement::ExistsExact { hash, repository, context } => {
                self.associations.contains(&(hash.data, repository.data, context.data))
            }
            ImmutableStatement::ExistsRepository { hash, repository } => {
                self.associations.iter().any(|a| a.0 == hash.data && a.1 == repository.data)
            }
            ImmutableStatement::ExistsHash { hash } => {
                self.associations.iter().any(|a| a.0 == hash.data)
            }
            other => panic!("{other:?}"),
        }
    }

    fn row(&self, statement: ImmutableStatement) -> Option<MetadataRow> {
        match statement {
            ImmutableStatement::LoadMetadata { hash } => self.metadata.get(&hash.data).copied(),
            other => panic!("{other:?}"),
        }
    }

    fn count(&self, statement: ImmutableStatement) -> i64 {
        match statement {
            ImmutableStatement::CountAssociations { hash } => {
                self.associations.iter().filter(|a| a.0 == hash.data).count() as i64
            }
            ImmutableStatement::CountMetadata => self.metadata.len() as i64,
            other => panic!("{other:?}"),
        }
    }

    fn execute(&mut self, statement: ImmutableStatement) -> u64 {
        match statement {
            ImmutableStatement::WriteMetadata { hash, fragment } => {
                self.metadata.insert(hash.data, row_of(fragment));
                1
            }
            ImmutableStatement::UpdateMetadata { hash, updated, expected } => {
                if self.metadata.get(&hash.data) == Some(&row_of(expected)) {
                    self.metadata.insert(hash.data, row_of(updated));
                    1
                } else {
                    0
                }
            }
            ImmutableStatement::Associate { hash, repository, context } => {
                let new = self.associations.insert((hash.data, repository.data, context.data));
                new as u64
            }
            ImmutableStatement::DeleteAssociation { hash, repository, context } => {
                let old = self.associations.remove(&(hash.data, repository.data, context.data));
                old as u64
            }
            other => panic!("{other:?}"),
        }
    }

    fn object(&self, key: &str) -> Result<ObjectContents, ObjectFault> {
        match self.objects.get(key) {
            Some(bytes) => {
                let mut contents = ObjectContents::with_capacity(8);
                for chunk in bytes.chunks(7) {
                    assert!(contents.add_chunk(&Bytes::copy_from_slice(chunk)));
                }
                assert_eq!(contents.read(), bytes.len());
                Ok(contents)
            }
            None => Err(ObjectFault::NoSuchKey),
        }
    }
}

#[derive(Clone, Copy, Default, Debug, PartialEq)]
struct Stats {
    num_fragments: u64,
    num_payloads: u64,
}

/// The one call that fails, and whether it has its effect all the same.
struct Failing {
    calls: u32,
    at: u32,
    effect: bool,
}

impl Failing {
    fn next(&mut self) -> Option<bool> {
        self.calls += 1;
        if self.calls == self.at + 1 {
            Some(self.effect)
        } else {
            None
        }
    }
}

struct Fragments {
    store: PgImmutableStore,
    world: World,
}

/// The order in which the answers to a reading come in.
#[derive(Clone, Copy)]
enum Answer {
    Existence,
    Metadata,
    Object,
}

const IN_ORDER: [Answer; 3] = [Answer::Existence, Answer::Metadata, Answer::Object];

impl Fragments {
    fn with(force_write: bool) -> Fragments {
        let settings = PgImmutableStoreSettings::new(
            "immutable_fragments".to_string(),
            "immutable_metadata".to_string(),
            "bucket".to_string(),
        )
        .with_force_write(force_write);
        Fragments { store: PgImmutableStore::new(&settings, FLAGS), world: World::default() }
    }

    fn new() -> Fragments {
        Fragments::with(false)
    }

    fn exist(
        &self,
        partition: Partition,
        address: Address,
        requested: StoreMatch,
    ) -> Result<StoreMatch, StoreError> {
        match self.store.exist(partition, address, requested) {
            ExistStep::Probe(request) => {
                let found = self.world.found(request.statement());
                request.reply(Ok(found))
            }
            ExistStep::Finish(result) => result,
        }
    }

    fn exist_batch(
        &self,
        partition: Partition,
        addresses: &[Address],
        requested: StoreMatch,
    ) -> Result<Vec<StoreMatch>, StoreError> {
        match self.store.exist_batch(partition, addresses, requested) {
            BatchStep::Exact(batch) => {
                let rows = batch
                    .addresses
                    .iter()
                    .filter(|a| {
                        let key = (a.hash.data, batch.repository.data, a.context.data);
                        self.world.associations.contains(&key)
                    })
                    .map(|a| (a.hash.to_vec(), a.context.to_vec()))
                    .collect();
                batch.reply(Ok(rows))
            }
            BatchStep::Inexact(batch) => {
                let mut answers = Vec::new();
                for (i, statement) in batch.statements().into_iter().enumerate() {
                    answers.push((i, Ok(self.world.found(statement))));
                }
                answers.reverse();
                Ok(batch.reply(answers))
            }
            BatchStep::Finish(matches) => Ok(matches),
        }
    }

    fn query(
        &self,
        partition: Partition,
        address: Address,
        requested: StoreMatch,
    ) -> Result<StoreQueryResult, StoreError> {
        let mut step = self.store.query(partition, address, requested);
        loop {
            step = match step {
                QueryStep::Probe(s) => {
                    let found = self.world.found(s.statement());
                    s.reply(Ok(found))
                }
                QueryStep::Metadata(s) => {
                    let row = self.world.row(s.statement());
                    return s.reply(Ok(row));
                }
                QueryStep::Finish(result) => return result,
            };
        }
    }

    fn get_in_order(
        &self,
        partition: Partition,
        address: Address,
        required: StoreMatch,
        order: &[Answer],
    ) -> Result<(Fragment, Bytes), StoreError> {
        let mut step = self.store.get(partition, address, required);
        let (existence, row, key) = match &step {
            GetStep::Wait(get) => (
                self.world.found(get.existence_statement()),
                self.world.row(get.metadata_statement()),
                get.key(),
            ),
            GetStep::Finish(_) => (false, None, String::new()),
            other => panic!("{other:?}"),
        };
        for answer in order {
            step = match (step, *answer) {
                (GetStep::Wait(get), Answer::Existence) => get.existence(Ok(existence)),
                (GetStep::Wait(get), Answer::Metadata) => get.metadata(Ok(row), Ok(())),
                (GetStep::Wait(get), Answer::Object) => get.object(self.world.object(&key)),
                (GetStep::Loading(load), Answer::Metadata) => {
                    load.metadata(Ok(row), Ok(())).confirm()
                }
                (GetStep::Loading(load), Answer::Object) => {
                    load.object(self.world.object(&key)).confirm()
                }
                (step, _) => step,
            };
        }
        match step {
            GetStep::Check(check) => {
                assert_eq!(check.payload_len(), check.fragment().size_payload as usize);
                check.reply(Ok(()))
            }
            GetStep::Finish(result) => result,
            other => panic!("{other:?}"),
        }
    }

    fn get(
        &self,
        partition: Partition,
        address: Address,
        required: StoreMatch,
    ) -> Result<(Fragment, Bytes), StoreError> {
        self.get_in_order(partition, address, required, &IN_ORDER)
    }

    fn put(
        &mut self,
        partition: Partition,
        address: Address,
        fragment: Fragment,
        payload: Option<Bytes>,
    ) -> Result<(), StoreError> {
        let mut step = self.store.put(partition, address, Ok(fragment), payload, false);
        let mut working = self.world.clone();
        loop {
            step = match step {
                PutStep::Probe(s) => {
                    let found = self.world.found(s.statement());
                    s.reply(Ok(found))
                }
                PutStep::Metadata(s) => {
                    let row = self.world.row(s.statement());
                    s.reply(Ok(row))
                }
                PutStep::Associate(s) => {
                    self.world.execute(s.statement());
                    return s.reply(Ok(()));
                }
                PutStep::Object(s) => {
                    self.world.objects.insert(s.key(), s.payload.to_vec());
                    s.reply(Ok(()))
                }
                PutStep::Begin(s) => {
                    working = self.world.clone();
                    s.reply(Ok(()))
                }
                PutStep::Index(s) => {
                    working.execute(s.statement());
                    s.reply(Ok(()))
                }
                PutStep::AssociateIn(s) => {
                    working.execute(s.statement());
                    s.reply(Ok(()))
                }
                PutStep::Commit(s) => {
                    self.world = working.clone();
                    s.reply(Ok(()))
                }
                PutStep::RollBack(e) => return Err(e),
                PutStep::Finish(result) => return result,
            };
        }
    }

    fn obliterate(
        &mut self,
        partition: Partition,
        address: Address,
        stats: &mut Stats,
    ) -> Result<(), StoreError> {
        let mut step = self.store.obliterate(partition, address);
        let mut counted = (0, 0);
        loop {
            let removed = step.removed();
            stats.num_fragments += removed.0 - counted.0;
            stats.num_payloads += removed.1 - counted.1;
            counted = removed;
            step = match step {
                ObliterateStep::Read(s) => {
                    let row = self.world.row(s.statement());
                    s.reply(Ok(row), Ok(()))
                }
                ObliterateStep::Lock(s) => {
                    let rows = self.world.execute(s.statement());
                    s.reply(Ok(rows))
                }
                ObliterateStep::Fetch(s) => {
                    let object = self.world.object(&s.key());
                    s.reply(object)
                }
                ObliterateStep::Decode(s) => {
                    let hashes: Vec<ContentHash> = s
                        .payload
                        .chunks(32)
                        .map(|chunk| ContentHash::from_slice(chunk).unwrap())
                        .collect();
                    s.reply(&hashes)
                }
                ObliterateStep::Parts(s) => {
                    let mut outcomes = Vec::new();
                    for part in &s.parts {
                        outcomes.push(match self.obliterate(partition, *part, stats) {
                            Ok(()) => PartOutcome::Done,
                            Err(e) => PartOutcome::Failed(e),
                        });
                    }
                    s.reply(&outcomes)
                }
                ObliterateStep::Detach(s) => {
                    self.world.execute(s.statement());
                    s.reply(Ok(()))
                }
                ObliterateStep::Count(s) => {
                    let count = self.world.count(s.statement());
                    s.reply(Ok(count))
                }
                ObliterateStep::Restore(s) => {
                    let rows = self.world.execute(s.statement());
                    s.reply(Ok(rows))
                }
                ObliterateStep::Delete(s) => {
                    self.world.objects.remove(&s.key());
                    s.reply(Ok(()))
                }
                ObliterateStep::Seal(s) => {
                    let rows = self.world.execute(s.statement());
                    s.reply(Ok(rows))
                }
                ObliterateStep::Finish(outcome) => return outcome.result,
            };
        }
    }

    /// Obliterates a fragment when one call fails, with or without its effect.
    fn obliterate_failing(
        &mut self,
        partition: Partition,
        address: Address,
        failing: &mut Failing,
    ) -> Result<(), StoreError> {
        let down = || "down".to_string();
        let mut step = self.store.obliterate(partition, address);
        loop {
            step = match step {
                ObliterateStep::Read(s) => {
                    let row = self.world.row(s.statement());
                    match failing.next() {
                        None => s.reply(Ok(row), Ok(())),
                        Some(_) => s.reply(Err(Fault::Statement(down())), Ok(())),
                    }
                }
                ObliterateStep::Lock(s) => s.reply(self.execute_failing(s.statement(), failing)),
                ObliterateStep::Fetch(s) => {
                    let object = self.world.object(&s.key());
                    match failing.next() {
                        None => s.reply(object),
                        Some(_) => s.reply(Err(ObjectFault::Request(down()))),
                    }
                }
                ObliterateStep::Decode(s) => {
                    let hashes: Vec<ContentHash> = s
                        .payload
                        .chunks(32)
                        .map(|chunk| ContentHash::from_slice(chunk).unwrap())
                        .collect();
                    s.reply(&hashes)
                }
                ObliterateStep::Parts(s) => {
                    let mut outcomes = Vec::new();
                    for part in &s.parts {
                        outcomes.push(match self.obliterate_failing(partition, *part, failing) {
                            Ok(()) => PartOutcome::Done,
                            Err(e) => PartOutcome::Failed(e),
                        });
                    }
                    s.reply(&outcomes)
                }
                ObliterateStep::Detach(s) => {
                    s.reply(self.execute_failing(s.statement(), failing).map(|_| ()))
                }
                ObliterateStep::Count(s) => {
                    let count = self.world.count(s.statement());
                    match failing.next() {
                        None => s.reply(Ok(count)),
                        Some(_) => s.reply(Err(Fault::Statement(down()))),
                    }
                }
                ObliterateStep::Restore(s) => s.reply(self.execute_failing(s.statement(), failing)),
                ObliterateStep::Delete(s) => {
                    let fate = failing.next();
                    if fate != Some(false) {
                        self.world.objects.remove(&s.key());
                    }
                    s.reply(if fate.is_none() { Ok(()) } else { Err(down()) })
                }
                ObliterateStep::Seal(s) => s.reply(self.execute_failing(s.statement(), failing)),
                ObliterateStep::Finish(outcome) => return outcome.result,
            };
        }
    }

    fn execute_failing(
        &mut self,
        statement: ImmutableStatement,
        failing: &mut Failing,
    ) -> Result<u64, Fault> {
        match failing.next() {
            None => Ok(self.world.execute(statement)),
            Some(effect) => {
                if effect {
                    self.world.execute(statement);
                }
                Err(Fault::Statement("down".to_string()))
            }
        }
    }

    fn copy(
        &mut self,
        source_partition: Partition,
        source: Address,
        partition: Partition,
        context: Context,
    ) -> Result<(), StoreError> {
        let mut step = self.store.copy(source_partition, source, partition, context, true);
        loop {
            step = match step {
                CopyStep::Probe(s) => {
                    let found = self.world.found(s.statement());
                    s.reply(Ok(found))
                }
                CopyStep::Metadata(s) => {
                    let row = self.world.row(s.statement());
                    s.reply(Ok(row))
                }
                CopyStep::Associate(s) => {
                    self.world.execute(s.statement());
                    return s.reply(Ok(()));
                }
                CopyStep::Finish(result) => return result,
            };
        }
    }

    fn fragment_count(&self) -> Option<usize> {
        counted(Ok(self.world.count(self.store.fragment_count())))
    }
}

fn hash(n: u8) -> ContentHash {
    ContentHash { data: [n; 32] }
}

fn context(n: u8) -> Context {
    Context { data: [n; 16] }
}

fn payload_of(n: u8, len: usize) -> Bytes {
    Bytes::from((0..len).map(|i| n.wrapping_add(i as u8)).collect::<Vec<u8>>())
}

fn make_fragment_and_address(n: u8, payload: &Bytes, context: Context) -> (Address, Fragment) {
    let address = Address { hash: hash(n), context };
    let fragment = Fragment {
        flags: 0,
        size_payload: payload.len() as u32,
        size_content: payload.len() as u64,
    };
    (address, fragment)
}

#[test]
fn test_put_get_roundtrip() {
    let mut store = Fragments::new();
    let payload = payload_of(1, 64);
    let (address, fragment) = make_fragment_and_address(2, &payload, context(3));
    store.put(context(4), address, fragment, Some(payload.clone())).unwrap();
    let (returned_fragment, returned_payload) =
        store.get(context(4), address, StoreMatch::MatchFull).unwrap();
    assert_eq!(returned_payload, payload);
    assert_eq!(returned_fragment.size_payload, fragment.size_payload);
    assert_eq!(returned_fragment.size_content, fragment.size_content);
}

#[test]
fn test_exist_true_and_false() {
    let mut store = Fragments::new();
    let payload = payload_of(1, 32);
    let (address, fragment) = make_fragment_and_address(2, &payload, context(3));
    let before = store.exist(context(4), address, StoreMatch::MatchFull).unwrap();
    assert_eq!(before, StoreMatch::MatchNone);
    store.put(context(4), address, fragment, Some(payload)).unwrap();
    let after = store.exist(context(4), address, StoreMatch::MatchFull).unwrap();
    assert_eq!(after, StoreMatch::MatchFull);
}

#[test]
fn test_exist_batch() {
    let mut store = Fragments::new();
    let ctx = context(3);
    let payload_a = payload_of(1, 32);
    let payload_b = payload_of(2, 48);
    let (address_a, fragment_a) = make_fragment_and_address(5, &payload_a, ctx);
    let (address_b, fragment_b) = make_fragment_and_address(6, &payload_b, ctx);
    let unknown_address = Address { hash: hash(7), context: ctx };
    store.put(context(4), address_a, fragment_a, Some(payload_a)).unwrap();
    store.put(context(4), address_b, fragment_b, Some(payload_b)).unwrap();
    let addresses = [address_a, unknown_address, address_b];
    let results = store.exist_batch(context(4), &addresses, StoreMatch::MatchFull).unwrap();
    assert_eq!(results[0], StoreMatch::MatchFull);
    assert_eq!(results[1], StoreMatch::MatchNone);
    assert_eq!(results[2], StoreMatch::MatchFull);
}

#[test]
fn test_query() {
    let mut store = Fragments::new();
    let payload = payload_of(1, 100);
    let (address, fragment) = make_fragment_and_address(2, &payload, context(3));
    store.put(context(4), address, fragment, Some(payload)).unwrap();
    let result = store.query(context(4), address, StoreMatch::MatchFull).unwrap();
    assert_eq!(result.match_made, StoreMatch::MatchFull);
    assert_eq!(result.fragment.size_payload, fragment.size_payload);
}

#[test]
fn test_fragment_count() {
    let mut store = Fragments::new();
    let before = store.fragment_count().unwrap_or(0);
    let payload = payload_of(1, 64);
    let (address, fragment) = make_fragment_and_address(2, &payload, context(3));
    store.put(context(4), address, fragment, Some(payload)).unwrap();
    let after = store.fragment_count().unwrap_or(0);
    assert_eq!(after, before + 1);
}

#[test]
fn test_obliterate() {
    let mut store = Fragments::new();
    let payload = payload_of(1, 64);
    let (address, fragment) = make_fragment_and_address(2, &payload, context(3));
    store.put(context(4), address, fragment, Some(payload)).unwrap();
    let mut stats = Stats::default();
    store.obliterate(context(4), address, &mut stats).unwrap();
    let after = store.exist(context(4), address, StoreMatch::MatchFull).unwrap();
    assert_eq!(after, StoreMatch::MatchNone);
    assert_eq!(stats.num_payloads, 1);
}

#[test]
fn test_flush() {
    let store = Fragments::new();
    store.store.flush(false).unwrap();
}

#[test]
fn get_does_not_depend_on_the_order_of_answers() {
    let mut store = Fragments::new();
    let payload = payload_of(1, 64);
    let (address, fragment) = make_fragment_and_address(2, &payload, context(3));
    store.put(context(4), address, fragment, Some(payload.clone())).unwrap();
    let (e, m, o) = (Answer::Existence, Answer::Metadata, Answer::Object);
    let orders = [[e, m, o], [e, o, m], [m, e, o], [m, o, e], [o, e, m], [o, m, e]];
    for order in orders {
        let got = store.get_in_order(context(4), address, StoreMatch::MatchFull, &order);
        assert_eq!(got, Ok((fragment, payload.clone())));
        let missing = Address { hash: hash(99), context: context(3) };
        let got = store.get_in_order(context(4), missing, StoreMatch::MatchHash, &order);
        assert_eq!(got, Err(StoreError::AddressNotFound { address: missing }));
    }
}

#[test]
fn get_reports_what_counts_first() {
    let mut store = Fragments::new();
    let payload = payload_of(1, 64);
    let (address, fragment) = make_fragment_and_address(2, &payload, context(3));
    let nothing = store.get(context(4), address, StoreMatch::MatchNone);
    assert_eq!(nothing, Err(StoreError::AddressNotFound { address }));
    store.put(context(4), address, fragment, Some(payload)).unwrap();
    let zero = Address::zero_context_hash(address.hash);
    let key = hash_to_hex(address.hash);
    store.world.objects.insert(key.clone(), vec![1; 5]);
    let got = store.get(context(4), address, StoreMatch::MatchFull);
    let mismatch = StoreError::LoadSize { loaded: 5, expected: 64, hash: address.hash };
    assert_eq!(got, Err(mismatch));
    store.world.objects.remove(&key);
    let got = store.get(context(4), address, StoreMatch::MatchFull);
    assert_eq!(got, Err(StoreError::AddressNotFound { address: zero }));
    store.world.metadata.remove(&address.hash.data);
    let got = store.get(context(4), address, StoreMatch::MatchFull);
    assert_eq!(got, Err(StoreError::AddressNotFound { address: zero }));
}

#[test]
fn get_failures() {
    let store = Fragments::new();
    let address = Address { hash: hash(2), context: context(3) };
    let start = || match store.store.get(context(4), address, StoreMatch::MatchFull) {
        GetStep::Wait(get) => get,
        other => panic!("{other:?}"),
    };
    let finish = |step: GetStep| match step {
        GetStep::Finish(result) => result,
        other => panic!("{other:?}"),
    };
    let sql = |call: SqlCall| StoreError::Sql { call, cause: "down".to_string() };
    let statement = || Fault::Statement("down".to_string());
    let failed = finish(start().existence(Err(statement())));
    assert_eq!(failed, Err(sql(SqlCall::ExistsExact)));
    let failed = finish(start().existence(Err(Fault::Pool("down".to_string()))));
    assert_eq!(failed, Err(sql(SqlCall::Pool)));
    let loading = || match start().existence(Ok(true)) {
        GetStep::Loading(load) => load,
        other => panic!("{other:?}"),
    };
    let failed = finish(loading().metadata(Err(statement()), Ok(())).confirm());
    assert_eq!(failed, Err(sql(SqlCall::LoadMetadata)));
    let row = MetadataRow { flags: 0, size_payload: 3, size_content: 3 };
    let failed = finish(loading().metadata(Ok(Some(row)), Err("too large".to_string())).confirm());
    assert_eq!(failed, Err(StoreError::Invalid { cause: "too large".to_string() }));
    let gone = MetadataRow { flags: 2, size_payload: 0, size_content: 0 };
    let failed = finish(loading().metadata(Ok(Some(gone)), Ok(())).confirm());
    let zero = Address::zero_context_hash(address.hash);
    assert_eq!(failed, Err(StoreError::AddressNotFound { address: zero }));
    let object = |fault: ObjectFault| {
        let load = match loading().metadata(Ok(Some(row)), Ok(())).confirm() {
            GetStep::Loading(load) => load,
            other => panic!("{other:?}"),
        };
        finish(load.object(Err(fault)).confirm())
    };
    assert_eq!(object(ObjectFault::Service), Err(StoreError::SlowDown));
    assert_eq!(
        object(ObjectFault::Request("down".to_string())),
        Err(StoreError::Object { operation: ObjectCall::Get, cause: "down".to_string() })
    );
    assert_eq!(
        object(ObjectFault::Read("down".to_string())),
        Err(StoreError::Object { operation: ObjectCall::Read, cause: "down".to_string() })
    );
    let load = match loading().metadata(Ok(Some(row)), Ok(())).confirm() {
        GetStep::Loading(load) => load,
        other => panic!("{other:?}"),
    };
    let mut contents = ObjectContents::with_capacity(0);
    assert!(contents.add_chunk(&Bytes::from_static(b"abc")));
    match load.object(Ok(contents)).confirm() {
        GetStep::Check(check) => {
            let refused = check.reply(Err("bad".to_string()));
            assert_eq!(refused, Err(StoreError::Invalid { cause: "bad".to_string() }));
        }
        other => panic!("{other:?}"),
    }
}

#[test]
fn payloads_with_a_header_are_accepted_when_writing_is_forced() {
    let fragment = Fragment { flags: 0, size_payload: 3, size_content: 3 };
    let contents = || {
        let mut contents = ObjectContents::with_capacity(64);
        assert!(contents.add_chunk(&Bytes::from(vec![9; 16])));
        assert!(contents.add_chunk(&Bytes::from_static(b"abc")));
        contents
    };
    let forced = StoreRules { force_write: true, flags: FLAGS };
    let payload = read_payload(forced, contents(), hash(1), fragment);
    assert_eq!(payload, Ok(Bytes::from_static(b"abc")));
    let normal = StoreRules { force_write: false, flags: FLAGS };
    let payload = read_payload(normal, contents(), hash(1), fragment);
    let mismatch = StoreError::LoadSize { loaded: 19, expected: 3, hash: hash(1) };
    assert_eq!(payload, Err(mismatch));
}

#[test]
fn put_again_changes_nothing() {
    let mut store = Fragments::new();
    let payload = payload_of(1, 64);
    let (address, fragment) = make_fragment_and_address(2, &payload, context(3));
    store.put(context(4), address, fragment, Some(payload.clone())).unwrap();
    let before = store.world.clone();
    assert_eq!(store.put(context(4), address, fragment, None), Ok(()));
    assert_eq!(store.put(context(4), address, fragment, Some(payload)), Ok(()));
    assert_eq!(store.world, before);
    let other = Fragment { size_content: 65, ..fragment };
    let collision = store.put(context(4), address, other, None);
    assert_eq!(collision, Err(StoreError::HashCollision));
    assert_eq!(store.world, before);
}

#[test]
fn put_needs_a_payload_of_the_right_size() {
    let mut store = Fragments::new();
    let payload = payload_of(1, 64);
    let (address, fragment) = make_fragment_and_address(2, &payload, context(3));
    let missing = store.put(context(4), address, fragment, None);
    assert_eq!(missing, Err(StoreError::PayloadRequired));
    let short = store.put(context(4), address, fragment, Some(payload_of(1, 63)));
    assert_eq!(short, Err(StoreError::PayloadSize { hash: address.hash }));
    assert_eq!(store.world, World::default());
    let refused = Err("bad flags".to_string());
    match store.store.put(context(4), address, refused, Some(payload), false) {
        PutStep::Finish(result) => {
            assert_eq!(result, Err(StoreError::Invalid { cause: "bad flags".to_string() }));
        }
        other => panic!("{other:?}"),
    }
}

#[test]
fn put_overwrites_when_writing_is_forced() {
    let mut store = Fragments::with(true);
    let payload = payload_of(1, 64);
    let (address, fragment) = make_fragment_and_address(2, &payload, context(3));
    store.put(context(4), address, fragment, Some(payload)).unwrap();
    let longer = payload_of(7, 65);
    let (_, fragment) = make_fragment_and_address(2, &longer, context(3));
    store.put(context(4), address, fragment, Some(longer.clone())).unwrap();
    let got = store.get(context(4), address, StoreMatch::MatchFull);
    assert_eq!(got, Ok((fragment, longer)));
}

#[test]
fn put_goes_on_when_the_query_fails() {
    let store = Fragments::new();
    let payload = payload_of(1, 3);
    let (address, fragment) = make_fragment_and_address(2, &payload, context(3));
    let probe = match store.store.put(context(4), address, Ok(fragment), Some(payload), false) {
        PutStep::Probe(s) => s,
        other => panic!("{other:?}"),
    };
    match probe.reply(Err(Fault::Statement("down".to_string()))) {
        PutStep::Object(s) => assert_eq!(s.fragment, fragment),
        other => panic!("{other:?}"),
    }
}

#[test]
fn put_failures() {
    let store = Fragments::new();
    let payload = payload_of(1, 3);
    let (address, fragment) = make_fragment_and_address(2, &payload, context(3));
    let down = || "down".to_string();
    let sql = |call: SqlCall| StoreError::Sql { call, cause: "down".to_string() };
    let object = || {
        let put = store.store.put(context(4), address, Ok(fragment), Some(payload.clone()), false);
        let probe = match put {
            PutStep::Probe(s) => s,
            other => panic!("{other:?}"),
        };
        match probe.reply(Ok(false)) {
            PutStep::Object(s) => s,
            other => panic!("{other:?}"),
        }
    };
    let failed = StoreError::Object { operation: ObjectCall::Put, cause: down() };
    assert_eq!(object().reply(Err(down())), PutStep::Finish(Err(failed)));
    let begin = || match object().reply(Ok(())) {
        PutStep::Begin(s) => s,
        other => panic!("{other:?}"),
    };
    let failed = PutStep::Finish(Err(sql(SqlCall::Begin)));
    assert_eq!(begin().reply(Err(Fault::Statement(down()))), failed);
    let failed = PutStep::Finish(Err(sql(SqlCall::Pool)));
    assert_eq!(begin().reply(Err(Fault::Pool(down()))), failed);
    let index = || match begin().reply(Ok(())) {
        PutStep::Index(s) => s,
        other => panic!("{other:?}"),
    };
    let failed = PutStep::RollBack(sql(SqlCall::WriteMetadata));
    assert_eq!(index().reply(Err(down())), failed);
    let associate = || match index().reply(Ok(())) {
        PutStep::AssociateIn(s) => s,
        other => panic!("{other:?}"),
    };
    let failed = PutStep::RollBack(sql(SqlCall::AssociateFragment));
    assert_eq!(associate().reply(Err(down())), failed);
    match associate().reply(Ok(())) {
        PutStep::Commit(s) => {
            let failed = PutStep::Finish(Err(sql(SqlCall::Commit)));
            assert_eq!(s.reply(Err(down())), failed);
            assert_eq!(s.reply(Ok(())), PutStep::Finish(Ok(())));
        }
        other => panic!("{other:?}"),
    }
}

#[test]
fn queries_fall_back_to_weaker_matches() {
    let mut store = Fragments::new();
    let payload = payload_of(1, 64);
    let (address, fragment) = make_fragment_and_address(2, &payload, context(3));
    store.put(context(4), address, fragment, Some(payload)).unwrap();
    let other_context = Address { hash: address.hash, context: context(8) };
    let made = |partition: Partition, address: Address, requested: StoreMatch| {
        store.query(partition, address, requested).unwrap().match_made
    };
    let (full, part, hash_only, none) = (
        StoreMatch::MatchFull,
        StoreMatch::MatchPartition,
        StoreMatch::MatchHash,
        StoreMatch::MatchNone,
    );
    assert_eq!(made(context(4), other_context, full), none);
    assert_eq!(made(context(4), other_context, part), part);
    assert_eq!(made(context(5), other_context, part), hash_only);
    assert_eq!(made(context(5), address, hash_only), hash_only);
    assert_eq!(made(context(4), address, none), none);
    let unknown = Address { hash: hash(77), context: context(3) };
    assert_eq!(made(context(4), unknown, part), none);
    let exist = |partition: Partition, address: Address, requested: StoreMatch| {
        store.exist(partition, address, requested).unwrap()
    };
    assert_eq!(exist(context(5), address, part), none);
    assert_eq!(exist(context(4), other_context, part), part);
    assert_eq!(exist(context(5), other_context, hash_only), hash_only);
    assert_eq!(exist(context(4), address, none), none);
    let addresses = [address, unknown, other_context];
    let batch = |partition: Partition, requested: StoreMatch| {
        store.exist_batch(partition, &addresses, requested).unwrap()
    };
    assert_eq!(batch(context(4), none), vec![none, none, none]);
    assert_eq!(batch(context(4), full), vec![full, none, none]);
    assert_eq!(batch(context(4), part), vec![part, none, part]);
    assert_eq!(batch(context(5), part), vec![none, none, none]);
    assert_eq!(batch(context(5), hash_only), vec![hash_only, none, hash_only]);
    assert_eq!(store.store.max_query_batch(), Some(100));
}

#[test]
fn batch_failures() {
    let store = Fragments::new();
    let address = Address { hash: hash(2), context: context(3) };
    match store.store.exist_batch(context(4), &[address], StoreMatch::MatchFull) {
        BatchStep::Exact(batch) => {
            let failed = batch.reply(Err(Fault::Statement("down".to_string())));
            let expected =
                StoreError::Sql { call: SqlCall::ExistBatchExact, cause: "down".to_string() };
            assert_eq!(failed, Err(expected));
        }
        other => panic!("{other:?}"),
    }
    match store.store.exist_batch(context(4), &[address, address], StoreMatch::MatchHash) {
        BatchStep::Inexact(batch) => {
            assert_eq!(batch.probe, Probe::Hash);
            let answers =
                vec![(0, Err(Fault::Statement("down".to_string()))), (7, Ok(true))];
            let none = StoreMatch::MatchNone;
            assert_eq!(batch.reply(answers), vec![none, none]);
            let answers = vec![(1, Ok(true)), (1, Ok(false))];
            assert_eq!(batch.reply(answers), vec![none, StoreMatch::MatchHash]);
        }
        other => panic!("{other:?}"),
    }
    assert_eq!(counted(Err(Fault::Pool("down".to_string()))), None);
    assert_eq!(counted(Ok(12)), Some(12));
}

#[test]
fn query_failures() {
    let mut store = Fragments::new();
    let payload = payload_of(1, 64);
    let (address, fragment) = make_fragment_and_address(2, &payload, context(3));
    store.put(context(4), address, fragment, Some(payload)).unwrap();
    store.world.metadata.remove(&address.hash.data);
    let zero = Address::zero_context_hash(address.hash);
    let inner = StoreError::AddressNotFound { address: zero };
    let expected = StoreError::Metadata { inner: Box::new(inner) };
    assert_eq!(expected.context(), Some("Failed to load metadata after fragment lookup"));
    let failed = store.query(context(4), address, StoreMatch::MatchFull);
    assert_eq!(failed, Err(expected));
    match store.store.query(context(4), address, StoreMatch::MatchPartition) {
        QueryStep::Probe(s) => match s.reply(Err(Fault::Statement("down".to_string()))) {
            QueryStep::Finish(result) => {
                let expected =
                    StoreError::Sql { call: SqlCall::ExistsRepository, cause: "down".to_string() };
                assert_eq!(result, Err(expected));
            }
            other => panic!("{other:?}"),
        },
        other => panic!("{other:?}"),
    }
}

#[test]
fn copy_makes_a_fragment_readable_elsewhere() {
    let mut store = Fragments::new();
    let payload = payload_of(1, 64);
    let (address, fragment) = make_fragment_and_address(2, &payload, context(3));
    let missing = store.copy(context(4), address, context(5), context(6));
    assert_eq!(missing, Err(StoreError::AddressNotFound { address }));
    store.put(context(4), address, fragment, Some(payload.clone())).unwrap();
    store.copy(context(4), address, context(5), context(6)).unwrap();
    let target = Address { hash: address.hash, context: context(6) };
    let got = store.get(context(5), target, StoreMatch::MatchFull);
    assert_eq!(got, Ok((fragment, payload)));
    assert_eq!(store.world.objects.len(), 1);
}

#[test]
fn obliterate_keeps_what_others_use() {
    let mut store = Fragments::new();
    let payload = payload_of(1, 64);
    let (address, fragment) = make_fragment_and_address(2, &payload, context(3));
    store.put(context(4), address, fragment, Some(payload.clone())).unwrap();
    store.copy(context(4), address, context(5), context(6)).unwrap();
    let mut stats = Stats::default();
    store.obliterate(context(4), address, &mut stats).unwrap();
    assert_eq!(stats, Stats { num_fragments: 1, num_payloads: 0 });
    let gone = store.exist(context(4), address, StoreMatch::MatchFull);
    assert_eq!(gone, Ok(StoreMatch::MatchNone));
    let target = Address { hash: address.hash, context: context(6) };
    let got = store.get(context(5), target, StoreMatch::MatchFull);
    assert_eq!(got, Ok((fragment, payload)));
    store.obliterate(context(5), target, &mut stats).unwrap();
    assert_eq!(stats, Stats { num_fragments: 2, num_payloads: 1 });
    assert!(store.world.objects.is_empty());
    let sealed = MetadataRow { flags: 2, size_payload: 0, size_content: 0 };
    assert_eq!(store.world.metadata[&address.hash.data], sealed);
    // Nothing is left to do, and that is no error.
    store.obliterate(context(5), target, &mut stats).unwrap();
    assert_eq!(stats, Stats { num_fragments: 2, num_payloads: 1 });
}

#[test]
fn obliterated_fragments_can_be_stored_again() {
    let mut store = Fragments::new();
    let payload = payload_of(1, 64);
    let (address, fragment) = make_fragment_and_address(2, &payload, context(3));
    store.put(context(4), address, fragment, Some(payload)).unwrap();
    store.obliterate(context(4), address, &mut Stats::default()).unwrap();
    let other = payload_of(9, 10);
    let (_, fragment) = make_fragment_and_address(2, &other, context(3));
    store.put(context(4), address, fragment, Some(other.clone())).unwrap();
    let got = store.get(context(4), address, StoreMatch::MatchFull);
    assert_eq!(got, Ok((fragment, other)));
}

#[test]
fn obliterate_takes_listed_fragments_along() {
    let mut store = Fragments::new();
    let ctx = context(3);
    let part_payload = payload_of(1, 64);
    let (part, part_fragment) = make_fragment_and_address(5, &part_payload, ctx);
    store.put(context(4), part, part_fragment, Some(part_payload)).unwrap();
    let list = Bytes::from(hash(5).to_vec());
    let (address, fragment) = make_fragment_and_address(6, &list, ctx);
    let fragment = Fragment { flags: FLAGS.payload_fragmented, ..fragment };
    store.put(context(4), address, fragment, Some(list)).unwrap();
    let mut stats = Stats::default();
    store.obliterate(context(4), address, &mut stats).unwrap();
    assert_eq!(stats, Stats { num_fragments: 2, num_payloads: 2 });
    assert!(store.world.objects.is_empty());
    assert!(store.world.associations.is_empty());
}

#[test]
fn obliterate_stops_where_a_listed_fragment_fails() {
    let mut store = Fragments::new();
    let ctx = context(3);
    let part_payload = payload_of(1, 64);
    let (part, part_fragment) = make_fragment_and_address(9, &part_payload, ctx);
    store.put(context(4), part, part_fragment, Some(part_payload)).unwrap();
    // One of the listed fragments was never stored.
    let list = Bytes::from([hash(5).to_vec(), hash(9).to_vec()].concat());
    let (address, fragment) = make_fragment_and_address(6, &list, ctx);
    let fragment = Fragment { flags: FLAGS.payload_fragmented, ..fragment };
    store.put(context(4), address, fragment, Some(list)).unwrap();
    let mut stats = Stats::default();
    let failed = store.obliterate(context(4), address, &mut stats);
    assert_eq!(failed, Err(StoreError::Obliterate { address }));
    assert_eq!(stats, Stats { num_fragments: 1, num_payloads: 1 });
    assert_eq!(store.world.objects.len(), 1);
    assert_eq!(store.world.metadata[&address.hash.data].size_payload, 64);
    // The lock stays, and storing the fragment is refused meanwhile.
    assert_eq!(store.world.metadata[&address.hash.data].flags, 5);
    let refused = store.put(context(4), address, fragment, None);
    assert_eq!(refused, Err(StoreError::Obliterate { address }));
    let hidden = store.query(context(4), address, StoreMatch::MatchFull).unwrap();
    assert_eq!(hidden.match_made, StoreMatch::MatchNone);
    assert_eq!(hidden.fragment, Fragment::default());
}

#[test]
fn obliterate_leaves_order_whichever_call_fails() {
    for effect in [false, true] {
        for at in 0..=13 {
            let mut store = Fragments::new();
            let ctx = context(3);
            let part_payload = payload_of(1, 64);
            let (part, part_fragment) = make_fragment_and_address(5, &part_payload, ctx);
            store.put(context(4), part, part_fragment, Some(part_payload)).unwrap();
            let list = Bytes::from(hash(5).to_vec());
            let (address, fragment) = make_fragment_and_address(6, &list, ctx);
            let fragment = Fragment { flags: FLAGS.payload_fragmented, ..fragment };
            store.put(context(4), address, fragment, Some(list)).unwrap();
            let before = store.world.clone();
            let mut failing = Failing { calls: 0, at, effect };
            let result = store.obliterate_failing(context(4), address, &mut failing);
            // Thirteen calls are made when none of them fails.
            assert_eq!(result.is_ok(), at == 13);
            assert_eq!(failing.calls == 13, at >= 12);
            assert!(store.world.associations.is_subset(&before.associations));
            for hash in [part.hash, address.hash] {
                let row = store.world.metadata[&hash.data];
                let original = before.metadata[&hash.data];
                let locked = MetadataRow { flags: original.flags | 1, ..original };
                let sealed = MetadataRow { flags: 2, size_payload: 0, size_content: 0 };
                assert!([original, locked, sealed].contains(&row));
                let gone = !store.world.objects.contains_key(&hash_to_hex(hash));
                if gone {
                    assert!(!store.world.found(ImmutableStatement::ExistsHash { hash }));
                }
                assert!(gone || row != sealed);
            }
        }
    }
}

#[test]
fn put_asks_the_host_about_the_payload_if_there_is_one() {
    let store = Fragments::new().store;
    assert_eq!(store.put_check(&Some(payload_of(1, 64))), PutCheck::Payload(64));
    assert_eq!(store.put_check(&Some(Bytes::new())), PutCheck::Payload(0));
    assert_eq!(store.put_check(&None), PutCheck::Sizes);
}

#[test]
fn obliterate_failures() {
    let mut store = Fragments::new();
    let payload = payload_of(1, 64);
    let (address, fragment) = make_fragment_and_address(2, &payload, context(3));
    let zero = Address::zero_context_hash(address.hash);
    let unknown = store.obliterate(context(4), address, &mut Stats::default());
    assert_eq!(unknown, Err(StoreError::AddressNotFound { address: zero }));
    let down = || "down".to_string();
    let fault = || Fault::Statement("down".to_string());
    let sql = |call: SqlCall| StoreError::Sql { call, cause: "down".to_string() };
    let end = |step: ObliterateStep| match step {
        ObliterateStep::Finish(outcome) => {
            (outcome.result, outcome.num_fragments, outcome.num_payloads)
        }
        other => panic!("{other:?}"),
    };
    let row = row_of(fragment);
    let read = || match store.store.obliterate(context(4), address) {
        ObliterateStep::Read(s) => s,
        other => panic!("{other:?}"),
    };
    let invalid = end(read().reply(Ok(Some(row)), Err("bad".to_string())));
    assert_eq!(invalid, (Err(StoreError::Invalid { cause: "bad".to_string() }), 0, 0));
    let lock = || match read().reply(Ok(Some(row)), Ok(())) {
        ObliterateStep::Lock(s) => s,
        other => panic!("{other:?}"),
    };
    assert_eq!(end(lock().reply(Ok(0))), (Err(StoreError::MetadataConflict), 0, 0));
    assert_eq!(end(lock().reply(Err(fault()))), (Err(sql(SqlCall::UpdateMetadataCas)), 0, 0));
    let detach = || match lock().reply(Ok(1)) {
        ObliterateStep::Detach(s) => s,
        other => panic!("{other:?}"),
    };
    assert_eq!(end(detach().reply(Err(fault()))), (Err(sql(SqlCall::DeleteAssociation)), 0, 0));
    let count = || match detach().reply(Ok(())) {
        ObliterateStep::Count(s) => s,
        other => panic!("{other:?}"),
    };
    assert_eq!(end(count().reply(Err(fault()))), (Err(sql(SqlCall::CountAssociations)), 1, 0));
    match count().reply(Ok(2)) {
        ObliterateStep::Restore(s) => {
            assert_eq!(end(s.reply(Ok(0))), (Err(StoreError::MetadataConflict), 1, 0));
            assert_eq!(end(s.reply(Ok(1))), (Ok(()), 1, 0));
        }
        other => panic!("{other:?}"),
    }
    match count().reply(Ok(0)) {
        ObliterateStep::Delete(s) => {
            let failed = StoreError::Object { operation: ObjectCall::Delete, cause: down() };
            assert_eq!(end(s.reply(Err(down()))), (Err(failed), 1, 0));
            match s.reply(Ok(())) {
                ObliterateStep::Seal(s) => {
                    assert_eq!(end(s.reply(Ok(0))), (Err(StoreError::MetadataConflict), 1, 1));
                }
                other => panic!("{other:?}"),
            }
        }
        other => panic!("{other:?}"),
    }
    let listing = MetadataRow { flags: 4, ..row };
    let fetch = match read().reply(Ok(Some(listing)), Ok(())) {
        ObliterateStep::Lock(s) => match s.reply(Ok(1)) {
            ObliterateStep::Fetch(s) => s,
            other => panic!("{other:?}"),
        },
        other => panic!("{other:?}"),
    };
    assert_eq!(end(fetch.reply(Err(ObjectFault::Service))), (Err(StoreError::SlowDown), 0, 0));
    let mismatch = StoreError::LoadSize { loaded: 0, expected: 64, hash: address.hash };
    assert_eq!(end(fetch.reply(Ok(ObjectContents::with_capacity(0)))), (Err(mismatch), 0, 0));
    let lost = match fetch.reply(store.world.object("none")) {
        step => end(step),
    };
    assert_eq!(lost, (Err(StoreError::AddressNotFound { address: zero }), 0, 0));
    let mut contents = ObjectContents::with_capacity(64);
    assert!(contents.add_chunk(&payload));
    let parts = match fetch.reply(Ok(contents)) {
        ObliterateStep::Decode(s) => {
            assert_eq!(s.payload, payload);
            match s.reply(&[hash(7), hash(8)]) {
                ObliterateStep::Parts(s) => s,
                other => panic!("{other:?}"),
            }
        }
        other => panic!("{other:?}"),
    };
    let part = |n: u8| Address { hash: hash(n), context: context(3) };
    assert_eq!(parts.parts, vec![part(7), part(8)]);
    let outcomes = [PartOutcome::Done, PartOutcome::Lost("gone".to_string())];
    let failed = (Err(StoreError::Obliterate { address }), 0, 0);
    assert_eq!(end(parts.reply(&outcomes)), failed);
    assert_eq!(end(parts.reply(&[PartOutcome::Done])), failed);
    assert_eq!(end(parts.reply(&[])), failed);
    let all = parts.reply(&[PartOutcome::Done, PartOutcome::Done]);
    assert!(matches!(all, ObliterateStep::Detach(_)));
}

#[test]
fn metadata_keeps_its_bits() {
    let fragment = Fragment { flags: u32::MAX, size_payload: u32::MAX, size_content: u64::MAX };
    let row = row_of(fragment);
    assert_eq!(row, MetadataRow { flags: 4294967295, size_payload: 4294967295, size_content: -1 });
    assert_eq!(fragment_from_row(&row), fragment);
    assert_eq!(update_metadata_cas(Ok(1)), Ok(()));
    assert_eq!(update_metadata_cas(Ok(0)), Err(StoreError::MetadataConflict));
}

#[test]
fn object_keys_are_hexadecimal() {
    let mut hash = ContentHash::default();
    hash.data[0] = 0xab;
    hash.data[31] = 0x0f;
    let expected = format!("ab{}0f", "00".repeat(30));
    assert_eq!(hash_to_hex(hash), expected);
}

#[test]
fn store_messages() {
    let message = |e: StoreError| e.message("SHOWN");
    let some = |text: &str| Some(text.to_string());
    let address = Address { hash: hash(1), context: context(2) };
    let sql = StoreError::Sql { call: SqlCall::UpdateMetadataCas, cause: "boom".to_string() };
    assert_eq!(message(sql), some("pg update_metadata_cas error: boom"));
    assert_eq!(
        message(StoreError::HashLength { len: 7 }),
        some("pg: expected 32-byte hash, got 7")
    );
    assert_eq!(
        message(StoreError::MetadataConflict),
        some("Failed to update metadata due to conflict")
    );
    assert_eq!(
        message(StoreError::PayloadSize { hash: hash(1) }),
        some("Failed to store in immutable store for put SHOWN")
    );
    assert_eq!(
        message(StoreError::LoadSize { loaded: 19, expected: 3, hash: hash(1) }),
        some("Failed to load from immutable store, size mismatch (load 19, expected 3) for get SHOWN")
    );
    assert_eq!(
        message(StoreError::Obliterate { address }),
        some("Failed to obliterate immutable SHOWN")
    );
    assert_eq!(message(StoreError::HashCollision), some("Hash collision"));
    assert_eq!(message(StoreError::PayloadRequired), some("Payload buffer required"));
    assert_eq!(message(StoreError::SlowDown), None);
    assert_eq!(message(StoreError::AddressNotFound { address }), None);
    let object = |operation: ObjectCall| StoreError::Object { operation, cause: String::new() };
    assert_eq!(object(ObjectCall::Put).context(), Some("S3 put object failed"));
    assert_eq!(object(ObjectCall::Delete).context(), Some("S3 delete object failed"));
    assert_eq!(object(ObjectCall::Get).context(), Some("S3 get object failed"));
    assert_eq!(
        object(ObjectCall::Read).context(),
        Some("Failed to read bytes from S3 response stream")
    );
    assert_eq!(StoreError::HashCollision.context(), None);
}

#[test]
fn upkeep_does_nothing() {
    let store = Fragments::new().store;
    assert_eq!(store.evict(5, true), Ok(0));
    assert_eq!(store.compact(5, Some(3), true), Ok(None));
    assert_eq!(store.compact_resume_at(), None);
    assert_eq!(store.verify(true), Ok(()));
    assert_eq!(store.bucket(), "bucket");
}

#[test]
fn immutable_settings() {
    let settings = PgImmutableStoreSettings::new(
        "fragments".to_string(),
        "meta".to_string(),
        "bucket".to_string(),
    )
    .with_endpoint("http://localhost:9000".to_string())
    .with_region("us-east-1".to_string());
    let expected = PgImmutableStoreSettings {
        fragments_table: "fragments".to_string(),
        metadata_table: "meta".to_string(),
        bucket: "bucket".to_string(),
        endpoint_url: Some("http://localhost:9000".to_string()),
        region: Some("us-east-1".to_string()),
        force_write: false,
    };
    assert_eq!(settings, expected);
    assert_eq!(settings.clone(), expected);
    assert!(settings.with_force_write(true).force_write);
}

#[test]
fn immutable_statements_as_sql() {
    let settings = PgImmutableStoreSettings::new(
        "fragments".to_string(),
        "fragments_meta".to_string(),
        "bucket".to_string(),
    );
    let store = PgImmutableStore::new(&settings, FLAGS);
    let (h, r, c) = (hash(1), context(2), context(3));
    let bytes = |n: u8, len: usize| SqlParam::Bytes(vec![n; len]);
    let sql =
        store.sql(&ImmutableStatement::ExistsExact { hash: h, repository: r, context: c });
    assert_eq!(
        sql.text,
        "SELECT 1 FROM fragments WHERE hash = $1 AND repository = $2 AND context = $3 LIMIT 1"
    );
    assert_eq!(sql.params, vec![bytes(1, 32), bytes(2, 16), bytes(3, 16)]);
    let sql = store.sql(&ImmutableStatement::ExistsRepository { hash: h, repository: r });
    assert_eq!(sql.text, "SELECT 1 FROM fragments WHERE hash = $1 AND repository = $2 LIMIT 1");
    let sql = store.sql(&ImmutableStatement::ExistsHash { hash: h });
    assert_eq!(sql.text, "SELECT 1 FROM fragments WHERE hash = $1 LIMIT 1");
    let sql = store.sql(&ImmutableStatement::CountAssociations { hash: h });
    assert_eq!(sql.text, "SELECT COUNT(*) FROM fragments WHERE hash = $1");
    let sql = store.sql(&ImmutableStatement::CountMetadata);
    assert_eq!(sql.text, "SELECT COUNT(*) FROM fragments_meta");
    assert_eq!(sql.params, vec![]);
    let sql = store.sql(&ImmutableStatement::LoadMetadata { hash: h });
    assert_eq!(
        sql.text,
        "SELECT flags, size_payload, size_content FROM fragments_meta WHERE hash = $1"
    );
    let fragment = Fragment { flags: 4, size_payload: 5, size_content: 6 };
    let other = Fragment { flags: 7, size_payload: 8, size_content: u64::MAX };
    let sql = store.sql(&ImmutableStatement::WriteMetadata { hash: h, fragment });
    let text = "INSERT INTO fragments_meta (hash, flags, size_payload, size_content)
             VALUES ($1, $2, $3, $4)
             ON CONFLICT (hash) DO UPDATE
               SET flags = EXCLUDED.flags,
                   size_payload = EXCLUDED.size_payload,
                   size_content = EXCLUDED.size_content";
    assert_eq!(sql.text, text);
    let big = |n: i64| SqlParam::BigInt(n);
    assert_eq!(sql.params, vec![bytes(1, 32), big(4), big(5), big(6)]);
    let sql = store.sql(&ImmutableStatement::UpdateMetadata {
        hash: h,
        updated: fragment,
        expected: other,
    });
    let text = "UPDATE fragments_meta
             SET flags = $1, size_payload = $2, size_content = $3
             WHERE hash = $4
               AND flags = $5
               AND size_payload = $6
               AND size_content = $7";
    assert_eq!(sql.text, text);
    let params = vec![big(4), big(5), big(6), bytes(1, 32), big(7), big(8), big(-1)];
    assert_eq!(sql.params, params);
    let sql = store.sql(&ImmutableStatement::Associate { hash: h, repository: r, context: c });
    let text = "INSERT INTO fragments (hash, repository, context)
             VALUES ($1, $2, $3)
             ON CONFLICT DO NOTHING";
    assert_eq!(sql.text, text);
    let sql =
        store.sql(&ImmutableStatement::DeleteAssociation { hash: h, repository: r, context: c });
    assert_eq!(
        sql.text,
        "DELETE FROM fragments WHERE hash = $1 AND repository = $2 AND context = $3"
    );
    let sql = store.batch_sql(r, &[Address { hash: h, context: c }]);
    let text = "SELECT i.hash, i.ctx FROM
                unnest($1::bytea[], $2::bytea[]) AS i(hash, ctx)
             WHERE EXISTS (
                SELECT 1 FROM fragments f
                WHERE f.hash = i.hash
                  AND f.repository = $3
                  AND f.context = i.ctx
             )";
    assert_eq!(sql.text, text);
    let params = vec![
        SqlParam::ByteList(vec![vec![1; 32]]),
        SqlParam::ByteList(vec![vec![3; 16]]),
        bytes(2, 16),
    ];
    assert_eq!(sql.params, params);
    let (fragments, metadata) = store.ensure_schema();
    let text = "CREATE TABLE IF NOT EXISTS fragments (
                hash        BYTEA   NOT NULL,
                repository  BYTEA   NOT NULL,
                context     BYTEA   NOT NULL,
                PRIMARY KEY (hash, repository, context)
            );
            CREATE INDEX IF NOT EXISTS fragments_hash_repository
                ON fragments (hash, repository);
            CREATE INDEX IF NOT EXISTS fragments_hash_idx
                ON fragments (hash);";
    assert_eq!(fragments, text);
    let text = "CREATE TABLE IF NOT EXISTS fragments_meta (
                hash         BYTEA   NOT NULL PRIMARY KEY,
                flags        BIGINT  NOT NULL DEFAULT 0,
                size_payload BIGINT  NOT NULL DEFAULT 0,
                size_content BIGINT  NOT NULL DEFAULT 0
            )";
    assert_eq!(metadata, text);
}
