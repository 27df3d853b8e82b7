//! Lock records, and the canonical order of the resources in a request.

use crate::bytes_order::{
    compare_bytes, lex_lt, lex_lt_irreflexive, lex_lt_transitive, ByteOrder,
};
use crate::types::{
    lemma_context_bytes, lemma_hash_bytes, BranchId, ContentHash, RepositoryId,
};
use vstd::prelude::*;
use vstd::utf8::{encode_utf8, encode_utf8_decode_utf8};

verus! {

/// Something that can be locked: a path on a branch, known by its hash.
#[derive(Debug, PartialEq, Eq)]
pub struct LockResource {
    pub branch: BranchId,
    pub hash: ContentHash,
    pub description: String,
}

/// A lock that is held.
#[derive(Debug, PartialEq, Eq)]
pub struct LockData {
    pub resource: LockResource,
    pub owner: String,
    /// Milliseconds since the epoch.
    pub locked_at: u64,
}

/// What a resource is made of.
pub struct LockResourceView {
    pub branch: BranchId,
    pub hash: ContentHash,
    pub description: Seq<char>,
}

/// What a held lock is made of.
pub struct LockDataView {
    pub resource: LockResourceView,
    pub owner: Seq<char>,
    pub locked_at: u64,
}

impl View for LockResource {
    type V = LockResourceView;

    open spec fn view(&self) -> LockResourceView {
        LockResourceView {
            branch: self.branch,
            hash: self.hash,
            description: self.description@,
        }
    }
}

impl View for LockData {
    type V = LockDataView;

    open spec fn view(&self) -> LockDataView {
        LockDataView {
            resource: self.resource@,
            owner: self.owner@,
            locked_at: self.locked_at,
        }
    }
}

impl Clone for LockResource {
    fn clone(&self) -> (copy: Self)
        ensures
            copy == *self,
    {
        LockResource {
            branch: self.branch,
            hash: self.hash,
            description: self.description.clone(),
        }
    }
}

/// The identity of a lock: one repository, branch and hash can be locked once.
#[derive(Clone, Copy, Debug, PartialEq, Eq)]
pub struct LockKey {
    pub repository: RepositoryId,
    pub branch: BranchId,
    pub hash: ContentHash,
}

impl LockResourceView {
    /// The key under which the resource is locked in a repository.
    pub open spec fn key_in(self, repository: RepositoryId) -> LockKey {
        LockKey { repository, branch: self.branch, hash: self.hash }
    }

    /// The bytes by which resources are ordered: the branch first, then the hash, then the
    /// description.
    pub open spec fn sort_key(self) -> Seq<u8> {
        self.branch@ + self.hash@ + encode_utf8(self.description)
    }
}

/// The resources of a list.
pub open spec fn resources_view(list: Seq<LockResource>) -> Seq<LockResourceView> {
    Seq::new(list.len(), |i: int| list[i]@)
}

/// The locks of a list.
pub open spec fn locks_view(list: Seq<LockData>) -> Seq<LockDataView> {
    Seq::new(list.len(), |i: int| list[i]@)
}

/// The resources stand in strictly ascending order, so that none occurs twice.
pub open spec fn in_canonical_order(list: Seq<LockResourceView>) -> bool {
    forall|i: int, j: int|
        0 <= i < j < list.len() ==> lex_lt(
            #[trigger] list[i].sort_key(),
            #[trigger] list[j].sort_key(),
        )
}

/// Two lists hold the same resources, in whatever order and number.
pub open spec fn same_resources(a: Seq<LockResourceView>, b: Seq<LockResourceView>) -> bool {
    forall|r: LockResourceView| #[trigger] a.contains(r) <==> b.contains(r)
}

/// Resources that sort alike are the same.
pub proof fn sort_key_injective(a: LockResourceView, b: LockResourceView)
    requires
        a.sort_key() == b.sort_key(),
    ensures
        a == b,
{
    let ka = a.sort_key();
    let kb = b.sort_key();
    assert(a.branch@ =~= ka.take(16));
    assert(b.branch@ =~= kb.take(16));
    assert(a.hash@ =~= ka.subrange(16, 48));
    assert(b.hash@ =~= kb.subrange(16, 48));
    assert(encode_utf8(a.description) =~= ka.skip(48));
    assert(encode_utf8(b.description) =~= kb.skip(48));
    lemma_context_bytes(a.branch, b.branch);
    lemma_hash_bytes(a.hash, b.hash);
    encode_utf8_decode_utf8(a.description);
    encode_utf8_decode_utf8(b.description);
}

/// The canonical order of a request depends only on which resources it names: two lists
/// in canonical order that hold the same resources are equal.
pub proof fn canonical_order_unique(a: Seq<LockResourceView>, b: Seq<LockResourceView>)
    requires
        in_canonical_order(a),
        in_canonical_order(b),
        same_resources(a, b),
    ensures
        a == b,
    decreases a.len(),
{
    if a.len() == 0 {
        if b.len() > 0 {
            assert(b.contains(b[0]));
            assert(a.contains(b[0]));
        }
        assert(a =~= b);
    } else {
        assert(a.contains(a.last()));
        assert(b.contains(a.last()));
        assert(b.len() > 0);
        assert(b.contains(b.last()));
        assert(a.contains(b.last()));
        let i = choose|i: int| 0 <= i < b.len() && b[i] == a.last();
        let j = choose|j: int| 0 <= j < a.len() && a[j] == b.last();
        lex_lt_irreflexive(a.last().sort_key());
        if a.last() != b.last() {
            assert(lex_lt(b[i].sort_key(), b[b.len() - 1].sort_key()));
            assert(lex_lt(a[j].sort_key(), a[a.len() - 1].sort_key()));
            lex_lt_transitive(
                a.last().sort_key(),
                b.last().sort_key(),
                a.last().sort_key(),
            );
        }
        let a1 = a.drop_last();
        let b1 = b.drop_last();
        assert forall|r: LockResourceView| #[trigger] a1.contains(r) <==> b1.contains(r) by {
            if a1.contains(r) {
                let k = choose|k: int| 0 <= k < a1.len() && a1[k] == r;
                assert(a[k] == r);
                assert(a.contains(r));
                assert(b.contains(r));
                let m = choose|m: int| 0 <= m < b.len() && b[m] == r;
                assert(lex_lt(a[k].sort_key(), a[a.len() - 1].sort_key()));
                lex_lt_irreflexive(r.sort_key());
                assert(m != b.len() - 1);
                assert(b1[m] == r);
            }
            if b1.contains(r) {
                let k = choose|k: int| 0 <= k < b1.len() && b1[k] == r;
                assert(b[k] == r);
                assert(b.contains(r));
                assert(a.contains(r));
                let m = choose|m: int| 0 <= m < a.len() && a[m] == r;
                assert(lex_lt(b[k].sort_key(), b[b.len() - 1].sort_key()));
                lex_lt_irreflexive(r.sort_key());
                assert(m != a.len() - 1);
                assert(a1[m] == r);
            }
        }
        assert forall|x: int, y: int| 0 <= x < y < a1.len() implies lex_lt(
            #[trigger] a1[x].sort_key(),
            #[trigger] a1[y].sort_key(),
        ) by {
            assert(lex_lt(a[x].sort_key(), a[y].sort_key()));
        }
        assert forall|x: int, y: int| 0 <= x < y < b1.len() implies lex_lt(
            #[trigger] b1[x].sort_key(),
            #[trigger] b1[y].sort_key(),
        ) by {
            assert(lex_lt(b[x].sort_key(), b[y].sort_key()));
        }
        canonical_order_unique(a1, b1);
        assert(a =~= a1.push(a.last()));
        assert(b =~= b1.push(b.last()));
    }
}

impl LockKey {
    /// The bytes by which the keys of a repository are ordered.
    pub open spec fn order_bytes(self) -> Seq<u8> {
        self.branch@ + self.hash@
    }
}

proof fn lemma_lex_prefix(x: Seq<u8>, y: Seq<u8>, u: Seq<u8>, v: Seq<u8>)
    requires
        lex_lt(x + u, y + v),
        x.len() == y.len(),
        x != y,
    ensures
        lex_lt(x, y),
    decreases x.len(),
{
    if x.len() == 0 {
        assert(x =~= y);
    } else if x[0] == y[0] {
        let (x1, y1) = (x.drop_first(), y.drop_first());
        assert((x + u).drop_first() =~= x1 + u);
        assert((y + v).drop_first() =~= y1 + v);
        if x1 == y1 {
            assert(x =~= seq![x[0]] + x1);
            assert(y =~= seq![y[0]] + y1);
        }
        lemma_lex_prefix(x1, y1, u, v);
    }
}

/// In canonical order, different locks stand in the order of their keys.
proof fn lemma_keys_ascend(repository: RepositoryId, list: Seq<LockResourceView>, i: int, j: int)
    requires
        in_canonical_order(list),
        0 <= i < j < list.len(),
        list[i].key_in(repository) != list[j].key_in(repository),
    ensures
        lex_lt(
            list[i].key_in(repository).order_bytes(),
            list[j].key_in(repository).order_bytes(),
        ),
{
    let (x, y) = (list[i], list[j]);
    let (kx, ky) = (x.key_in(repository).order_bytes(), y.key_in(repository).order_bytes());
    assert(lex_lt(x.sort_key(), y.sort_key()));
    assert(x.sort_key() =~= kx + encode_utf8(x.description));
    assert(y.sort_key() =~= ky + encode_utf8(y.description));
    if kx == ky {
        assert(kx.take(16) =~= x.branch@ && ky.take(16) =~= y.branch@);
        assert(kx.skip(16) =~= x.hash@ && ky.skip(16) =~= y.hash@);
        lemma_context_bytes(x.branch, y.branch);
        lemma_hash_bytes(x.hash, y.hash);
    }
    lemma_lex_prefix(kx, ky, encode_utf8(x.description), encode_utf8(y.description));
}

proof fn lemma_lex_rest(x: Seq<u8>, u: Seq<u8>, v: Seq<u8>)
    ensures
        lex_lt(x + u, x + v) == lex_lt(u, v),
    decreases x.len(),
{
    if x.len() == 0 {
        assert(x + u =~= u && x + v =~= v);
    } else {
        assert((x + u).drop_first() =~= x.drop_first() + u);
        assert((x + v).drop_first() =~= x.drop_first() + v);
        lemma_lex_rest(x.drop_first(), u, v);
    }
}

/// Of two resources in canonical order the first has the lower branch; on the same branch, the
/// lower hash; and of the same hash, the lower description.
pub proof fn canonical_order_by_parts(list: Seq<LockResourceView>, i: int, j: int)
    requires
        in_canonical_order(list),
        0 <= i < j < list.len(),
    ensures
        ({
            let (a, b) = (list[i], list[j]);
            ||| lex_lt(a.branch@, b.branch@)
            ||| a.branch == b.branch && lex_lt(a.hash@, b.hash@)
            ||| a.branch == b.branch && a.hash == b.hash && lex_lt(
                encode_utf8(a.description),
                encode_utf8(b.description),
            )
        }),
{
    let (a, b) = (list[i], list[j]);
    let (ta, tb) = (encode_utf8(a.description), encode_utf8(b.description));
    assert(lex_lt(a.sort_key(), b.sort_key()));
    assert(a.sort_key() =~= a.branch@ + (a.hash@ + ta));
    assert(b.sort_key() =~= b.branch@ + (b.hash@ + tb));
    lemma_context_bytes(a.branch, b.branch);
    lemma_hash_bytes(a.hash, b.hash);
    if a.branch != b.branch {
        lemma_lex_prefix(a.branch@, b.branch@, a.hash@ + ta, b.hash@ + tb);
    } else {
        lemma_lex_rest(a.branch@, a.hash@ + ta, b.hash@ + tb);
        if a.hash != b.hash {
            lemma_lex_prefix(a.hash@, b.hash@, ta, tb);
        } else {
            lemma_lex_rest(a.hash@, ta, tb);
        }
    }
}

/// Two requests that overlap take the locks they share in the same order.
pub proof fn shared_locks_in_same_order(
    repository: RepositoryId,
    a: Seq<LockResourceView>,
    b: Seq<LockResourceView>,
    i: int,
    j: int,
    m: int,
    n: int,
)
    requires
        in_canonical_order(a),
        in_canonical_order(b),
        0 <= i < j < a.len(),
        0 <= m < b.len(),
        0 <= n < b.len(),
        a[i].key_in(repository) == b[m].key_in(repository),
        a[j].key_in(repository) == b[n].key_in(repository),
        a[i].key_in(repository) != a[j].key_in(repository),
    ensures
        m < n,
{
    let (x, y) = (
        a[i].key_in(repository).order_bytes(),
        a[j].key_in(repository).order_bytes(),
    );
    lemma_keys_ascend(repository, a, i, j);
    if n < m {
        lemma_keys_ascend(repository, b, n, m);
        lex_lt_transitive(x, y, x);
        lex_lt_irreflexive(x);
    }
}

/// A request that waits for a lock: it has taken those before the position, and the one at
/// the position is somebody else's.
pub struct WaitingRequest {
    pub list: Seq<LockResourceView>,
    pub position: int,
}

impl WaitingRequest {
    /// The lock that the request waits for.
    pub open spec fn awaits(self, repository: RepositoryId) -> LockKey {
        self.list[self.position].key_in(repository)
    }

    /// The request has taken the lock.
    pub open spec fn holds(self, repository: RepositoryId, key: LockKey) -> bool {
        exists|i: int| 0 <= i < self.position && #[trigger] self.list[i].key_in(repository) == key
    }

    /// The request takes its locks in canonical order and does not wait for itself.
    pub open spec fn well_formed(self, repository: RepositoryId) -> bool {
        &&& in_canonical_order(self.list)
        &&& 0 <= self.position < self.list.len()
        &&& !self.holds(repository, self.awaits(repository))
    }
}

/// The request after this one, the last one being followed by the first.
pub open spec fn next_in_circle(count: nat, k: int) -> int {
    if k + 1 < count {
        k + 1
    } else {
        0
    }
}

/// Each of the requests waits for a lock that the next one has taken, and the last one for a
/// lock of the first.
pub open spec fn waiting_in_circle(repository: RepositoryId, requests: Seq<WaitingRequest>) -> bool {
    &&& requests.len() > 0
    &&& forall|k: int|
        0 <= k < requests.len() ==> requests[next_in_circle(requests.len(), k)].holds(
            repository,
            (#[trigger] requests[k]).awaits(repository),
        )
}

proof fn lemma_awaits_more(repository: RepositoryId, request: WaitingRequest, key: LockKey)
    requires
        request.well_formed(repository),
        request.holds(repository, key),
    ensures
        lex_lt(key.order_bytes(), request.awaits(repository).order_bytes()),
{
    let i = choose|i: int|
        0 <= i < request.position && #[trigger] request.list[i].key_in(repository) == key;
    lemma_keys_ascend(repository, request.list, i, request.position);
}

proof fn lemma_awaits_ascend(
    repository: RepositoryId,
    requests: Seq<WaitingRequest>,
    k: int,
)
    requires
        forall|i: int|
            0 <= i < requests.len() ==> (#[trigger] requests[i]).well_formed(repository),
        waiting_in_circle(repository, requests),
        0 < k < requests.len(),
    ensures
        lex_lt(
            requests[0].awaits(repository).order_bytes(),
            requests[k].awaits(repository).order_bytes(),
        ),
    decreases k,
{
    let before = requests[k - 1].awaits(repository);
    assert(requests[next_in_circle(requests.len(), k - 1)].holds(repository, before));
    lemma_awaits_more(repository, requests[k], before);
    if k > 1 {
        lemma_awaits_ascend(repository, requests, k - 1);
        lex_lt_transitive(
            requests[0].awaits(repository).order_bytes(),
            before.order_bytes(),
            requests[k].awaits(repository).order_bytes(),
        );
    }
}

/// However many requests wait for each other's locks, they never do so in a circle: there
/// is no deadlock.
pub proof fn no_circular_wait(repository: RepositoryId, requests: Seq<WaitingRequest>)
    requires
        forall|k: int|
            0 <= k < requests.len() ==> (#[trigger] requests[k]).well_formed(repository),
    ensures
        !waiting_in_circle(repository, requests),
{
    if waiting_in_circle(repository, requests) {
        let n = requests.len() as int;
        let last = requests[n - 1].awaits(repository);
        assert(requests[next_in_circle(requests.len(), n - 1)].holds(repository, last));
        assert(requests[0].well_formed(repository));
        lemma_awaits_more(repository, requests[0], last);
        if n > 1 {
            lemma_awaits_ascend(repository, requests, n - 1);
            let first = requests[0].awaits(repository).order_bytes();
            lex_lt_transitive(first, last.order_bytes(), first);
            lex_lt_irreflexive(first);
        } else {
            lex_lt_irreflexive(last.order_bytes());
        }
    }
}

/// The sort key of a resource.
fn sort_key_of(resource: &LockResource) -> (key: Vec<u8>)
    ensures
        key@ == resource@.sort_key(),
{
    let mut key = resource.branch.to_vec();
    let mut hash = resource.hash.to_vec();
    key.append(&mut hash);
    let text = resource.description.as_str().as_bytes();
    let ghost head = key@;
    let mut i: usize = 0;
    while i < text.len()
        invariant
            0 <= i <= text@.len(),
            key@ == head + text@.take(i as int),
        decreases text@.len() - i,
    {
        key.push(text[i]);
        i = i + 1;
        assert(text@.take(i as int) =~= text@.take(i - 1).push(text@[i - 1]));
    }
    assert(text@.take(i as int) =~= text@);
    key
}

/// Puts the resources of a request into canonical order, each of them once.
///
/// Whoever takes several locks takes them in this order.
pub fn canonical_order(resources: &[LockResource]) -> (list: Vec<LockResource>)
    ensures
        in_canonical_order(resources_view(list@)),
        same_resources(resources_view(list@), resources_view(resources@)),
{
    let mut list: Vec<LockResource> = Vec::new();
    let mut i: usize = 0;
    while i < resources.len()
        invariant
            0 <= i <= resources@.len(),
            in_canonical_order(resources_view(list@)),
            same_resources(resources_view(list@), resources_view(resources@.take(i as int))),
        decreases resources@.len() - i,
    {
        let ghost before = list@;
        insert_in_order(&mut list, &resources[i]);
        proof {
            let x = resources_view(before);
            let y = resources_view(resources@.take(i as int));
            let z = resources_view(resources@.take(i + 1));
            let new = resources@[i as int]@;
            assert(z =~= y.push(new));
            assert forall|r: LockResourceView|
                #[trigger] resources_view(list@).contains(r) <==> z.contains(r) by {
                assert(z.contains(r) <==> y.contains(r) || r == new) by {
                    if y.contains(r) {
                        let k = choose|k: int| 0 <= k < y.len() && y[k] == r;
                        assert(z[k] == r);
                    }
                    if r == new {
                        assert(z[y.len() as int] == r);
                    }
                    if z.contains(r) && r != new {
                        let k = choose|k: int| 0 <= k < z.len() && z[k] == r;
                        assert(y[k] == r);
                    }
                }
                assert(x.contains(r) <==> y.contains(r));
            }
        }
        i = i + 1;
    }
    assert(resources@.take(i as int) =~= resources@);
    list
}

/// Adds a resource to a list in canonical order, unless it is there already.
fn insert_in_order(list: &mut Vec<LockResource>, resource: &LockResource)
    requires
        in_canonical_order(resources_view(old(list)@)),
    ensures
        in_canonical_order(resources_view(final(list)@)),
        forall|r: LockResourceView| #[trigger]
            resources_view(final(list)@).contains(r) <==> resources_view(old(list)@).contains(r)
                || r == resource@,
{
    let key = sort_key_of(resource);
    let ghost orig = list@;
    let ghost view = resources_view(orig);
    let mut at: usize = 0;
    while at < list.len()
        invariant
            list@ == orig,
            view == resources_view(orig),
            in_canonical_order(view),
            0 <= at <= orig.len(),
            key@ == resource@.sort_key(),
            forall|j: int| 0 <= j < at ==> lex_lt(#[trigger] view[j].sort_key(), key@),
        ensures
            list@ == orig,
            0 <= at <= orig.len(),
            forall|j: int| 0 <= j < at ==> lex_lt(#[trigger] view[j].sort_key(), key@),
            forall|j: int| at <= j < orig.len() ==> lex_lt(key@, #[trigger] view[j].sort_key()),
        decreases orig.len() - at,
    {
        let other = sort_key_of(&list[at]);
        match compare_bytes(other.as_slice(), key.as_slice()) {
            ByteOrder::Before => {
                assert(view[at as int].sort_key() == other@);
                at = at + 1;
            },
            ByteOrder::Same => {
                proof {
                    sort_key_injective(view[at as int], resource@);
                    assert(view.contains(resource@));
                }
                return;
            },
            ByteOrder::After => {
                assert(view[at as int].sort_key() == other@);
                assert forall|j: int| at <= j < orig.len() implies lex_lt(
                    key@,
                    #[trigger] view[j].sort_key(),
                ) by {
                    if j > at {
                        assert(lex_lt(view[at as int].sort_key(), view[j].sort_key()));
                        lex_lt_transitive(key@, view[at as int].sort_key(), view[j].sort_key());
                    }
                }
                break;
            },
        }
    }
    list.insert(at, resource.clone());
    proof {
        let after = resources_view(list@);
        assert(after =~= view.insert(at as int, resource@));
        assert forall|i: int, j: int| 0 <= i < j < after.len() implies lex_lt(
            #[trigger] after[i].sort_key(),
            #[trigger] after[j].sort_key(),
        ) by {
            let i0 = if i < at { i } else { i - 1 };
            let j0 = if j < at { j } else { j - 1 };
            if i != at {
                assert(after[i] == view[i0]);
            }
            if j != at {
                assert(after[j] == view[j0]);
            }
            if i != at && j != at {
                assert(lex_lt(view[i0].sort_key(), view[j0].sort_key()));
            }
        }
        assert forall|r: LockResourceView|
            #[trigger] after.contains(r) <==> view.contains(r) || r == resource@ by {
            if after.contains(r) && r != resource@ {
                let k = choose|k: int| 0 <= k < after.len() && after[k] == r;
                let k0 = if k < at { k } else { k - 1 };
                assert(view[k0] == r);
            }
            if view.contains(r) {
                let k = choose|k: int| 0 <= k < view.len() && view[k] == r;
                let k1 = if k < at { k } else { k + 1 };
                assert(after[k1] == r);
            }
            if r == resource@ {
                assert(after[at as int] == r);
            }
        }
    }
}

/// Turns a list round.
pub(crate) fn reversed(list: Vec<LockResource>) -> (turned: Vec<LockResource>)
    ensures
        turned@ == list@.reverse(),
{
    let mut rest = list;
    let mut turned: Vec<LockResource> = Vec::new();
    let ghost orig = rest@;
    while rest.len() > 0
        invariant
            rest@.len() + turned@.len() == orig.len(),
            rest@ == orig.take(rest@.len() as int),
            turned@ == orig.skip(rest@.len() as int).reverse(),
        decreases rest@.len(),
    {
        let ghost before = rest@;
        match rest.pop() {
            Some(last) => {
                turned.push(last);
                assert(before.last() == orig[before.len() - 1]);
                assert(orig.skip(before.len() - 1) =~= seq![orig[before.len() - 1]] + orig.skip(
                    before.len() as int,
                ));
                assert(turned@ =~= orig.skip(before.len() - 1).reverse());
                assert(rest@ =~= orig.take(before.len() - 1));
            },
            None => {},
        }
    }
    assert(orig.skip(0) =~= orig);
    turned
}

} // verus!
