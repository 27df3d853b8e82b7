//! Lexicographic order of byte strings, the order in which Postgres compares
//! `BYTEA` values and in which lock requests are put before they are acquired.

use vstd::prelude::*;

verus! {

/// `a` comes strictly before `b`: at the first byte where they differ `a` has the
/// smaller one, or `a` is a proper prefix of `b`.
pub open spec fn lex_lt(a: Seq<u8>, b: Seq<u8>) -> bool
    decreases a.len(),
{
    if b.len() == 0 {
        false
    } else if a.len() == 0 {
        true
    } else if a[0] != b[0] {
        a[0] < b[0]
    } else {
        lex_lt(a.drop_first(), b.drop_first())
    }
}

/// `a` comes before `b` or is equal to it.
pub open spec fn lex_le(a: Seq<u8>, b: Seq<u8>) -> bool {
    a == b || lex_lt(a, b)
}

/// Up to some byte two byte strings are alike, and there the first one has ended, or has the
/// smaller byte.
pub open spec fn parts_at(a: Seq<u8>, b: Seq<u8>, n: int) -> bool {
    &&& 0 <= n < b.len()
    &&& n <= a.len()
    &&& a.take(n) == b.take(n)
    &&& n < a.len() ==> a[n] < b[n]
}

/// The first byte at which two byte strings part decides which of them comes first.
pub proof fn lex_lt_parts(a: Seq<u8>, b: Seq<u8>)
    ensures
        lex_lt(a, b) <==> exists|n: int| #[trigger] parts_at(a, b, n),
    decreases a.len(),
{
    if lex_lt(a, b) {
        if a.len() > 0 && a[0] == b[0] {
            let (a1, b1) = (a.drop_first(), b.drop_first());
            lex_lt_parts(a1, b1);
            let n = choose|n: int| #[trigger] parts_at(a1, b1, n);
            assert(a.take(n + 1) =~= seq![a[0]] + a1.take(n));
            assert(b.take(n + 1) =~= seq![b[0]] + b1.take(n));
            assert(parts_at(a, b, n + 1));
        } else {
            assert(a.take(0) =~= b.take(0));
            assert(parts_at(a, b, 0));
        }
    } else if exists|n: int| #[trigger] parts_at(a, b, n) {
        let n = choose|n: int| #[trigger] parts_at(a, b, n);
        if n > 0 {
            let (a1, b1) = (a.drop_first(), b.drop_first());
            assert(a.take(n)[0] == b.take(n)[0]);
            assert(a1.take(n - 1) =~= a.take(n).drop_first());
            assert(b1.take(n - 1) =~= b.take(n).drop_first());
            assert(parts_at(a1, b1, n - 1));
            lex_lt_parts(a1, b1);
        }
    }
}

/// Nothing comes before itself.
pub proof fn lex_lt_irreflexive(a: Seq<u8>)
    ensures
        !lex_lt(a, a),
    decreases a.len(),
{
    if a.len() > 0 {
        lex_lt_irreflexive(a.drop_first());
    }
}

/// The order is transitive.
pub proof fn lex_lt_transitive(a: Seq<u8>, b: Seq<u8>, c: Seq<u8>)
    requires
        lex_lt(a, b),
        lex_lt(b, c),
    ensures
        lex_lt(a, c),
    decreases a.len(),
{
    if a.len() > 0 && a[0] == b[0] && b[0] == c[0] {
        lex_lt_transitive(a.drop_first(), b.drop_first(), c.drop_first());
    }
}

/// Any two byte strings are equal, or one comes before the other.
pub proof fn lex_lt_total(a: Seq<u8>, b: Seq<u8>)
    ensures
        a == b || lex_lt(a, b) || lex_lt(b, a),
    decreases a.len(),
{
    if a.len() == 0 || b.len() == 0 {
        if a.len() == 0 && b.len() == 0 {
            assert(a =~= b);
        }
    } else if a[0] == b[0] {
        lex_lt_total(a.drop_first(), b.drop_first());
        if a.drop_first() == b.drop_first() {
            assert(a =~= seq![a[0]] + a.drop_first());
            assert(b =~= seq![b[0]] + b.drop_first());
        }
    }
}

/// The outcome of comparing two byte strings.
#[derive(Clone, Copy, Debug, PartialEq, Eq, Structural)]
pub enum ByteOrder {
    Before,
    Same,
    After,
}

/// Compares two byte strings lexicographically.
pub fn compare_bytes(a: &[u8], b: &[u8]) -> (order: ByteOrder)
    ensures
        order == ByteOrder::Before <==> lex_lt(a@, b@),
        order == ByteOrder::Same <==> a@ == b@,
        order == ByteOrder::After <==> lex_lt(b@, a@),
{
    let mut i: usize = 0;
    assert(a@.skip(0) =~= a@);
    assert(b@.skip(0) =~= b@);
    proof {
        lex_lt_irreflexive(a@);
    }
    while i < a.len() && i < b.len()
        invariant
            0 <= i <= a@.len(),
            i <= b@.len(),
            a@.take(i as int) == b@.take(i as int),
            lex_lt(a@, b@) == lex_lt(a@.skip(i as int), b@.skip(i as int)),
            lex_lt(b@, a@) == lex_lt(b@.skip(i as int), a@.skip(i as int)),
        decreases a@.len() - i,
    {
        let ghost sa = a@.skip(i as int);
        let ghost sb = b@.skip(i as int);
        if a[i] != b[i] {
            assert(sa[0] == a@[i as int] && sb[0] == b@[i as int]);
            if a[i] < b[i] {
                return ByteOrder::Before;
            } else {
                return ByteOrder::After;
            }
        }
        assert(sa.drop_first() =~= a@.skip(i + 1));
        assert(sb.drop_first() =~= b@.skip(i + 1));
        assert(a@.take(i + 1) =~= a@.take(i as int).push(a@[i as int]));
        assert(b@.take(i + 1) =~= b@.take(i as int).push(b@[i as int]));
        i = i + 1;
    }
    if a.len() < b.len() {
        ByteOrder::Before
    } else if b.len() < a.len() {
        ByteOrder::After
    } else {
        assert(a@ =~= a@.take(i as int));
        assert(b@ =~= b@.take(i as int));
        ByteOrder::Same
    }
}

} // verus!
