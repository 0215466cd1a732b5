use crate::bytes::{agree_below, first_difference, parts_at, prefix_of};
use std::cmp::Ordering;
use vstd::prelude::*;

verus! {

/// At position `k` the sequence `a` proves smaller than `b`: they agree below
/// `k`, and there `a` ends while `b` goes on, or `a` holds the smaller byte.
pub open spec fn less_at(a: Seq<u8>, b: Seq<u8>, k: int) -> bool {
    &&& agree_below(a, b, k)
    &&& k < b.len()
    &&& (k == a.len() || a[k] < b[k])
}

/// `a` comes strictly before `b` in the lexicographic order of byte
/// sequences.
pub open spec fn lex_lt(a: Seq<u8>, b: Seq<u8>) -> bool {
    exists|k: int| less_at(a, b, k)
}

/// The lexicographic order of two byte sequences.
pub open spec fn lex_order(a: Seq<u8>, b: Seq<u8>) -> Ordering {
    if a == b {
        Ordering::Equal
    } else if lex_lt(a, b) {
        Ordering::Less
    } else {
        Ordering::Greater
    }
}

/// The order seen from the other side.
pub open spec fn reversed(o: Ordering) -> Ordering {
    match o {
        Ordering::Less => Ordering::Greater,
        Ordering::Equal => Ordering::Equal,
        Ordering::Greater => Ordering::Less,
    }
}

/// No sequence comes before itself, and of two sequences at most one comes
/// before the other.
pub proof fn lemma_lex_lt_asymmetric(a: Seq<u8>, b: Seq<u8>)
    requires
        lex_lt(a, b),
    ensures
        a != b,
        !lex_lt(b, a),
{
    let k = choose|k: int| less_at(a, b, k);
    if a == b {
        assert(a[k] == b[k]);
    }
    if lex_lt(b, a) {
        let l = choose|l: int| less_at(b, a, l);
        if k < l {
            assert(b[k] == a[k]);
        } else if l < k {
            assert(a[l] == b[l]);
        }
    }
}

/// Of two different sequences one comes before the other.
pub proof fn lemma_lex_lt_total(a: Seq<u8>, b: Seq<u8>)
    ensures
        a == b || lex_lt(a, b) || lex_lt(b, a),
{
    lemma_lex_lt_total_from(a, b, 0);
}

proof fn lemma_lex_lt_total_from(a: Seq<u8>, b: Seq<u8>, k: int)
    requires
        agree_below(a, b, k),
    ensures
        a == b || lex_lt(a, b) || lex_lt(b, a),
    decreases a.len() - k,
{
    if k == a.len() {
        if k == b.len() {
            assert(a =~= b);
        } else {
            assert(less_at(a, b, k));
        }
    } else if k == b.len() {
        assert(less_at(b, a, k));
    } else if a[k] < b[k] {
        assert(less_at(a, b, k));
    } else if b[k] < a[k] {
        assert(less_at(b, a, k));
    } else {
        lemma_lex_lt_total_from(a, b, k + 1);
    }
}

/// What comes before a sequence that comes before a third comes before the
/// third.
pub proof fn lemma_lex_lt_transitive(a: Seq<u8>, b: Seq<u8>, c: Seq<u8>)
    requires
        lex_lt(a, b),
        lex_lt(b, c),
    ensures
        lex_lt(a, c),
{
    let k = choose|k: int| less_at(a, b, k);
    let l = choose|l: int| less_at(b, c, l);
    if k <= l {
        assert(less_at(a, c, k)) by {
            assert forall|j: int| 0 <= j < k implies a[j] == c[j] by {
                assert(a[j] == b[j]);
                assert(b[j] == c[j]);
            }
            if k < l {
                assert(b[k] == c[k]);
            }
        }
    } else {
        assert(less_at(a, c, l)) by {
            assert forall|j: int| 0 <= j < l implies a[j] == c[j] by {
                assert(a[j] == b[j]);
                assert(b[j] == c[j]);
            }
            assert(a[l] == b[l]);
        }
    }
}

/// The lexicographic order is a total order: it is `Equal` exactly on equal
/// sequences, and seen from the other side it is reversed.
pub proof fn lemma_lex_order_antisymmetric(a: Seq<u8>, b: Seq<u8>)
    ensures
        lex_order(a, b) == Ordering::Equal <==> a == b,
        lex_order(b, a) == reversed(lex_order(a, b)),
{
    lemma_lex_lt_total(a, b);
    if lex_lt(a, b) {
        lemma_lex_lt_asymmetric(a, b);
    }
    if lex_lt(b, a) {
        lemma_lex_lt_asymmetric(b, a);
    }
}

/// The lexicographic order is transitive: `a <= b` and `b <= c` give
/// `a <= c`, and the result is strict as soon as one of the two is.
pub proof fn lemma_lex_order_transitive(a: Seq<u8>, b: Seq<u8>, c: Seq<u8>)
    requires
        lex_order(a, b) != Ordering::Greater,
        lex_order(b, c) != Ordering::Greater,
    ensures
        lex_order(a, c) != Ordering::Greater,
        lex_order(a, c) == Ordering::Equal ==> a == b && b == c,
{
    if a != b && b != c {
        lemma_lex_lt_transitive(a, b, c);
        lemma_lex_lt_asymmetric(a, c);
    } else if a != b {
        lemma_lex_lt_asymmetric(a, b);
    } else if b != c {
        lemma_lex_lt_asymmetric(b, c);
    }
}

/// Where the prefixes of two sequences are in strict order, the sequences
/// are in the same order: a difference within the prefixes is the first
/// difference of the contents.
pub proof fn lemma_prefix_decides(a: Seq<u8>, b: Seq<u8>)
    requires
        lex_lt(prefix_of(a), prefix_of(b)),
    ensures
        lex_lt(a, b),
{
    let pa = prefix_of(a);
    let pb = prefix_of(b);
    let k = choose|k: int| less_at(pa, pb, k);
    assert(pa[k] < pb[k]);
    assert(k < b.len());
    if k < a.len() {
        assert(less_at(a, b, k)) by {
            assert forall|j: int| 0 <= j < k implies a[j] == b[j] by {
                assert(pa[j] == pb[j]);
            }
        }
    } else {
        let l = a.len() as int;
        assert(less_at(a, b, l)) by {
            assert forall|j: int| 0 <= j < l implies a[j] == b[j] by {
                assert(pa[j] == pb[j]);
            }
        }
    }
}

/// The order of two sequences whose prefixes differ is the order of the
/// prefixes.
pub proof fn lemma_prefix_order(a: Seq<u8>, b: Seq<u8>)
    requires
        prefix_of(a) != prefix_of(b),
    ensures
        lex_order(a, b) == lex_order(prefix_of(a), prefix_of(b)),
{
    let pa = prefix_of(a);
    let pb = prefix_of(b);
    lemma_lex_lt_total(pa, pb);
    if lex_lt(pa, pb) {
        lemma_prefix_decides(a, b);
        lemma_lex_lt_asymmetric(a, b);
    } else {
        lemma_lex_lt_asymmetric(pb, pa);
        lemma_prefix_decides(b, a);
        lemma_lex_lt_asymmetric(b, a);
    }
}

/// The position `k` at which two sequences part decides their order.
proof fn lemma_order_from_parting(a: Seq<u8>, b: Seq<u8>, k: int)
    requires
        parts_at(a, b, k),
    ensures
        k == a.len() && k == b.len() ==> a == b,
        k == a.len() && k < b.len() ==> lex_lt(a, b) && a != b,
        k < a.len() && k == b.len() ==> !lex_lt(a, b) && a != b,
        k < a.len() && k < b.len() && a[k] < b[k] ==> lex_lt(a, b) && a != b,
        k < a.len() && k < b.len() && a[k] > b[k] ==> !lex_lt(a, b) && a != b,
{
    if k == a.len() && k == b.len() {
        assert(a =~= b);
    } else if k < b.len() && (k == a.len() || a[k] < b[k]) {
        assert(less_at(a, b, k));
        lemma_lex_lt_asymmetric(a, b);
    } else {
        assert(less_at(b, a, k));
        lemma_lex_lt_asymmetric(b, a);
    }
}

/// Compares two slices lexicographically.
pub fn cmp_bytes(a: &[u8], b: &[u8]) -> (o: Ordering)
    ensures
        o == lex_order(a@, b@),
{
    let k: usize = first_difference(a, b);
    proof {
        lemma_order_from_parting(a@, b@, k + 0);
    }
    if k == a.len() {
        if k == b.len() {
            Ordering::Equal
        } else {
            Ordering::Less
        }
    } else if k == b.len() {
        Ordering::Greater
    } else if a[k] < b[k] {
        Ordering::Less
    } else {
        Ordering::Greater
    }
}

} // verus!
