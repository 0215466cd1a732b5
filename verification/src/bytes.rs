use vstd::prelude::*;

verus! {

/// The four-byte prefix of a byte sequence: its first four bytes, with zeros
/// in the places that a shorter sequence leaves open.
pub open spec fn prefix_of(s: Seq<u8>) -> Seq<u8> {
    Seq::new(
        4,
        |i: int|
            if i < s.len() {
                s[i]
            } else {
                0u8
            },
    )
}

/// `a` and `b` are both at least `k` long and hold the same bytes at every
/// position below `k`.
pub open spec fn agree_below(a: Seq<u8>, b: Seq<u8>, k: int) -> bool {
    &&& 0 <= k <= a.len()
    &&& k <= b.len()
    &&& forall|j: int| 0 <= j < k ==> a[j] == b[j]
}

/// `k` is the first position at which `a` and `b` part: they agree below it,
/// and at `k` one of them ends or their bytes differ.
pub open spec fn parts_at(a: Seq<u8>, b: Seq<u8>, k: int) -> bool {
    &&& agree_below(a, b, k)
    &&& (k == a.len() || k == b.len() || a[k] != b[k])
}

/// Two sequences part at their common length exactly when they are equal.
pub proof fn lemma_parts_at_end(a: Seq<u8>, b: Seq<u8>, k: int)
    requires
        parts_at(a, b, k),
    ensures
        a == b <==> (k == a.len() && k == b.len()),
{
    if k == a.len() && k == b.len() {
        assert(a =~= b);
    }
}

/// The first position at which `a` and `b` part.
pub fn first_difference(a: &[u8], b: &[u8]) -> (k: usize)
    ensures
        parts_at(a@, b@, k as int),
{
    let n: usize = a.len();
    let m: usize = b.len();
    let mut i: usize = 0;
    while i < n && i < m
        invariant
            n == a@.len(),
            m == b@.len(),
            agree_below(a@, b@, i as int),
        decreases n - i,
    {
        if a[i] != b[i] {
            return i;
        }
        i += 1;
    }
    i
}

/// Whether two slices hold the same bytes.
pub fn bytes_eq(a: &[u8], b: &[u8]) -> (r: bool)
    ensures
        r == (a@ == b@),
{
    if a.len() != b.len() {
        return false;
    }
    let k: usize = first_difference(a, b);
    proof {
        lemma_parts_at_end(a@, b@, k as int);
    }
    k == a.len()
}

/// The four-byte prefix of a slice.
pub fn prefix_bytes(data: &[u8]) -> (head: [u8; 4])
    ensures
        head@ == prefix_of(data@),
{
    let n: usize = data.len();
    let mut head: [u8; 4] = [0u8; 4];
    let mut i: usize = 0;
    while i < 4 && i < n
        invariant
            n == data@.len(),
            i <= 4,
            i <= n,
            forall|j: int| 0 <= j < i ==> head[j] == data@[j],
            forall|j: int| i <= j < 4 ==> head[j] == 0u8,
        decreases 4 - i,
    {
        head[i] = data[i];
        i += 1;
    }
    assert(head@ =~= prefix_of(data@));
    head
}

} // verus!
