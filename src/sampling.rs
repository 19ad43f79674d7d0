//! Choosing distinct positions of a row from externally drawn random numbers.
use vstd::prelude::*;

verus! {

/// The identity arrangement `0, 1, ..., n - 1`.
pub open spec fn identity(n: usize) -> Seq<usize> {
    Seq::new(n as nat, |i: int| i as usize)
}

/// The slot that step `i` of the shuffle swaps with: `i` plus the draw
/// reduced modulo the number of slots not yet fixed.
pub open spec fn swap_slot(n: usize, draws: Seq<u64>, i: int) -> int {
    i + (draws[i] as int) % (n - i)
}

/// The arrangement after `k` steps of a Fisher-Yates shuffle of `0..n`.
pub open spec fn shuffled(n: usize, draws: Seq<u64>, k: nat) -> Seq<usize>
    decreases k,
{
    if k == 0 {
        identity(n)
    } else {
        let p = shuffled(n, draws, (k - 1) as nat);
        let i = k - 1;
        let j = swap_slot(n, draws, i);
        p.update(i, p[j]).update(j, p[i])
    }
}

/// The `k` positions out of `0..n` that the draws select.
pub open spec fn chosen(n: usize, draws: Seq<u64>, k: nat) -> Seq<usize> {
    shuffled(n, draws, k).subrange(0, k as int)
}

/// After any number of steps the arrangement is still a permutation of `0..n`.
pub proof fn lemma_shuffled_permutation(n: usize, draws: Seq<u64>, k: nat)
    requires
        k <= n,
    ensures
        shuffled(n, draws, k).len() == n,
        shuffled(n, draws, k).no_duplicates(),
        forall|i: int| 0 <= i < n ==> (#[trigger] shuffled(n, draws, k)[i]) < n,
    decreases k,
{
    if k > 0 {
        lemma_shuffled_permutation(n, draws, (k - 1) as nat);
        let p = shuffled(n, draws, (k - 1) as nat);
        let i = k - 1;
        let j = swap_slot(n, draws, i);
        let q = p.update(i, p[j]).update(j, p[i]);
        assert(i <= j < n);
        assert(q == shuffled(n, draws, k));
        assert forall|a: int, b: int| 0 <= a < q.len() && 0 <= b < q.len() && a != b implies q[a]
            != q[b] by {
            let sa = if a == i { j } else if a == j { i } else { a };
            let sb = if b == i { j } else if b == j { i } else { b };
            assert(q[a] == p[sa]);
            assert(q[b] == p[sb]);
        }
    }
}

/// The chosen positions are distinct and lie in `0..n`.
pub proof fn lemma_chosen_distinct(n: usize, draws: Seq<u64>, k: nat)
    requires
        k <= n,
    ensures
        chosen(n, draws, k).len() == k,
        chosen(n, draws, k).no_duplicates(),
        forall|i: int| 0 <= i < k ==> (#[trigger] chosen(n, draws, k)[i]) < n,
{
    lemma_shuffled_permutation(n, draws, k);
    let s = shuffled(n, draws, k);
    let c = chosen(n, draws, k);
    assert forall|a: int, b: int| 0 <= a < c.len() && 0 <= b < c.len() && a != b implies c[a]
        != c[b] by {
        assert(c[a] == s[a]);
        assert(c[b] == s[b]);
    }
    assert forall|i: int| 0 <= i < k implies (#[trigger] c[i]) < n by {
        assert(c[i] == s[i]);
    }
}

/// Selects `k` distinct positions out of `0..n`, step `i` of the shuffle
/// using `draws[i]`.
pub fn choose_positions(n: usize, k: usize, draws: &[u64]) -> (r: Vec<usize>)
    requires
        k <= n,
        draws@.len() >= k,
    ensures
        r@ == chosen(n, draws@, k as nat),
{
    let mut perm: Vec<usize> = Vec::with_capacity(n);
    let mut t: usize = 0;
    while t < n
        invariant
            t <= n,
            perm@ == Seq::new(t as nat, |i: int| i as usize),
        decreases n - t,
    {
        perm.push(t);
        t = t + 1;
        assert(perm@ =~= Seq::new(t as nat, |i: int| i as usize));
    }
    assert(perm@ =~= shuffled(n, draws@, 0));
    let mut i: usize = 0;
    while i < k
        invariant
            i <= k,
            k <= n,
            draws@.len() >= k,
            perm@ == shuffled(n, draws@, i as nat),
        decreases k - i,
    {
        proof {
            lemma_shuffled_permutation(n, draws@, i as nat);
        }
        let left: usize = n - i;
        let off: u64 = draws[i] % (left as u64);
        let j: usize = i + off as usize;
        assert(j == swap_slot(n, draws@, i as int));
        let a = perm[i];
        let b = perm[j];
        perm.set(i, b);
        perm.set(j, a);
        i = i + 1;
    }
    let mut r: Vec<usize> = Vec::with_capacity(k);
    let mut m: usize = 0;
    while m < k
        invariant
            m <= k,
            k <= n,
            perm@ == shuffled(n, draws@, k as nat),
            r@ == perm@.subrange(0, m as int),
        decreases k - m,
    {
        proof {
            lemma_shuffled_permutation(n, draws@, k as nat);
        }
        r.push(perm[m]);
        m = m + 1;
        assert(r@ =~= perm@.subrange(0, m as int));
    }
    r
}

} // verus!
