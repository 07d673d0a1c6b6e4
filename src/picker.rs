use vstd::prelude::*;

verus! {

/// `p` is a fair batch of at most `n` rows out of `counts`, where `locked`
/// marks the rows held by other transactions: the rows are distinct and
/// unlocked, listed from least to most served, no row outside the batch is
/// served less than one inside it, and a batch shorter than `n` takes every
/// unlocked row.
pub open spec fn is_fair_selection(counts: Seq<u64>, locked: Seq<bool>, n: nat, p: Seq<usize>) -> bool {
    &&& p.no_duplicates()
    &&& p.len() <= n
    &&& forall|j: int| 0 <= j < p.len() ==> p[j] < counts.len() && !locked[p[j] as int]
    &&& forall|j: int, k: int|
        0 <= j < k < p.len() ==> counts[p[j] as int] <= counts[p[k] as int]
    &&& forall|j: int, i: int|
        0 <= j < p.len() && 0 <= i < counts.len() && !locked[i] && !p.contains(i as usize)
            ==> counts[p[j] as int] <= counts[i]
    &&& p.len() < n ==> forall|i: int|
        0 <= i < counts.len() && !locked[i] ==> p.contains(i as usize)
}

/// Picks up to `n` unlocked rows, least served first.
pub fn select_candidates(counts: &Vec<u64>, locked: &Vec<bool>, n: usize) -> (p: Vec<usize>)
    requires
        counts.len() == locked.len(),
    ensures
        is_fair_selection(counts@, locked@, n as nat, p@),
{
    let len = counts.len();
    let mut taken: Vec<bool> = Vec::new();
    let mut i: usize = 0;
    while i < len
        invariant
            i <= len,
            taken.len() == i,
            forall|k: int| 0 <= k < i ==> !taken[k],
        decreases len - i,
    {
        taken.push(false);
        i = i + 1;
    }
    let mut p: Vec<usize> = Vec::new();
    let mut exhausted = false;
    while p.len() < n && !exhausted
        invariant
            len == counts.len(),
            len == locked.len(),
            taken.len() == len,
            p.len() <= n,
            forall|k: int| 0 <= k < len ==> (taken[k] <==> p@.contains(k as usize)),
            p@.no_duplicates(),
            forall|j: int| 0 <= j < p.len() ==> p[j] < len && !locked[p[j] as int],
            forall|j: int, k: int|
                0 <= j < k < p.len() ==> counts[p[j] as int] <= counts[p[k] as int],
            forall|j: int, k: int|
                0 <= j < p.len() && 0 <= k < len && !locked[k] && !taken[k]
                    ==> counts[p[j] as int] <= counts[k],
            exhausted ==> forall|k: int| 0 <= k < len && !locked[k] ==> taken[k],
        decreases 2 * (n - p.len()) + if exhausted { 0int } else { 1int },
    {
        let mut found = false;
        let mut best: usize = 0;
        let mut i: usize = 0;
        while i < len
            invariant
                len == counts.len(),
                len == locked.len(),
                taken.len() == len,
                i <= len,
                found ==> best < i && !locked[best as int] && !taken[best as int],
                found ==> forall|k: int|
                    0 <= k < i && !locked[k] && !taken[k] ==> counts[best as int] <= counts[k],
                !found ==> forall|k: int| 0 <= k < i ==> locked[k] || taken[k],
            decreases len - i,
        {
            if !locked[i] && !taken[i] && (!found || counts[i] < counts[best]) {
                found = true;
                best = i;
            }
            i = i + 1;
        }
        if found {
            proof {
                assert forall|k: int| 0 <= k < len implies (#[trigger] p@.push(best).contains(k as usize)
                    <==> (p@.contains(k as usize) || k == best as int)) by {
                    if k == best as int {
                        assert(p@.push(best)[p.len() as int] == best);
                    }
                    if p@.contains(k as usize) {
                        let j = choose|j: int| 0 <= j < p.len() && p@[j] == k as usize;
                        assert(p@.push(best)[j] == k as usize);
                    }
                    if p@.push(best).contains(k as usize) {
                        let j = choose|j: int| 0 <= j < p.len() + 1 && p@.push(best)[j] == k as usize;
                        if j < p.len() {
                            assert(p@.contains(k as usize));
                        }
                    }
                }
            }
            p.push(best);
            taken.set(best, true);
        } else {
            exhausted = true;
        }
    }
    assert forall|i: int| 0 <= i < len implies (p@.contains(i as usize) <==> taken[i]) by {}
    p
}

} // verus!
