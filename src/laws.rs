use vstd::prelude::*;
use vstd::seq_lib::seq_to_set_is_finite;
use vstd::set_lib::{lemma_len_subset, lemma_len_union};
use crate::picker::is_fair_selection;
use crate::store::{Item, counts_of, served_once};
use crate::session::{PickPhase, PickSession, StoreAction, StoreEvent, keys_of, step_spec};
use crate::words::WordTranslation;

verus! {

/// The positions of the rows that `locked` leaves free.
pub open spec fn unlocked_rows(locked: Seq<bool>) -> Set<usize> {
    Set::new(|i: usize| (i as int) < locked.len() && !locked[i as int])
}

/// How many of the batches `picks` hold position `i`.
pub open spec fn times_served(picks: Seq<Seq<usize>>, i: int) -> nat
    decreases picks.len(),
{
    if picks.len() == 0 {
        0
    } else {
        times_served(picks.drop_last(), i) + if picks.last().contains(i as usize) {
            1nat
        } else {
            0nat
        }
    }
}

proof fn lemma_unlocked_rows_finite(locked: Seq<bool>)
    requires
        locked.len() <= usize::MAX,
    ensures
        unlocked_rows(locked).finite(),
{
    let all = Seq::new(locked.len(), |i: int| i as usize);
    seq_to_set_is_finite(all);
    assert forall|i: usize| unlocked_rows(locked).contains(i) implies all.to_set().contains(i) by {
        assert(all[i as int] == i);
    }
    lemma_len_subset(unlocked_rows(locked), all.to_set());
}

/// A fair batch holds `n` rows where at least `n` rows are free, and
/// every free row otherwise.
pub proof fn lemma_batch_length(counts: Seq<u64>, locked: Seq<bool>, n: nat, p: Seq<usize>)
    requires
        counts.len() == locked.len(),
        locked.len() <= usize::MAX,
        is_fair_selection(counts, locked, n, p),
    ensures
        unlocked_rows(locked).finite(),
        p.len() == if unlocked_rows(locked).len() < n {
            unlocked_rows(locked).len()
        } else {
            n
        },
{
    let u = unlocked_rows(locked);
    lemma_unlocked_rows_finite(locked);
    p.unique_seq_to_set();
    assert forall|x: usize| p.to_set().contains(x) implies u.contains(x) by {
        let j = choose|j: int| 0 <= j < p.len() && p[j] == x;
    }
    lemma_len_subset(p.to_set(), u);
    if p.len() < n {
        assert forall|x: usize| u.contains(x) implies p.to_set().contains(x) by {
            assert(!locked[x as int]);
            assert(p.contains((x as int) as usize));
        }
        lemma_len_subset(u, p.to_set());
    }
}

/// A batch asked for more rows than are free is no error: it holds exactly
/// the free rows.
pub proof fn lemma_partial_batch(counts: Seq<u64>, locked: Seq<bool>, n: nat, p: Seq<usize>)
    requires
        counts.len() == locked.len(),
        locked.len() <= usize::MAX,
        is_fair_selection(counts, locked, n, p),
        unlocked_rows(locked).len() < n,
    ensures
        p.len() == unlocked_rows(locked).len(),
        p.to_set() == unlocked_rows(locked),
{
    lemma_batch_length(counts, locked, n, p);
    assert forall|x: usize| unlocked_rows(locked).contains(x) implies p.to_set().contains(x) by {
        assert(!locked[x as int]);
        assert(p.contains((x as int) as usize));
    }
    assert forall|x: usize| p.to_set().contains(x) implies unlocked_rows(locked).contains(x) by {
        let j = choose|j: int| 0 <= j < p.len() && p[j] == x;
    }
    assert(p.to_set() =~= unlocked_rows(locked));
}

/// Two batches picked while both transactions are in flight share no row:
/// the later one sees the rows of the earlier one locked. Where at least
/// `2 * n` rows were free before both, both batches are full.
pub proof fn lemma_concurrent_batches_disjoint(
    counts1: Seq<u64>,
    locked1: Seq<bool>,
    p1: Seq<usize>,
    counts2: Seq<u64>,
    locked2: Seq<bool>,
    p2: Seq<usize>,
    n: nat,
)
    requires
        counts1.len() == locked1.len(),
        counts2.len() == locked2.len(),
        locked1.len() == locked2.len(),
        locked1.len() <= usize::MAX,
        is_fair_selection(counts1, locked1, n, p1),
        is_fair_selection(counts2, locked2, n, p2),
        forall|i: int|
            0 <= i < locked1.len() ==> (#[trigger] locked2[i] <==> locked1[i] || p1.contains(
                i as usize,
            )),
        unlocked_rows(locked1).len() >= 2 * n,
    ensures
        forall|j: int, k: int| 0 <= j < p1.len() && 0 <= k < p2.len() ==> p1[j] != p2[k],
        p1.len() == n,
        p2.len() == n,
{
    lemma_batch_length(counts1, locked1, n, p1);
    lemma_batch_length(counts2, locked2, n, p2);
    let u1 = unlocked_rows(locked1);
    let u2 = unlocked_rows(locked2);
    let d = u1.difference(p1.to_set());
    seq_to_set_is_finite(p1);
    p1.unique_seq_to_set();
    assert forall|x: usize| d.contains(x) implies u2.contains(x) by {
        if locked2[x as int] {
            assert(p1.contains(x)) by {
                assert(!locked1[x as int]);
            }
        }
    }
    lemma_len_subset(d, u2);
    assert(u1.subset_of(d.union(p1.to_set())));
    lemma_len_union(d, p1.to_set());
    lemma_len_subset(u1, d.union(p1.to_set()));
    assert forall|j: int, k: int| 0 <= j < p1.len() && 0 <= k < p2.len() implies p1[j] != p2[k] by {
        assert(p1.contains(p1[j]));
        assert(locked2[p1[j] as int]);
    }
}

/// With no other transaction in flight, no served row had been served more
/// often than any row left out.
pub proof fn lemma_quiescent_fairness(before: Seq<Item>, locked: Seq<bool>, n: nat, p: Seq<usize>)
    requires
        locked.len() == before.len(),
        forall|i: int| 0 <= i < locked.len() ==> !locked[i],
        is_fair_selection(counts_of(before), locked, n, p),
    ensures
        forall|j: int, i: int|
            0 <= j < p.len() && 0 <= i < before.len() && !p.contains(i as usize)
                ==> before[#[trigger] p[j] as int].serve_count <= #[trigger] before[i].serve_count,
{
    assert forall|j: int, i: int|
        0 <= j < p.len() && 0 <= i < before.len() && !p.contains(i as usize) implies before[#[trigger] p[j] as int].serve_count
        <= #[trigger] before[i].serve_count by {
        assert(!locked[i]);
        assert(counts_of(before)[p[j] as int] <= counts_of(before)[i]);
    }
}

/// Across a history of batches, each row's serve count grows by exactly the
/// number of batches that held it.
pub proof fn lemma_counts_exact(history: Seq<Seq<Item>>, picks: Seq<Seq<usize>>)
    requires
        history.len() == picks.len() + 1,
        forall|k: int| 0 <= k < picks.len() ==> served_once(history[k], #[trigger] picks[k], history[k + 1]),
    ensures
        history.last().len() == history[0].len(),
        forall|i: int|
            0 <= i < history[0].len() ==> #[trigger] history.last()[i].serve_count
                == history[0][i].serve_count + times_served(picks, i),
    decreases picks.len(),
{
    if picks.len() > 0 {
        let h = history.drop_last();
        let q = picks.drop_last();
        assert forall|k: int| 0 <= k < q.len() implies served_once(h[k], #[trigger] q[k], h[k + 1]) by {
            assert(served_once(history[k], picks[k], history[k + 1]));
        }
        lemma_counts_exact(h, q);
        let last = picks.len() - 1;
        assert(served_once(history[last], picks[last], history[last + 1]));
        assert forall|i: int| 0 <= i < history[0].len() implies #[trigger] history.last()[i].serve_count
            == history[0][i].serve_count + times_served(picks, i) by {
            assert(h.last()[i].serve_count == h[0][i].serve_count + times_served(q, i));
            assert(history.last()[i] == history[last + 1][i]);
        }
    }
}

/// A failure after the candidates are selected and before the commit rolls
/// the transaction back; a session that rolls back never replies with a
/// batch; and a batch is handed out only once the commit went through.
pub proof fn lemma_failure_rolls_back(s: PickSession, e: StoreEvent, t: PickSession, a: StoreAction)
    requires
        step_spec(s, e, t, a),
    ensures
        (s.phase == PickPhase::Selecting || s.phase == PickPhase::Updating) && e is Failed
            ==> a == StoreAction::Rollback && t.phase == PickPhase::RollingBack,
        s.phase == PickPhase::RollingBack ==> !(a is Reply) && (t.phase == PickPhase::RollingBack
            || t.phase == PickPhase::Done),
        a is Reply ==> s.phase == PickPhase::Committing && e is Committed,
{
}

/// A session that replies hands out exactly the rows it selected, and it
/// served exactly those rows, each once.
pub proof fn lemma_replies_with_served_rows(
    s0: PickSession,
    rows: Vec<WordTranslation>,
    s1: PickSession,
    a1: StoreAction,
    k: u64,
    s2: PickSession,
    a2: StoreAction,
    s3: PickSession,
    a3: StoreAction,
)
    requires
        s0.phase == PickPhase::Selecting,
        step_spec(s0, StoreEvent::Rows(rows), s1, a1),
        step_spec(s1, StoreEvent::RowsUpdated(k), s2, a2),
        step_spec(s2, StoreEvent::Committed, s3, a3),
        a3 is Reply,
    ensures
        a3 == StoreAction::Reply(rows),
        k == rows.len(),
        match a1 {
            StoreAction::ServeKeys(keys) => keys_of(rows@, keys@),
            _ => false,
        },
{
}

} // verus!
