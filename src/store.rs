use vstd::prelude::*;
use crate::picker::{is_fair_selection, select_candidates};
use crate::words::WordTranslation;

verus! {

/// One persisted row: a word, its translation, its kind and how often it
/// has been served.
pub struct Item {
    pub id: u64,
    pub key: String,
    pub payload: String,
    pub category: String,
    pub serve_count: u64,
}

/// The serve counts of `items`, position by position.
pub open spec fn counts_of(items: Seq<Item>) -> Seq<u64> {
    Seq::new(items.len(), |i: int| items[i].serve_count)
}

/// Ids and keys are unique.
pub open spec fn rows_unique(items: Seq<Item>) -> bool {
    forall|i: int, j: int|
        0 <= i < items.len() && 0 <= j < items.len() && i != j ==> items[i].id != items[j].id
            && items[i].key@ != items[j].key@
}

/// `after` is `before` with the rows at the positions of `p` served once
/// more, and nothing else changed.
pub open spec fn served_once(before: Seq<Item>, p: Seq<usize>, after: Seq<Item>) -> bool {
    &&& after.len() == before.len()
    &&& forall|i: int|
        #![trigger after[i]]
        0 <= i < before.len() ==> {
            &&& after[i].id == before[i].id
            &&& after[i].key@ == before[i].key@
            &&& after[i].payload@ == before[i].payload@
            &&& after[i].category@ == before[i].category@
            &&& after[i].serve_count == if p.contains(i as usize) {
                before[i].serve_count + 1
            } else {
                before[i].serve_count as int
            }
        }
}

/// Every unlocked row still has room for one more serve.
pub open spec fn room_to_serve(items: Seq<Item>, locked: Seq<bool>) -> bool {
    forall|i: int| 0 <= i < items.len() && !locked[i] ==> items[i].serve_count < u64::MAX
}

/// The rows of the item table, in a fixed order: a row's position is its
/// identity within the store.
pub struct ItemStore {
    items: Vec<Item>,
}

impl View for ItemStore {
    type V = Seq<Item>;

    closed spec fn view(&self) -> Seq<Item> {
        self.items@
    }
}

impl ItemStore {
    pub open spec fn wf(&self) -> bool {
        rows_unique(self@)
    }

    pub fn new() -> (s: ItemStore)
        ensures
            s@.len() == 0,
            s.wf(),
    {
        ItemStore { items: Vec::new() }
    }

    pub fn len(&self) -> (r: usize)
        ensures
            r == self@.len(),
    {
        self.items.len()
    }

    /// Adds a row that has never been served. A row whose id or key is
    /// already taken is refused, and then the store is unchanged.
    pub fn insert(&mut self, id: u64, key: String, payload: String, category: String) -> (r: bool)
        requires
            old(self).wf(),
        ensures
            final(self).wf(),
            r == forall|i: int|
                0 <= i < old(self)@.len() ==> old(self)@[i].id != id && old(self)@[i].key@ != key@,
            r ==> final(self)@ == old(self)@.push(
                Item { id, key, payload, category, serve_count: 0 },
            ),
            r ==> final(self)@.last().key@ == key@ && final(self)@.last().payload@ == payload@
                && final(self)@.last().category@ == category@,
            !r ==> final(self)@ == old(self)@,
    {
        let mut i: usize = 0;
        while i < self.items.len()
            invariant
                i <= self.items.len(),
                self@ == old(self)@,
                old(self).wf(),
                forall|k: int| 0 <= k < i ==> self@[k].id != id && self@[k].key@ != key@,
            decreases self.items.len() - i,
        {
            if self.items[i].id == id || self.items[i].key == key {
                return false;
            }
            i = i + 1;
        }
        self.items.push(Item { id, key, payload, category, serve_count: 0 });
        true
    }

    pub fn get(&self, i: usize) -> (r: &Item)
        requires
            i < self@.len(),
        ensures
            *r == self@[i as int],
    {
        &self.items[i]
    }

    /// The serve counts, position by position.
    pub fn serve_counts(&self) -> (r: Vec<u64>)
        ensures
            r@ == counts_of(self@),
    {
        let mut r: Vec<u64> = Vec::new();
        let mut i: usize = 0;
        while i < self.items.len()
            invariant
                i <= self.items.len(),
                r@ == counts_of(self@).take(i as int),
            decreases self.items.len() - i,
        {
            r.push(self.items[i].serve_count);
            i = i + 1;
            assert(r@ =~= counts_of(self@).take(i as int));
        }
        assert(r@ =~= counts_of(self@));
        r
    }

    /// Serves a batch of up to `n` rows in one step: picks a fair batch
    /// among the rows that `locked` does not mark, serves exactly those rows
    /// once more, and returns their positions in the order they were picked.
    pub fn pick_batch(&mut self, n: usize, locked: &Vec<bool>) -> (p: Vec<usize>)
        requires
            old(self).wf(),
            n > 0,
            locked.len() == old(self)@.len(),
            room_to_serve(old(self)@, locked@),
        ensures
            final(self).wf(),
            is_fair_selection(counts_of(old(self)@), locked@, n as nat, p@),
            served_once(old(self)@, p@, final(self)@),
    {
        let counts = self.serve_counts();
        let p = select_candidates(&counts, locked, n);
        let mut j: usize = 0;
        while j < p.len()
            invariant
                j <= p.len(),
                is_fair_selection(counts@, locked@, n as nat, p@),
                counts@ == counts_of(old(self)@),
                locked.len() == old(self)@.len(),
                room_to_serve(old(self)@, locked@),
                served_once(old(self)@, p@.take(j as int), self@),
            decreases p.len() - j,
        {
            let pos = p[j];
            proof {
                assert(!p@.take(j as int).contains(pos)) by {
                    if p@.take(j as int).contains(pos) {
                        let k = choose|k: int| 0 <= k < j && p@.take(j as int)[k] == pos;
                        assert(p@[k] == p@[j as int]);
                    }
                }
            }
            assert(pos < old(self)@.len() && !locked@[pos as int]);
            assert(self@[pos as int].serve_count == old(self)@[pos as int].serve_count);
            let c = self.items[pos].serve_count;
            self.items[pos].serve_count = c + 1;
            proof {
                assert forall|i: int| 0 <= i < old(self)@.len() implies
                    (#[trigger] p@.take(j + 1).contains(i as usize) <==> (p@.take(
                    j as int,
                ).contains(i as usize) || i == pos as int)) by {
                    assert(p@.take(j + 1) =~= p@.take(j as int).push(pos));
                    if p@.take(j as int).contains(i as usize) {
                        let k = choose|k: int| 0 <= k < j && p@.take(j as int)[k] == i as usize;
                        assert(p@.take(j + 1)[k] == i as usize);
                    }
                    if i == pos as int {
                        assert(p@.take(j + 1)[j as int] == pos);
                    }
                }
            }
            j = j + 1;
        }
        assert(p@.take(p.len() as int) =~= p@);
        p
    }

    /// The word and translation of the rows at the positions of `p`, in order.
    pub fn batch_words(&self, p: &Vec<usize>) -> (r: Vec<WordTranslation>)
        requires
            forall|j: int| 0 <= j < p.len() ==> p[j] < self@.len(),
        ensures
            r.len() == p.len(),
            forall|j: int|
                0 <= j < p.len() ==> r[j].word@ == self@[p[j] as int].key@ && r[j].translation@
                    == self@[p[j] as int].payload@,
    {
        let mut r: Vec<WordTranslation> = Vec::new();
        let mut j: usize = 0;
        while j < p.len()
            invariant
                j <= p.len(),
                r.len() == j,
                forall|j: int| 0 <= j < p.len() ==> p[j] < self@.len(),
                forall|k: int|
                    0 <= k < j ==> r[k].word@ == self@[p[k] as int].key@ && r[k].translation@
                        == self@[p[k] as int].payload@,
            decreases p.len() - j,
        {
            let item = &self.items[p[j]];
            r.push(WordTranslation::new(item.key.clone(), item.payload.clone()));
            j = j + 1;
        }
        r
    }
}

} // verus!
