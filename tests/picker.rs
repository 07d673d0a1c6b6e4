use ten_finish_words::picker::select_candidates;
use ten_finish_words::store::ItemStore;
use ten_finish_words::words::WordTranslation;

fn seeded(n: u64) -> ItemStore {
    let mut store = ItemStore::new();
    for i in 0..n {
        let inserted = store.insert(
            i,
            format!("word{}", i),
            format!("translation{}", i),
            "noun".to_string(),
        );
        assert!(inserted);
    }
    store
}

fn unlocked(store: &ItemStore) -> Vec<bool> {
    vec![false; store.len()]
}

#[test]
fn ten_rows_served_twice_in_rotation() {
    let mut store = seeded(10);
    let locked = unlocked(&store);
    let first = store.pick_batch(10, &locked);
    assert_eq!(first.len(), 10);
    let mut seen = first.clone();
    seen.sort();
    assert_eq!(seen, (0..10).collect::<Vec<usize>>());
    let words = store.batch_words(&first);
    let mut keys: Vec<String> = words.iter().map(|w| w.word.clone()).collect();
    keys.sort();
    let mut expected: Vec<String> = (0..10).map(|i| format!("word{}", i)).collect();
    expected.sort();
    assert_eq!(keys, expected);
    assert_eq!(store.serve_counts(), vec![1u64; 10]);

    let second = store.pick_batch(3, &locked);
    assert_eq!(second.len(), 3);
    let counts = store.serve_counts();
    for i in 0..10 {
        if second.contains(&i) {
            assert_eq!(counts[i], 2);
        } else {
            assert_eq!(counts[i], 1);
        }
    }
    assert_eq!(counts.iter().filter(|c| **c == 1).count(), 7);
}

#[test]
fn least_served_rows_come_first() {
    let counts: Vec<u64> = vec![5, 0, 3, 0, 9, 1];
    let locked = vec![false; 6];
    let p = select_candidates(&counts, &locked, 4);
    assert_eq!(p, vec![1, 3, 5, 2]);
}

#[test]
fn locked_rows_are_skipped() {
    let counts: Vec<u64> = vec![0, 0, 0, 0];
    let locked = vec![true, false, true, false];
    let p = select_candidates(&counts, &locked, 4);
    assert_eq!(p, vec![1, 3]);
}

#[test]
fn partial_batch_takes_every_free_row() {
    let mut store = seeded(4);
    let locked = vec![false, true, false, false];
    let p = store.pick_batch(10, &locked);
    let mut sorted = p.clone();
    sorted.sort();
    assert_eq!(sorted, vec![0, 2, 3]);
    assert_eq!(store.serve_counts(), vec![1, 0, 1, 1]);
}

#[test]
fn empty_store_gives_empty_batch() {
    let mut store = ItemStore::new();
    let p = store.pick_batch(10, &Vec::new());
    assert!(p.is_empty());
    assert_eq!(store.len(), 0);
}

#[test]
fn fully_locked_store_gives_empty_batch() {
    let mut store = seeded(3);
    let p = store.pick_batch(2, &vec![true; 3]);
    assert!(p.is_empty());
    assert_eq!(store.serve_counts(), vec![0, 0, 0]);
}

#[test]
fn concurrent_batches_are_disjoint() {
    let mut store = seeded(6);
    let locked = unlocked(&store);
    let first = store.pick_batch(3, &locked);
    let mut held = locked.clone();
    for i in &first {
        held[*i] = true;
    }
    let second = store.pick_batch(3, &held);
    assert_eq!(first.len(), 3);
    assert_eq!(second.len(), 3);
    for i in &second {
        assert!(!first.contains(i));
    }
    assert_eq!(store.serve_counts(), vec![1u64; 6]);
}

#[test]
fn counts_match_the_number_of_batches() {
    let mut store = seeded(5);
    let locked = unlocked(&store);
    let mut served = vec![0u64; 5];
    for n in [2usize, 3, 1, 4, 5, 2] {
        for i in store.pick_batch(n, &locked) {
            served[i] += 1;
        }
    }
    assert_eq!(store.serve_counts(), served);
    assert_eq!(served.iter().sum::<u64>(), 17);
}

#[test]
fn quiescent_batches_never_skip_a_less_served_row() {
    let mut store = seeded(7);
    let locked = unlocked(&store);
    for n in [3usize, 2, 5, 1] {
        let before = store.serve_counts();
        let p = store.pick_batch(n, &locked);
        let most = p.iter().map(|i| before[*i]).max().unwrap();
        for i in 0..7 {
            if !p.contains(&i) {
                assert!(most <= before[i]);
            }
        }
    }
}

#[test]
fn duplicate_key_or_id_is_refused() {
    let mut store = seeded(2);
    assert!(!store.insert(7, "word1".to_string(), "x".to_string(), "noun".to_string()));
    assert!(!store.insert(1, "other".to_string(), "x".to_string(), "noun".to_string()));
    assert_eq!(store.len(), 2);
    assert!(store.insert(2, "other".to_string(), "x".to_string(), "verb".to_string()));
    let item = store.get(2);
    assert_eq!(item.key, "other");
    assert_eq!(item.category, "verb");
    assert_eq!(item.serve_count, 0);
}

#[test]
fn batch_words_pairs_word_and_translation() {
    let mut store = ItemStore::new();
    assert!(store.insert(1, "yksi".to_string(), "one".to_string(), "number".to_string()));
    assert!(store.insert(2, "kaksi".to_string(), "two".to_string(), "number".to_string()));
    let words: Vec<WordTranslation> = store.batch_words(&vec![1, 0]);
    assert_eq!(words.len(), 2);
    assert_eq!(words[0].word, "kaksi");
    assert_eq!(words[0].translation, "two");
    assert_eq!(words[1].word, "yksi");
    assert_eq!(words[1].translation, "one");
}
