use backdrop::{eviction_plan, StoredEntry};

fn entry(name: &str, len: Option<u64>, created: Option<u64>) -> StoredEntry {
    StoredEntry { name: name.to_string(), len, created }
}

fn survivors(entries: &[StoredEntry], plan: &[usize]) -> Vec<StoredEntry> {
    entries
        .iter()
        .enumerate()
        .filter(|(i, _)| !plan.contains(i))
        .map(|(_, e)| e.clone())
        .collect()
}

fn occupied(entries: &[StoredEntry]) -> u64 {
    entries.iter().filter_map(|e| e.len).sum()
}

#[test]
fn evicts_all_three_when_each_removal_leaves_too_much() {
    let entries = vec![
        entry("a.png", Some(10), Some(1)),
        entry("b.png", Some(20), Some(2)),
        entry("c.png", Some(30), Some(3)),
    ];
    let plan = eviction_plan(&entries, 25);
    assert_eq!(plan, vec![0, 1, 2]);
    assert!(occupied(&survivors(&entries, &plan)) <= 25);
}

#[test]
fn nothing_removed_under_budget() {
    let entries = vec![
        entry("a.png", Some(30), Some(5)),
        entry("b.png", Some(50), Some(1)),
    ];
    assert_eq!(occupied(&entries), 80);
    assert_eq!(eviction_plan(&entries, 100), Vec::<usize>::new());
}

#[test]
fn nothing_removed_at_exact_budget() {
    let entries = vec![entry("a.png", Some(60), Some(1)), entry("b.png", Some(40), Some(2))];
    assert!(eviction_plan(&entries, 100).is_empty());
}

#[test]
fn empty_folder_needs_nothing() {
    assert!(eviction_plan(&Vec::new(), 0).is_empty());
}

#[test]
fn stops_as_soon_as_it_fits() {
    let entries = vec![
        entry("a.png", Some(10), Some(1)),
        entry("b.png", Some(20), Some(2)),
        entry("c.png", Some(30), Some(3)),
    ];
    assert_eq!(eviction_plan(&entries, 35), vec![0, 1]);
    assert_eq!(eviction_plan(&entries, 50), vec![0]);
}

#[test]
fn oldest_go_first_whatever_the_listing_order() {
    let entries = vec![
        entry("new.png", Some(10), Some(300)),
        entry("old.png", Some(10), Some(100)),
        entry("mid.png", Some(10), Some(200)),
    ];
    assert_eq!(eviction_plan(&entries, 10), vec![1, 2]);
}

#[test]
fn unknown_creation_time_counts_as_oldest() {
    let entries = vec![
        entry("a.png", Some(10), Some(5)),
        entry("b.png", Some(10), None),
    ];
    assert_eq!(eviction_plan(&entries, 15), vec![1]);
}

#[test]
fn equal_ages_keep_the_listing_order() {
    let entries = vec![
        entry("a.png", Some(10), Some(7)),
        entry("b.png", Some(10), Some(7)),
        entry("c.png", Some(10), Some(7)),
    ];
    assert_eq!(eviction_plan(&entries, 10), vec![0, 1]);
}

#[test]
fn unreadable_entries_neither_count_nor_go() {
    let entries = vec![
        entry("broken", None, Some(0)),
        entry("a.png", Some(40), Some(1)),
        entry("b.png", Some(40), Some(2)),
    ];
    assert!(eviction_plan(&entries, 80).is_empty());
    assert_eq!(eviction_plan(&entries, 50), vec![1]);
    assert_eq!(eviction_plan(&entries, 0), vec![1, 2]);
}

#[test]
fn oversized_single_entry_is_removed_like_any_other() {
    let entries = vec![entry("big.png", Some(500), Some(1)), entry("small.png", Some(5), Some(2))];
    assert_eq!(eviction_plan(&entries, 100), vec![0]);
    let alone = vec![entry("big.png", Some(500), Some(1))];
    assert_eq!(eviction_plan(&alone, 100), vec![0]);
}

#[test]
fn zero_sized_entries_are_removed_in_turn() {
    let entries = vec![
        entry("empty.png", Some(0), Some(1)),
        entry("a.png", Some(30), Some(2)),
    ];
    assert_eq!(eviction_plan(&entries, 10), vec![0, 1]);
}

#[test]
fn second_pass_removes_nothing() {
    let entries = vec![
        entry("a.png", Some(70), Some(3)),
        entry("b.png", Some(20), None),
        entry("c.png", Some(30), Some(1)),
        entry("d.png", Some(45), Some(2)),
    ];
    let first = eviction_plan(&entries, 100);
    assert_eq!(first, vec![1, 2, 3]);
    let left = survivors(&entries, &first);
    assert!(eviction_plan(&left, 100).is_empty());
}

#[test]
fn sizes_near_the_largest_do_not_overflow() {
    let entries = vec![
        entry("a", Some(u64::MAX), Some(1)),
        entry("b", Some(u64::MAX), Some(2)),
    ];
    assert_eq!(eviction_plan(&entries, u64::MAX), vec![0]);
}
