use rustcast::hot_reload::{count_dirs_in_dir, total_files, AppCountWatcher, Entry};
use rustcast::message::Message;

#[test]
fn directories_are_counted() {
    let entries = vec![
        Entry::Directory,
        Entry::Unreadable,
        Entry::Other,
        Entry::Directory,
        Entry::Unknown,
    ];
    assert_eq!(count_dirs_in_dir(Some(entries)), 2);
    assert_eq!(count_dirs_in_dir(Some(vec![])), 0);
    assert_eq!(count_dirs_in_dir(None), 0);
}

#[test]
fn counts_are_added() {
    assert_eq!(total_files(&vec![1, 20, 300]), 321);
    assert_eq!(total_files(&vec![]), 0);
    assert_eq!(total_files(&(0..10000).collect()), 49995000);
}

#[test]
fn apps_are_indexed_again_when_their_number_changes() {
    let mut watcher = AppCountWatcher::new(3);
    let mut changed = |count: usize| -> bool {
        let message: Option<Message<u64>> = watcher.observe(count);
        match message {
            None => false,
            Some(Message::UpdateApps) => true,
            Some(other) => panic!("{other:?}"),
        }
    };
    assert!(!changed(3));
    assert!(changed(4));
    assert!(!changed(4));
    assert!(changed(3));
}
