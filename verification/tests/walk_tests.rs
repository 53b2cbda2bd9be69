//! Enumeration filtering: hidden entries and counting.

use quer::walk::{
    collect_candidates, is_hidden_name, keep_entry, CandidateFile, EntryKind, FileCount,
    FilterMode, TreeEntry,
};

fn entry(path: &str, components: &[&str], kind: EntryKind) -> TreeEntry {
    TreeEntry {
        path: path.to_string(),
        components: components.iter().map(|c| c.to_string()).collect(),
        kind,
    }
}

fn tree() -> Vec<TreeEntry> {
    vec![
        entry("/r", &[], EntryKind::Directory),
        entry("/r/a.bin", &["a.bin"], EntryKind::File),
        entry("/r/.hidden.bin", &[".hidden.bin"], EntryKind::File),
        entry("/r/sub", &["sub"], EntryKind::Directory),
        entry("/r/sub/b.bin", &["sub", "b.bin"], EntryKind::File),
        entry("/r/.git", &[".git"], EntryKind::Directory),
        entry("/r/.git/c.bin", &[".git", "c.bin"], EntryKind::File),
        entry("/r/link", &["link"], EntryKind::Other),
    ]
}

fn paths(files: &[CandidateFile]) -> Vec<String> {
    files.iter().map(|f| f.path.clone()).collect()
}

#[test]
fn hidden_names_start_with_a_dot() {
    assert!(is_hidden_name(".git"));
    assert!(is_hidden_name("."));
    assert!(!is_hidden_name("a.bin"));
    assert!(!is_hidden_name(""));
}

#[test]
fn keep_entry_follows_the_filter() {
    assert!(keep_entry(".git", FilterMode::AllEntries));
    assert!(!keep_entry(".git", FilterMode::ExcludeHidden));
    assert!(keep_entry("src", FilterMode::ExcludeHidden));
}

#[test]
fn exclude_hidden_keeps_exactly_the_visible_files() {
    let entries = tree();
    let (files, count) = collect_candidates(&entries, FilterMode::ExcludeHidden);
    assert_eq!(paths(&files), vec!["/r/a.bin".to_string(), "/r/sub/b.bin".to_string()]);
    let FileCount { num_files, num_dirs } = count;
    assert_eq!(num_files, 2);
    // The root, and the one visible subdirectory.
    assert_eq!(num_dirs, 2);
}

#[test]
fn all_entries_keeps_hidden_files_too() {
    let entries = tree();
    let (files, count) = collect_candidates(&entries, FilterMode::AllEntries);
    assert_eq!(
        paths(&files),
        vec![
            "/r/a.bin".to_string(),
            "/r/.hidden.bin".to_string(),
            "/r/sub/b.bin".to_string(),
            "/r/.git/c.bin".to_string(),
        ]
    );
    assert_eq!(count.num_files, 4);
    assert_eq!(count.num_dirs, 3);
}

#[test]
fn hidden_directories_prune_their_descendants() {
    // c.bin itself has an ordinary name; it is excluded because a
    // component above it is hidden.
    let entries = vec![
        entry("/r", &[], EntryKind::Directory),
        entry("/r/.git", &[".git"], EntryKind::Directory),
        entry("/r/.git/c.bin", &[".git", "c.bin"], EntryKind::File),
    ];
    let (files, count) = collect_candidates(&entries, FilterMode::ExcludeHidden);
    assert!(files.is_empty());
    assert_eq!(count.num_files, 0);
    assert_eq!(count.num_dirs, 1);
}

#[test]
fn empty_tree_counts_nothing() {
    let entries: Vec<TreeEntry> = Vec::new();
    let (files, count) = collect_candidates(&entries, FilterMode::ExcludeHidden);
    assert!(files.is_empty());
    assert_eq!(count.num_files, 0);
    assert_eq!(count.num_dirs, 0);
}
