//! Candidate enumeration over a walked file tree.
//!
//! The filesystem walk itself happens outside; it reports each entry as
//! plain values: the full path, the path components below the search
//! root, and the entry's classification. This module holds the filtering
//! rules — the per-entry predicate a pruning walker applies, and the
//! whole-path characterization of what survives pruning — and turns the
//! walked entries into the candidate list and counts one search runs on.

use vstd::prelude::*;
use vstd::string::StrSliceExecFns;

verus! {

/// Inclusion filter for tree enumeration.
#[derive(Clone, Copy, PartialEq, Eq, Structural, Debug)]
pub enum FilterMode {
    /// No exclusion.
    AllEntries,
    /// Entries whose name begins with the hidden-file marker are pruned,
    /// together with their descendants.
    ExcludeHidden,
}

/// How an enumerated entry classifies.
#[derive(Clone, Copy, PartialEq, Eq, Structural, Debug)]
pub enum EntryKind {
    /// A regular file: a scan candidate.
    File,
    /// A directory: counted, not scanned.
    Directory,
    /// Anything else (links, devices): neither counted nor scanned.
    Other,
}

/// One filesystem entry the walker reports.
pub struct TreeEntry {
    /// The full path, sufficient to reopen the entry.
    pub path: String,
    /// The path components below the search root; the last one is the
    /// entry's own name. The root itself has none.
    pub components: Vec<String>,
    /// The entry's classification.
    pub kind: EntryKind,
}

/// The mathematical value of a walked entry.
pub ghost struct TreeEntryModel {
    pub path: Seq<char>,
    pub components: Seq<Seq<char>>,
    pub kind: EntryKind,
}

impl View for TreeEntry {
    type V = TreeEntryModel;

    open spec fn view(&self) -> TreeEntryModel {
        TreeEntryModel {
            path: self.path@,
            components: self.components.deep_view(),
            kind: self.kind,
        }
    }
}

/// A regular file eligible for scanning.
pub struct CandidateFile {
    /// The file's path, sufficient to reopen it for scanning.
    pub path: String,
}

/// Counts of what enumeration kept.
pub struct FileCount {
    /// Files kept: the candidates.
    pub num_files: usize,
    /// Directories kept.
    pub num_dirs: usize,
}

/// A name marks a hidden entry when it begins with the dot prefix.
pub open spec fn spec_is_hidden_name(name: Seq<char>) -> bool {
    name.len() > 0 && name[0] == '.'
}

/// Exec check for a hidden name.
pub fn is_hidden_name(name: &str) -> (r: bool)
    ensures
        r == spec_is_hidden_name(name@),
{
    if name.unicode_len() == 0 {
        false
    } else {
        name.get_char(0) == '.'
    }
}

/// The per-entry predicate a pruning walker applies: under
/// `ExcludeHidden` a hidden name is pruned, under `AllEntries` nothing
/// is.
pub open spec fn spec_entry_kept(name: Seq<char>, filter: FilterMode) -> bool {
    filter is AllEntries || !spec_is_hidden_name(name)
}

/// Exec form of the walker predicate.
pub fn keep_entry(name: &str, filter: FilterMode) -> (r: bool)
    ensures
        r == spec_entry_kept(name@, filter),
{
    match filter {
        FilterMode::AllEntries => true,
        FilterMode::ExcludeHidden => !is_hidden_name(name),
    }
}

/// Whether any path component below the root is hidden.
pub open spec fn spec_has_hidden_component(components: Seq<Seq<char>>) -> bool {
    exists|i: int| 0 <= i < components.len() && spec_is_hidden_name(#[trigger] components[i])
}

/// An entry survives enumeration: under `ExcludeHidden` no component of
/// its path below the root is hidden (a hidden directory prunes its
/// whole subtree); under `AllEntries` every entry survives.
pub open spec fn spec_entry_included(components: Seq<Seq<char>>, filter: FilterMode) -> bool {
    filter is AllEntries || !spec_has_hidden_component(components)
}

/// Exec check whether any component is hidden.
pub fn has_hidden_component(components: &Vec<String>) -> (r: bool)
    ensures
        r == spec_has_hidden_component(components.deep_view()),
{
    let n = components.len();
    let mut i: usize = 0;
    proof {
        assert(components.deep_view().len() == n);
    }
    while i < n
        invariant
            i <= n,
            n == components@.len(),
            components.deep_view().len() == n,
            forall|j: int|
                0 <= j < i ==> !spec_is_hidden_name(#[trigger] components.deep_view()[j]),
        decreases n - i,
    {
        proof {
            assert(components.deep_view()[i as int] == components@[i as int]@);
        }
        if is_hidden_name(components[i].as_str()) {
            return true;
        }
        i += 1;
    }
    false
}

/// The paths of the files that survive enumeration, in walk order.
pub open spec fn included_file_paths(es: Seq<TreeEntryModel>, filter: FilterMode) -> Seq<
    Seq<char>,
>
    decreases es.len(),
{
    if es.len() == 0 {
        Seq::empty()
    } else {
        let rest = included_file_paths(es.skip(1), filter);
        if es[0].kind is File && spec_entry_included(es[0].components, filter) {
            seq![es[0].path] + rest
        } else {
            rest
        }
    }
}

/// How many entries of the given kind survive enumeration.
pub open spec fn count_included(es: Seq<TreeEntryModel>, filter: FilterMode, kind: EntryKind) -> int
    decreases es.len(),
{
    if es.len() == 0 {
        0
    } else {
        (if es[0].kind == kind && spec_entry_included(es[0].components, filter) {
            1int
        } else {
            0int
        }) + count_included(es.skip(1), filter, kind)
    }
}

/// The paths of every file entry, regardless of filtering.
pub open spec fn all_file_paths(es: Seq<TreeEntryModel>) -> Seq<Seq<char>>
    decreases es.len(),
{
    if es.len() == 0 {
        Seq::empty()
    } else {
        let rest = all_file_paths(es.skip(1));
        if es[0].kind is File {
            seq![es[0].path] + rest
        } else {
            rest
        }
    }
}

/// The walked entries that survive enumeration, in walk order.
pub open spec fn visible_entries(es: Seq<TreeEntryModel>) -> Seq<TreeEntryModel>
    decreases es.len(),
{
    if es.len() == 0 {
        Seq::empty()
    } else {
        let rest = visible_entries(es.skip(1));
        if !spec_has_hidden_component(es[0].components) {
            seq![es[0]] + rest
        } else {
            rest
        }
    }
}

/// Law (hidden-file filter): enumeration under `AllEntries` yields every
/// file; enumeration under `ExcludeHidden` yields exactly the files of
/// the entries without a hidden path component, in the same order.
pub proof fn lemma_hidden_file_filter(es: Seq<TreeEntryModel>)
    ensures
        included_file_paths(es, FilterMode::AllEntries) == all_file_paths(es),
        included_file_paths(es, FilterMode::ExcludeHidden) == all_file_paths(visible_entries(es)),
    decreases es.len(),
{
    if es.len() == 0 {
    } else {
        lemma_hidden_file_filter(es.skip(1));
        if !spec_has_hidden_component(es[0].components) {
            let v = visible_entries(es.skip(1));
            assert(visible_entries(es) == seq![es[0]] + v);
            assert((seq![es[0]] + v).skip(1) =~= v);
            assert((seq![es[0]] + v)[0] == es[0]);
        }
    }
}

/// Turns the walked entries into the candidate list and the counts of
/// files and directories kept. The candidates are exactly the surviving
/// files, in walk order.
pub fn collect_candidates(entries: &Vec<TreeEntry>, filter: FilterMode) -> (r: (
    Vec<CandidateFile>,
    FileCount,
))
    ensures
        ({
            let models = entries@.map_values(|e: TreeEntry| e@);
            let included = included_file_paths(models, filter);
            &&& r.0@.len() == included.len()
            &&& forall|j: int| 0 <= j < r.0@.len() ==> (#[trigger] r.0@[j]).path@ == included[j]
            &&& r.1.num_files == included.len()
            &&& r.1.num_dirs == count_included(models, filter, EntryKind::Directory)
        }),
{
    let n = entries.len();
    let ghost models = entries@.map_values(|e: TreeEntry| e@);
    let mut files: Vec<CandidateFile> = Vec::new();
    let mut num_dirs: usize = 0;
    let ghost mut done_paths: Seq<Seq<char>> = Seq::empty();
    let mut i: usize = 0;
    proof {
        assert(models.skip(0) =~= models);
        assert(done_paths + included_file_paths(models, filter) =~= included_file_paths(
            models,
            filter,
        ));
    }
    while i < n
        invariant
            i <= n,
            n == entries@.len(),
            models == entries@.map_values(|e: TreeEntry| e@),
            included_file_paths(models, filter) == done_paths + included_file_paths(
                models.skip(i as int),
                filter,
            ),
            count_included(models, filter, EntryKind::Directory) == num_dirs + count_included(
                models.skip(i as int),
                filter,
                EntryKind::Directory,
            ),
            files@.len() == done_paths.len(),
            forall|j: int|
                0 <= j < files@.len() ==> (#[trigger] files@[j]).path@ == done_paths[j],
            num_dirs <= i,
            files@.len() <= i,
        decreases n - i,
    {
        let ghost rest = models.skip(i as int);
        proof {
            assert(rest[0] == models[i as int]);
            assert(rest.skip(1) =~= models.skip(i as int + 1));
            assert(models[i as int] == entries@[i as int]@);
        }
        let entry = &entries[i];
        let included = match filter {
            FilterMode::AllEntries => true,
            FilterMode::ExcludeHidden => !has_hidden_component(&entry.components),
        };
        proof {
            assert(included == spec_entry_included(models[i as int].components, filter));
        }
        if included {
            match entry.kind {
                EntryKind::File => {
                    files.push(CandidateFile { path: entry.path.clone() });
                    proof {
                        let prev = done_paths;
                        done_paths = done_paths.push(models[i as int].path);
                        assert(done_paths =~= prev + seq![models[i as int].path]);
                        assert(prev + (seq![models[i as int].path] + included_file_paths(
                            models.skip(i as int + 1),
                            filter,
                        )) =~= done_paths + included_file_paths(
                            models.skip(i as int + 1),
                            filter,
                        ));
                    }
                },
                EntryKind::Directory => {
                    num_dirs = num_dirs + 1;
                },
                EntryKind::Other => {
                },
            }
        }
        i += 1;
    }
    proof {
        assert(models.skip(n as int) =~= Seq::<TreeEntryModel>::empty());
        assert(done_paths + Seq::<Seq<char>>::empty() =~= done_paths);
    }
    let num_files = files.len();
    (files, FileCount { num_files, num_dirs })
}

} // verus!
