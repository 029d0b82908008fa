//! Finding the files that a snapshot removes, and the entries that stay.
//!
//! Files are matched by path.
use vstd::hash_set::StringHashSet;
use vstd::prelude::*;

use crate::data_file::{files_view, DataFile, DataFileView};
use crate::manifest::{
    entries_view, ManifestDraft, ManifestDraftView, ManifestEntry, ManifestEntryView, ManifestFile,
    ManifestFileView, ManifestStatus,
};
use crate::seqs::{lemma_contains_joined, lemma_filter_all, lemma_filter_source};

verus! {

/// One of the files is at the given path.
pub open spec fn has_path(files: Seq<DataFileView>, path: Seq<char>) -> bool {
    exists|i: int| 0 <= i < files.len() && (#[trigger] files[i]).file_path == path
}

/// The paths of the files.
pub open spec fn paths_of(files: Seq<DataFileView>) -> Set<Seq<char>> {
    Set::new(|path: Seq<char>| has_path(files, path))
}

/// Whether one of the files is at the given path.
pub fn contains_path(files: &Vec<DataFile>, path: &String) -> (result: bool)
    ensures
        result == has_path(files_view(files@), path@),
{
    for i in 0..files.len()
        invariant
            forall|j: int| 0 <= j < i ==> (#[trigger] files_view(files@)[j]).file_path != path@,
    {
        if files[i].file_path == *path {
            assert(files_view(files@)[i as int].file_path == path@);
            return true;
        }
    }
    false
}

/// The paths of the files.
pub fn collect_paths(files: &Vec<DataFile>) -> (result: StringHashSet)
    ensures
        result@ == paths_of(files_view(files@)),
{
    let ghost all = files_view(files@);
    let mut paths = StringHashSet::new();
    assert(paths@ =~= paths_of(all.take(0)));
    for i in 0..files.len()
        invariant
            all == files_view(files@),
            paths@ == paths_of(all.take(i as int)),
    {
        let ghost before = paths@;
        paths.insert(files[i].file_path.clone());
        proof {
            let longer = all.take(i + 1);
            assert(all[i as int].file_path == longer[i as int].file_path);
            assert forall|path: Seq<char>|
                before.insert(all[i as int].file_path).contains(path) implies has_path(
                longer,
                path,
            ) by {
                if before.contains(path) {
                    let j = choose|j: int|
                        0 <= j < i && (#[trigger] all.take(i as int)[j]).file_path == path;
                    assert(longer[j].file_path == path);
                }
            }
            assert forall|path: Seq<char>| has_path(longer, path) implies before.insert(
                all[i as int].file_path,
            ).contains(path) by {
                let j = choose|j: int|
                    0 <= j < longer.len() && (#[trigger] longer[j]).file_path == path;
                if j < i {
                    assert(all.take(i as int)[j].file_path == path);
                }
            }
            assert(paths@ =~= paths_of(longer));
        }
    }
    assert(all.take(all.len() as int) =~= all);
    paths
}

/// The entry lists a file that is still there once the files at the given paths
/// are removed.
pub open spec fn survives(entry: ManifestEntryView, removed: Set<Seq<char>>) -> bool {
    entry.alive() && !removed.contains(entry.path())
}

/// One of the entries survives.
pub open spec fn any_survives(
    entries: Seq<ManifestEntryView>,
    removed: Set<Seq<char>>,
) -> bool {
    exists|i: int| 0 <= i < entries.len() && survives(#[trigger] entries[i], removed)
}

/// The entries that survive, as entries of files that were there before.
pub open spec fn survivors(
    entries: Seq<ManifestEntryView>,
    removed: Set<Seq<char>>,
) -> Seq<ManifestEntryView> {
    entries.filter(|entry: ManifestEntryView| survives(entry, removed)).map_values(
        |entry: ManifestEntryView| entry.with_status(ManifestStatus::Existing),
    )
}

/// [`survivors`] of several manifests, in their order.
pub open spec fn all_survivors(
    contents: Seq<Seq<ManifestEntryView>>,
    removed: Set<Seq<char>>,
) -> Seq<ManifestEntryView>
    decreases contents.len(),
{
    if contents.len() == 0 {
        Seq::empty()
    } else {
        all_survivors(contents.drop_last(), removed) + survivors(contents.last(), removed)
    }
}

/// The manifest that takes the place of another one: of the same content and
/// partition spec, with the entries that survive.
pub open spec fn rewritten(
    manifest: ManifestFileView,
    entries: Seq<ManifestEntryView>,
    removed: Set<Seq<char>>,
) -> ManifestDraftView {
    ManifestDraftView {
        content: manifest.content,
        partition_spec_id: manifest.partition_spec_id,
        entries: survivors(entries, removed),
    }
}

/// Whether the entry lists a file that is still there once the files at the given
/// paths are removed.
pub fn entry_survives(entry: &ManifestEntry, removed: &StringHashSet) -> (result: bool)
    ensures
        result == survives(entry@, removed@),
{
    entry.is_alive() && !removed.contains(entry.data_file.file_path.as_str())
}

/// Whether one of the entries survives.
pub fn has_survivor(entries: &Vec<ManifestEntry>, removed: &StringHashSet) -> (result: bool)
    ensures
        result == any_survives(entries_view(entries@), removed@),
{
    for i in 0..entries.len()
        invariant
            forall|j: int|
                0 <= j < i ==> !survives(#[trigger] entries_view(entries@)[j], removed@),
    {
        if entry_survives(&entries[i], removed) {
            assert(survives(entries_view(entries@)[i as int], removed@));
            return true;
        }
    }
    false
}

/// Adding one entry more.
proof fn lemma_survivors_step(
    entries: Seq<ManifestEntryView>,
    removed: Set<Seq<char>>,
    count: int,
)
    requires
        0 <= count < entries.len(),
    ensures
        survivors(entries.take(count + 1), removed) == if survives(entries[count], removed) {
            survivors(entries.take(count), removed).push(
                entries[count].with_status(ManifestStatus::Existing),
            )
        } else {
            survivors(entries.take(count), removed)
        },
{
    reveal(Seq::filter);
    let longer = entries.take(count + 1);
    assert(longer.drop_last() =~= entries.take(count));
    assert(survivors(longer, removed) =~= if survives(entries[count], removed) {
        survivors(entries.take(count), removed).push(
            entries[count].with_status(ManifestStatus::Existing),
        )
    } else {
        survivors(entries.take(count), removed)
    });
}

/// The manifest that takes the place of the given one once the files at the given
/// paths are removed.
pub fn rewrite_manifest(
    manifest: &ManifestFile,
    entries: &Vec<ManifestEntry>,
    removed: &StringHashSet,
) -> (result: ManifestDraft)
    ensures
        result@ == rewritten(manifest@, entries_view(entries@), removed@),
{
    let ghost all = entries_view(entries@);
    let mut draft = ManifestDraft::new(manifest.content, manifest.partition_spec_id);
    assert(draft@ =~= rewritten(manifest@, all.take(0), removed@));
    for i in 0..entries.len()
        invariant
            all == entries_view(entries@),
            draft@ == rewritten(manifest@, all.take(i as int), removed@),
    {
        proof {
            lemma_survivors_step(all, removed@, i as int);
        }
        if entry_survives(&entries[i], removed) {
            draft.add_existing_entry(&entries[i]);
        }
    }
    assert(all.take(all.len() as int) =~= all);
    draft
}

/// Where an entry survives, the entries that survive are not none.
pub(crate) proof fn lemma_survivors_not_empty(
    entries: Seq<ManifestEntryView>,
    removed: Set<Seq<char>>,
)
    requires
        any_survives(entries, removed),
    ensures
        survivors(entries, removed).len() > 0,
{
    broadcast use vstd::seq_lib::group_filter_ensures;

    let surviving = |entry: ManifestEntryView| survives(entry, removed);
    let i = choose|i: int| 0 <= i < entries.len() && survives(#[trigger] entries[i], removed);
    assert(surviving(entries[i]));
    assert(entries.filter(surviving).contains(entries[i]));
}

/// The entries that survive are live.
pub(crate) proof fn lemma_survivors_alive(
    entries: Seq<ManifestEntryView>,
    removed: Set<Seq<char>>,
)
    ensures
        survivors(entries, removed).filter(|entry: ManifestEntryView| entry.alive()) == survivors(
            entries,
            removed,
        ),
{
    lemma_filter_all(
        survivors(entries, removed),
        |entry: ManifestEntryView| entry.alive(),
    );
}

/// An entry that survives in one of several manifests is among the survivors of all.
pub(crate) proof fn lemma_all_survivors_contain(
    contents: Seq<Seq<ManifestEntryView>>,
    removed: Set<Seq<char>>,
    manifest: int,
    at: int,
)
    requires
        0 <= manifest < contents.len(),
        0 <= at < contents[manifest].len(),
        survives(contents[manifest][at], removed),
    ensures
        all_survivors(contents, removed).contains(
            contents[manifest][at].with_status(ManifestStatus::Existing),
        ),
    decreases contents.len(),
{
    broadcast use vstd::seq_lib::group_filter_ensures;

    let entry = contents[manifest][at];
    let before = contents.drop_last();
    lemma_contains_joined(
        all_survivors(before, removed),
        survivors(contents.last(), removed),
        entry.with_status(ManifestStatus::Existing),
    );
    if manifest < before.len() {
        lemma_all_survivors_contain(before, removed, manifest, at);
    } else {
        let surviving = |entry: ManifestEntryView| survives(entry, removed);
        let left = contents.last().filter(surviving);
        assert(surviving(entry));
        assert(left.contains(entry));
        let i = choose|i: int| 0 <= i < left.len() && left[i] == entry;
        assert(survivors(contents.last(), removed)[i] == entry.with_status(
            ManifestStatus::Existing,
        ));
    }
}

/// An entry that survives is one of the manifest, with its file, its snapshot id and
/// its sequence numbers as the manifest has them.
pub proof fn law_survivors_keep_numbers(
    entries: Seq<ManifestEntryView>,
    removed: Set<Seq<char>>,
    at: int,
)
    requires
        0 <= at < survivors(entries, removed).len(),
    ensures
        exists|i: int|
            0 <= i < entries.len() && survives(#[trigger] entries[i], removed) && survivors(
                entries,
                removed,
            )[at] == entries[i].with_status(ManifestStatus::Existing),
{
    let source = lemma_filter_source(
        entries,
        |entry: ManifestEntryView| survives(entry, removed),
        at,
    );
    assert(survives(entries[source], removed));
}

} // verus!
