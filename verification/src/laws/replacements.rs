//! Replacing files, from the files that an action is given to the manifests of the new
//! snapshot.
use std::collections::HashMap;

use uuid::Uuid;
use vstd::prelude::*;

use crate::data_file::{files_view, DataContentType, DataFile, DataFileView};
use crate::error::{Error, ErrorKind};
use crate::laws::files::{lemma_has_path, lemma_survivors_said_directly};
use crate::laws::runs::{lemma_delete_run, lemma_existing_run, DeleteRun, ExistingRun};
use crate::manifest::{
    entries_view, manifests_view, ManifestEntry, ManifestEntryView, ManifestFile, ManifestFileView,
    ManifestStatus,
};
use crate::removal::{any_survives, has_path, survives};
use crate::replace_files::{
    NewDeletesCheck, Overwrite, ReplaceFilesAction, ReplaceFilesMode, ReplaceFilesOperation,
    ReplaceFilesView, ReplacedFiles, Rewrite,
};
use crate::seqs::{
    lemma_filter_agree, lemma_filter_source, lemma_flatten_contains, lemma_flatten_source,
};
use crate::snapshot::{Operation, SnapshotProducer};
use crate::walk::{
    carried_from, deleted_in, DeleteEntries, ExistingManifests, ManifestFateView, RemovalRule,
};

verus! {

/// The calls that give a new action its files.
pub struct ReplacementCalls<M: ReplaceFilesMode> {
    pub deleted_files: Vec<DataFile>,
    pub added_files: Vec<DataFile>,
    pub empty: ReplaceFilesAction<M>,
    pub with_deleted_files: ReplaceFilesAction<M>,
    pub action: ReplaceFilesAction<M>,
}

impl<M: ReplaceFilesMode> ReplacementCalls<M> {
    /// The action comes of giving a new one files to delete and files to add.
    pub open spec fn made(self) -> bool {
        &&& call_ensures(ReplaceFilesAction::<M>::new, (), self.empty)
        &&& call_ensures(
            ReplaceFilesAction::<M>::delete_data_files,
            (self.empty, self.deleted_files),
            Ok::<ReplaceFilesAction<M>, Error>(self.with_deleted_files),
        )
        &&& call_ensures(
            ReplaceFilesAction::<M>::add_data_files,
            (self.with_deleted_files, self.added_files),
            Ok::<ReplaceFilesAction<M>, Error>(self.action),
        )
    }
}

/// A new action has no files and no settings.
pub proof fn law_new_replacements_are_empty<M: ReplaceFilesMode>(
    action: ReplaceFilesAction<M>,
    other: ReplaceFilesAction<M>,
)
    requires
        call_ensures(ReplaceFilesAction::<M>::new, (), action),
        call_ensures(ReplaceFilesAction::<M>::default, (), other),
    ensures
        action@.commit_uuid is None,
        action@.key_metadata is None,
        forall|key: String| !action@.snapshot_properties.contains_key(key),
        action@.added_data_files.len() == 0,
        action@.added_delete_files.len() == 0,
        action@.deleted_data_files.len() == 0,
        action@.deleted_delete_files.len() == 0,
        action@.data_sequence_number is None,
        action@.starting_snapshot_id is None,
        !action@.full_table_overwrite,
        other@ == action@,
{
}

/// Files that an action is given are always taken.  By their content they go to the end
/// of its data files or to the end of its delete files, in their order.
pub proof fn law_replacements_collect_files<M: ReplaceFilesMode>(
    action: ReplaceFilesAction<M>,
    files: Vec<DataFile>,
    adding: Result<ReplaceFilesAction<M>, Error>,
    deleting: Result<ReplaceFilesAction<M>, Error>,
)
    requires
        call_ensures(ReplaceFilesAction::<M>::add_data_files, (action, files), adding),
        call_ensures(ReplaceFilesAction::<M>::delete_data_files, (action, files), deleting),
    ensures
        adding is Ok,
        deleting is Ok,
        ({
            let given = files@.map_values(|file: DataFile| file@);
            let data_files = given.filter(
                |file: DataFileView| file.content == DataContentType::Data,
            );
            let delete_files = given.filter(
                |file: DataFileView| file.content != DataContentType::Data,
            );
            &&& adding->Ok_0@ == (ReplaceFilesView {
                added_data_files: action@.added_data_files + data_files,
                added_delete_files: action@.added_delete_files + delete_files,
                ..action@
            })
            &&& deleting->Ok_0@ == (ReplaceFilesView {
                deleted_data_files: action@.deleted_data_files + data_files,
                deleted_delete_files: action@.deleted_delete_files + delete_files,
                ..action@
            })
        }),
{
}

/// A setting takes the place of an earlier one, and leaves everything else as it is.
pub proof fn law_replacement_settings_are_kept<M: ReplaceFilesMode>(
    action: ReplaceFilesAction<M>,
    commit_uuid: Uuid,
    with_uuid: ReplaceFilesAction<M>,
    key_metadata: Vec<u8>,
    with_key_metadata: ReplaceFilesAction<M>,
    snapshot_properties: HashMap<String, String>,
    with_properties: ReplaceFilesAction<M>,
    number: i64,
    with_sequence_number: ReplaceFilesAction<M>,
    with_starting_snapshot: ReplaceFilesAction<M>,
)
    requires
        call_ensures(ReplaceFilesAction::<M>::set_commit_uuid, (action, commit_uuid), with_uuid),
        call_ensures(
            ReplaceFilesAction::<M>::set_key_metadata,
            (action, key_metadata),
            with_key_metadata,
        ),
        call_ensures(
            ReplaceFilesAction::<M>::set_snapshot_properties,
            (action, snapshot_properties),
            with_properties,
        ),
        call_ensures(
            ReplaceFilesAction::<M>::set_data_sequence_number,
            (action, number),
            with_sequence_number,
        ),
        call_ensures(
            ReplaceFilesAction::<M>::set_starting_snapshot_id,
            (action, number),
            with_starting_snapshot,
        ),
    ensures
        with_uuid@ == (ReplaceFilesView { commit_uuid: Some(commit_uuid), ..action@ }),
        with_key_metadata@ == (ReplaceFilesView { key_metadata: Some(key_metadata@), ..action@ }),
        with_properties@ == (ReplaceFilesView {
            snapshot_properties: snapshot_properties@,
            ..action@
        }),
        with_sequence_number@ == (ReplaceFilesView {
            data_sequence_number: Some(number),
            ..action@
        }),
        with_starting_snapshot@ == (ReplaceFilesView {
            starting_snapshot_id: Some(number),
            ..action@
        }),
{
}

/// Marking an overwrite as replacing the complete table leaves everything else as it is.
pub proof fn law_full_overwrites_are_marked(
    action: ReplaceFilesAction<Overwrite>,
    marked: ReplaceFilesAction<Overwrite>,
)
    requires
        call_ensures(ReplaceFilesAction::<Overwrite>::full_table_overwrite, (action,), marked),
    ensures
        marked@ == (ReplaceFilesView { full_table_overwrite: true, ..action@ }),
{
}

/// Committing an action hands over what the action was given: its added and deleted
/// files by kind, its settings, and its data sequence number for the added data files.
/// The operation tells whether the complete table is replaced.
pub proof fn law_replacements_hand_over_what_they_were_given<M: ReplaceFilesMode>(
    action: ReplaceFilesAction<M>,
    commit_uuid: Uuid,
    committed: (SnapshotProducer, ReplaceFilesOperation<M>),
    is_full: bool,
    recorded: Operation,
)
    requires
        call_ensures(ReplaceFilesAction::<M>::commit_as, (&action, commit_uuid), committed),
        call_ensures(
            ReplaceFilesOperation::<M>::is_full_table_overwrite,
            (&committed.1,),
            is_full,
        ),
        call_ensures(ReplaceFilesOperation::<M>::operation, (&committed.1,), recorded),
    ensures
        committed.0.commit_uuid == commit_uuid,
        committed.0@.key_metadata == action@.key_metadata,
        committed.0@.snapshot_properties == action@.snapshot_properties,
        committed.0@.added_data_files == action@.added_data_files,
        committed.0@.added_delete_files == action@.added_delete_files,
        committed.0@.deleted_data_files == action@.deleted_data_files,
        committed.0@.deleted_delete_files == action@.deleted_delete_files,
        committed.0.added_data_sequence_number == action@.data_sequence_number,
        is_full == action@.full_table_overwrite,
        recorded == M::OPERATION,
{
}

/// A rewrite is recorded as a replacement, and an overwrite as an overwrite, whatever
/// they were given.
pub proof fn law_modes_decide_what_is_recorded(
    rewrite: ReplaceFilesOperation<Rewrite>,
    rewrite_recorded: Operation,
    overwrite: ReplaceFilesOperation<Overwrite>,
    overwrite_recorded: Operation,
)
    requires
        call_ensures(ReplaceFilesOperation::<Rewrite>::operation, (&rewrite,), rewrite_recorded),
        call_ensures(
            ReplaceFilesOperation::<Overwrite>::operation,
            (&overwrite,),
            overwrite_recorded,
        ),
    ensures
        rewrite_recorded == Operation::Replace,
        overwrite_recorded == Operation::Overwrite,
{
}

/// Committing under the UUID that was set, or under a new one, differs in nothing else
/// from committing under a given UUID.
pub proof fn law_replacements_are_committed_under_their_uuid<M: ReplaceFilesMode>(
    action: ReplaceFilesAction<M>,
    committed: (SnapshotProducer, ReplaceFilesOperation<M>),
    committed_as: (SnapshotProducer, ReplaceFilesOperation<M>),
)
    requires
        call_ensures(ReplaceFilesAction::<M>::commit, (&action,), committed),
        call_ensures(
            ReplaceFilesAction::<M>::commit_as,
            (&action, committed.0.commit_uuid),
            committed_as,
        ),
    ensures
        action@.commit_uuid matches Some(commit_uuid) ==> committed.0.commit_uuid == commit_uuid,
        committed_as.0@ == committed.0@,
        committed_as.1@ == committed.1@,
{
}

/// A committed replacement is rejected exactly if it deletes nothing, adds data files
/// without deleting any, or adds delete files without deleting any.  Else, whenever it
/// deletes data files, a check for new row-level deletes is asked for that covers exactly
/// these data files, between the starting snapshot and the parent snapshot.
pub proof fn law_replacements_are_checked<M: ReplaceFilesMode>(
    action: ReplaceFilesAction<M>,
    committed: (SnapshotProducer, ReplaceFilesOperation<M>),
    parent_snapshot_id: Option<i64>,
    result: Result<Option<NewDeletesCheck>, Error>,
)
    requires
        call_ensures(ReplaceFilesAction::<M>::commit, (&action,), committed) || call_ensures(
            ReplaceFilesAction::<M>::commit_as,
            (&action, committed.0.commit_uuid),
            committed,
        ),
        call_ensures(
            ReplaceFilesOperation::<M>::validate,
            (&committed.1, parent_snapshot_id),
            result,
        ),
    ensures
        ({
            let deletes_data = action@.deleted_data_files.len() > 0;
            let deletes_deletes = action@.deleted_delete_files.len() > 0;
            let adds_data = action@.added_data_files.len() > 0;
            let adds_deletes = action@.added_delete_files.len() > 0;
            &&& result is Err <==> (!deletes_data && !deletes_deletes) || (adds_data
                && !deletes_data) || (adds_deletes && !deletes_deletes)
            &&& result matches Err(error) ==> {
                &&& error.kind == ErrorKind::DataInvalid
                &&& error.message@ == if !deletes_data && !deletes_deletes {
                    "Files to delete cannot be empty"@
                } else if !deletes_data {
                    "Data files to add must be empty because there's no data file to be rewritten"@
                } else {
                    "Delete files to add must be empty because there's no delete file to be rewritten"@
                }
            }
            &&& result matches Ok(check) ==> (check is Some <==> deletes_data)
            &&& result matches Ok(Some(check)) ==> {
                &&& check.starting_snapshot_id == action@.starting_snapshot_id
                &&& check.parent_snapshot_id == parent_snapshot_id
                &&& check.data_files@.map_values(|file: DataFile| file@)
                    == action@.deleted_data_files
                &&& check.has_data_sequence_number <==> action@.data_sequence_number is Some
            }
        }),
{
    if let Ok(Some(check)) = result {
        assert(check@.data_files == check.data_files@.map_values(|file: DataFile| file@));
    }
}

/// The action has the files that it was given.
proof fn lemma_calls<M: ReplaceFilesMode>(calls: ReplacementCalls<M>)
    requires
        calls.made(),
    ensures
        calls.action@.deleted_data_files == files_view(calls.deleted_files@).filter(
            |file: DataFileView| file.content == DataContentType::Data,
        ),
        calls.action@.deleted_delete_files == files_view(calls.deleted_files@).filter(
            |file: DataFileView| file.content != DataContentType::Data,
        ),
        calls.action@.added_data_files == files_view(calls.added_files@).filter(
            |file: DataFileView| file.content == DataContentType::Data,
        ),
        calls.action@.added_delete_files == files_view(calls.added_files@).filter(
            |file: DataFileView| file.content != DataContentType::Data,
        ),
        calls.action@.starting_snapshot_id is None,
        calls.action@.data_sequence_number is None,
{
    let is_data = |file: DataFileView| file.content == DataContentType::Data;
    let is_deletes = |file: DataFileView| file.content != DataContentType::Data;
    let deleted = files_view(calls.deleted_files@);
    let added = files_view(calls.added_files@);
    assert(calls.action@.deleted_data_files =~= deleted.filter(is_data));
    assert(calls.action@.deleted_delete_files =~= deleted.filter(is_deletes));
    assert(calls.action@.added_data_files =~= added.filter(is_data));
    assert(calls.action@.added_delete_files =~= added.filter(is_deletes));
}

/// A file of a kind is among some files exactly if it is among those of its kind.
proof fn lemma_any_of_kind(files: Seq<DataFile>, data: bool)
    ensures
        files_view(files).filter(
            |file: DataFileView| (file.content == DataContentType::Data) == data,
        ).len() > 0 <==> exists|k: int|
            0 <= k < files.len() && ((#[trigger] files[k]).content == DataContentType::Data)
                == data,
{
    broadcast use vstd::seq_lib::group_filter_ensures;

    let of_kind = |file: DataFileView| (file.content == DataContentType::Data) == data;
    let left = files_view(files).filter(of_kind);
    if left.len() > 0 {
        let k = lemma_filter_source(files_view(files), of_kind, 0);
        assert((files[k].content == DataContentType::Data) == data);
    }
    if exists|k: int|
        0 <= k < files.len() && ((#[trigger] files[k]).content == DataContentType::Data) == data {
        let k = choose|k: int|
            0 <= k < files.len() && ((#[trigger] files[k]).content == DataContentType::Data)
                == data;
        assert(of_kind(files_view(files)[k]));
        assert(left.contains(files_view(files)[k]));
    }
}

proof fn lemma_kinds(files: Seq<DataFileView>)
    ensures
        files.filter(|file: DataFileView| file.content == DataContentType::Data) == files.filter(
            |file: DataFileView| (file.content == DataContentType::Data) == true,
        ),
        files.filter(|file: DataFileView| file.content != DataContentType::Data) == files.filter(
            |file: DataFileView| (file.content == DataContentType::Data) == false,
        ),
{
    lemma_filter_agree(
        files,
        |file: DataFileView| file.content == DataContentType::Data,
        |file: DataFileView| (file.content == DataContentType::Data) == true,
    );
    lemma_filter_agree(
        files,
        |file: DataFileView| file.content != DataContentType::Data,
        |file: DataFileView| (file.content == DataContentType::Data) == false,
    );
}

/// The same for an action that was given its files from the start: whenever a data file is
/// among the files to delete, whatever else is deleted or added, the replacement is
/// rejected or the check covers exactly the data files to delete.
pub proof fn law_given_files_decide_the_check<M: ReplaceFilesMode>(
    calls: ReplacementCalls<M>,
    committed: (SnapshotProducer, ReplaceFilesOperation<M>),
    parent_snapshot_id: Option<i64>,
    result: Result<Option<NewDeletesCheck>, Error>,
)
    requires
        calls.made(),
        call_ensures(ReplaceFilesAction::<M>::commit, (&calls.action,), committed),
        call_ensures(
            ReplaceFilesOperation::<M>::validate,
            (&committed.1, parent_snapshot_id),
            result,
        ),
    ensures
        ({
            let has = |files: Seq<DataFile>, data: bool|
                exists|k: int|
                    0 <= k < files.len() && ((#[trigger] files[k]).content
                        == DataContentType::Data) == data;
            let deleted = calls.deleted_files@;
            let added = calls.added_files@;
            &&& result is Ok <==> deleted.len() > 0 && (has(added, true) ==> has(deleted, true))
                && (has(added, false) ==> has(deleted, false))
            &&& result matches Ok(check) ==> (check is Some <==> has(deleted, true))
            &&& result matches Ok(Some(check)) ==> {
                &&& check.starting_snapshot_id is None
                &&& check.parent_snapshot_id == parent_snapshot_id
                &&& !check.has_data_sequence_number
                &&& check.data_files@.map_values(|file: DataFile| file@) == deleted.map_values(
                    |file: DataFile| file@,
                ).filter(|file: DataFileView| file.content == DataContentType::Data)
            }
        }),
{
    lemma_calls(calls);
    law_replacements_are_checked(calls.action, committed, parent_snapshot_id, result);
    let deleted = calls.deleted_files@;
    let added = calls.added_files@;
    lemma_kinds(files_view(deleted));
    lemma_kinds(files_view(added));
    lemma_any_of_kind(deleted, true);
    lemma_any_of_kind(deleted, false);
    lemma_any_of_kind(added, true);
    lemma_any_of_kind(added, false);
    if deleted.len() > 0 {
        if deleted[0].content == DataContentType::Data {
            assert((deleted[0].content == DataContentType::Data) == true);
        } else {
            assert((deleted[0].content == DataContentType::Data) == false);
        }
    }
}

/// Which entries a replacement replaces, by the paths of the files.
proof fn lemma_replaces_said_directly<'a>(rule: ReplacedFiles<'a>, entry: ManifestEntryView)
    ensures
        rule.replaces(entry) <==> if entry.data_file.content == DataContentType::Data {
            exists|k: int|
                0 <= k < rule.deleted_data_files@.len() && (
                #[trigger] rule.deleted_data_files@[k]).file_path@ == entry.data_file.file_path
        } else {
            exists|k: int|
                0 <= k < rule.deleted_delete_files@.len() && (
                #[trigger] rule.deleted_delete_files@[k]).file_path@ == entry.data_file.file_path
        },
{
    lemma_has_path(rule.deleted_data_files@, entry.data_file.file_path);
    lemma_has_path(rule.deleted_delete_files@, entry.data_file.file_path);
}

/// What becomes of a manifest, by which of its entries are replaced.
proof fn lemma_fate_said_directly<'a>(
    rule: ReplacedFiles<'a>,
    replaced: spec_fn(ManifestEntryView) -> bool,
    gone: spec_fn(Seq<char>) -> bool,
    manifest: ManifestFileView,
    entries: Seq<ManifestEntryView>,
)
    requires
        forall|entry: ManifestEntryView| #[trigger] replaced(entry) == rule.replaces(entry),
        forall|path: Seq<char>| #[trigger]
            gone(path) <==> exists|j: int|
                0 <= j < entries.len() && (#[trigger] entries[j]).data_file.file_path == path
                    && replaced(entries[j]),
    ensures
        ({
            let any_gone = exists|j: int|
                0 <= j < entries.len() && replaced(#[trigger] entries[j]);
            let any_left = exists|j: int|
                0 <= j < entries.len() && (#[trigger] entries[j]).status != ManifestStatus::Deleted
                    && !gone(entries[j].data_file.file_path);
            let live = manifest.has_added_files || manifest.has_existing_files;
            match rule.fate(manifest, entries) {
                ManifestFateView::Keep => !any_gone && live,
                ManifestFateView::Rewrite(draft) => {
                    &&& any_gone || !live
                    &&& any_left
                    &&& draft.content == manifest.content
                    &&& draft.partition_spec_id == manifest.partition_spec_id
                    &&& draft.entries == entries.filter(
                        |entry: ManifestEntryView|
                            entry.status != ManifestStatus::Deleted && !gone(
                                entry.data_file.file_path,
                            ),
                    ).map_values(
                        |entry: ManifestEntryView|
                            ManifestEntryView { status: ManifestStatus::Existing, ..entry },
                    )
                },
                ManifestFateView::Drop => (any_gone || !live) && !any_left,
            }
        }),
{
    let any_gone = exists|j: int| 0 <= j < entries.len() && replaced(#[trigger] entries[j]);
    let any_left = exists|j: int|
        0 <= j < entries.len() && (#[trigger] entries[j]).status != ManifestStatus::Deleted
            && !gone(entries[j].data_file.file_path);
    let found = rule.found(entries);
    assert forall|path: Seq<char>| found.contains(path) == #[trigger] gone(path) by {
        if found.contains(path) {
            let j = choose|j: int|
                0 <= j < entries.len() && (#[trigger] entries[j]).path() == path && rule.replaces(
                    entries[j],
                );
            assert(entries[j].data_file.file_path == path && replaced(entries[j]));
        }
        if gone(path) {
            let j = choose|j: int|
                0 <= j < entries.len() && (#[trigger] entries[j]).data_file.file_path == path
                    && replaced(entries[j]);
            assert(entries[j].path() == path && rule.replaces(entries[j]));
        }
    }
    if any_gone {
        let j = choose|j: int| 0 <= j < entries.len() && replaced(#[trigger] entries[j]);
        assert(gone(entries[j].data_file.file_path));
        assert(found.contains(entries[j].data_file.file_path));
    }
    if !found.is_empty() {
        let path = found.choose();
        assert(found.contains(path));
        assert(gone(path));
    }
    if any_left {
        let j = choose|j: int|
            0 <= j < entries.len() && (#[trigger] entries[j]).status != ManifestStatus::Deleted
                && !gone(entries[j].data_file.file_path);
        assert(survives(entries[j], found));
    }
    if any_survives(entries, found) {
        let j = choose|j: int| 0 <= j < entries.len() && survives(#[trigger] entries[j], found);
        assert(!gone(entries[j].data_file.file_path));
    }
    lemma_survivors_said_directly(entries, found);
    lemma_filter_agree(
        entries,
        |entry: ManifestEntryView|
            entry.status != ManifestStatus::Deleted && !found.contains(entry.data_file.file_path),
        |entry: ManifestEntryView|
            entry.status != ManifestStatus::Deleted && !gone(entry.data_file.file_path),
    );
}

/// A replacement records as deleted, in the order of the manifests and of the entries in
/// them, a copy of each entry of a data file at the path of a deleted data file, and of
/// each entry of a delete file at the path of a deleted delete file.  The copies differ
/// from the entries in status only.
pub proof fn law_replacements_record_deleted_files<'a, M: ReplaceFilesMode>(
    operation: ReplaceFilesOperation<M>,
    producer: &'a SnapshotProducer,
    has_current_snapshot: bool,
    start: DeleteEntries<ReplacedFiles<'a>>,
    run: DeleteRun<ReplacedFiles<'a>>,
    lists: spec_fn(ManifestFileView) -> Seq<ManifestEntryView>,
    recorded: Vec<ManifestEntry>,
)
    requires
        call_ensures(
            ReplaceFilesOperation::<M>::delete_entries,
            (&operation, producer, has_current_snapshot),
            start,
        ),
        run.leads(lists, start, recorded),
    ensures
        !has_current_snapshot ==> recorded@.len() == 0,
        has_current_snapshot ==> entries_view(recorded@) == run.list@.map_values(
            |manifest: ManifestFile|
                lists(manifest@).filter(
                    |entry: ManifestEntryView|
                        if entry.data_file.content == DataContentType::Data {
                            exists|k: int|
                                0 <= k < producer.deleted_data_files@.len() && (
                                #[trigger] producer.deleted_data_files@[k]).file_path@
                                    == entry.data_file.file_path
                        } else {
                            exists|k: int|
                                0 <= k < producer.deleted_delete_files@.len() && (
                                #[trigger] producer.deleted_delete_files@[k]).file_path@
                                    == entry.data_file.file_path
                        },
                ).map_values(
                    |entry: ManifestEntryView|
                        ManifestEntryView { status: ManifestStatus::Deleted, ..entry },
                ),
        ).flatten(),
{
    if !has_current_snapshot {
        assert(run.states.len() == 1) by {
            if run.states.len() > 1 {
                assert(run.goes_on(lists, 0));
            }
        }
        assert(entries_view(recorded@).len() == recorded@.len());
    } else {
        let direct = |entry: ManifestEntryView|
            if entry.data_file.content == DataContentType::Data {
                exists|k: int|
                    0 <= k < producer.deleted_data_files@.len() && (
                    #[trigger] producer.deleted_data_files@[k]).file_path@
                        == entry.data_file.file_path
            } else {
                exists|k: int|
                    0 <= k < producer.deleted_delete_files@.len() && (
                    #[trigger] producer.deleted_delete_files@[k]).file_path@
                        == entry.data_file.file_path
            };
        let as_deleted = |entry: ManifestEntryView|
            ManifestEntryView { status: ManifestStatus::Deleted, ..entry };
        let parts = run.list@.map_values(
            |manifest: ManifestFile| lists(manifest@).filter(direct).map_values(as_deleted),
        );
        let rule = start@->LoadManifestList_0;
        lemma_delete_run(run, lists, start, rule, recorded);
        let stated = run.contents(lists).map_values(
            |entries: Seq<ManifestEntryView>| deleted_in(rule, entries),
        );
        assert forall|i: int| 0 <= i < parts.len() implies #[trigger] parts[i] == stated[i] by {
            let entries = lists(run.list@[i]@);
            let deleting = |entry: ManifestEntryView| rule.deletes(entry);
            assert forall|j: int| 0 <= j < entries.len() implies deleting(#[trigger] entries[j])
                == direct(entries[j]) by {
                lemma_replaces_said_directly(rule, entries[j]);
            }
            lemma_filter_agree(entries, deleting, direct);
            assert(deleted_in(rule, entries) =~= entries.filter(direct).map_values(as_deleted));
        }
        assert(parts =~= stated);
    }
}

/// What a replacement carries over, manifest by manifest: a manifest without replaced
/// entries is carried over as it is, if the manifest list says that it has live files;
/// another one is replaced by a manifest of the same content and partition spec with
/// those of its live entries whose path is not that of a replaced entry in it, if there
/// are any.  `written` has the replacements.
pub proof fn law_replacements_carry_over_manifests<'a, M: ReplaceFilesMode>(
    operation: ReplaceFilesOperation<M>,
    producer: &'a SnapshotProducer,
    has_current_snapshot: bool,
    start: ExistingManifests<ReplacedFiles<'a>>,
    run: ExistingRun<ReplacedFiles<'a>>,
    lists: spec_fn(ManifestFileView) -> Seq<ManifestEntryView>,
    carried: Vec<ManifestFile>,
) -> (written: Seq<ManifestFileView>)
    requires
        call_ensures(
            ReplaceFilesOperation::<M>::existing_manifest,
            (&operation, producer, has_current_snapshot),
            start,
        ),
        run.leads(lists, start, carried),
    ensures
        !has_current_snapshot ==> carried@.len() == 0,
        has_current_snapshot ==> {
            let replaced = |entry: ManifestEntryView|
                if entry.data_file.content == DataContentType::Data {
                    exists|k: int|
                        0 <= k < producer.deleted_data_files@.len() && (
                        #[trigger] producer.deleted_data_files@[k]).file_path@
                            == entry.data_file.file_path
                } else {
                    exists|k: int|
                        0 <= k < producer.deleted_delete_files@.len() && (
                        #[trigger] producer.deleted_delete_files@[k]).file_path@
                            == entry.data_file.file_path
                };
            let gone = |entries: Seq<ManifestEntryView>, path: Seq<char>|
                exists|j: int|
                    0 <= j < entries.len() && (#[trigger] entries[j]).data_file.file_path == path
                        && replaced(entries[j]);
            let is_kept = |i: int|
                {
                    &&& run.list@[i].has_added_files || run.list@[i].has_existing_files
                    &&& forall|j: int|
                        0 <= j < lists(run.list@[i]@).len() ==> !replaced(
                            #[trigger] lists(run.list@[i]@)[j],
                        )
                };
            let any_left = |entries: Seq<ManifestEntryView>|
                exists|j: int|
                    0 <= j < entries.len() && (#[trigger] entries[j]).status
                        != ManifestStatus::Deleted && !gone(
                        entries,
                        entries[j].data_file.file_path,
                    );
            &&& written.len() == run.list@.len()
            &&& manifests_view(carried@) == Seq::new(
                run.list@.len(),
                |i: int|
                    if is_kept(i) {
                        seq![run.list@[i]@]
                    } else if any_left(lists(run.list@[i]@)) {
                        seq![written[i]]
                    } else {
                        Seq::empty()
                    },
            ).flatten()
            &&& forall|i: int|
                0 <= i < run.list@.len() && !is_kept(i) && any_left(
                    lists((#[trigger] run.list@[i])@),
                ) ==> {
                    &&& written[i].content == run.list@[i].content
                    &&& written[i].partition_spec_id == run.list@[i].partition_spec_id
                    &&& lists(written[i]) == lists(run.list@[i]@).filter(
                        |entry: ManifestEntryView|
                            entry.status != ManifestStatus::Deleted && !gone(
                                lists(run.list@[i]@),
                                entry.data_file.file_path,
                            ),
                    ).map_values(
                        |entry: ManifestEntryView|
                            ManifestEntryView { status: ManifestStatus::Existing, ..entry },
                    )
                }
        },
{
    if !has_current_snapshot {
        assert(run.states.len() == 1) by {
            if run.states.len() > 1 {
                assert(run.goes_on(lists, 0));
            }
        }
        assert(manifests_view(carried@).len() == carried@.len());
        manifests_view(run.list@)
    } else {
        let rule = start@->LoadManifestList_0;
        let written = lemma_existing_run(run, lists, start, rule, carried);
        let replaced = |entry: ManifestEntryView|
            if entry.data_file.content == DataContentType::Data {
                exists|k: int|
                    0 <= k < producer.deleted_data_files@.len() && (
                    #[trigger] producer.deleted_data_files@[k]).file_path@
                        == entry.data_file.file_path
            } else {
                exists|k: int|
                    0 <= k < producer.deleted_delete_files@.len() && (
                    #[trigger] producer.deleted_delete_files@[k]).file_path@
                        == entry.data_file.file_path
            };
        let gone = |entries: Seq<ManifestEntryView>, path: Seq<char>|
            exists|j: int|
                0 <= j < entries.len() && (#[trigger] entries[j]).data_file.file_path == path
                    && replaced(entries[j]);
        let is_kept = |i: int|
            {
                &&& run.list@[i].has_added_files || run.list@[i].has_existing_files
                &&& forall|j: int|
                    0 <= j < lists(run.list@[i]@).len() ==> !replaced(
                        #[trigger] lists(run.list@[i]@)[j],
                    )
            };
        let any_left = |entries: Seq<ManifestEntryView>|
            exists|j: int|
                0 <= j < entries.len() && (#[trigger] entries[j]).status
                    != ManifestStatus::Deleted && !gone(entries, entries[j].data_file.file_path);
        assert forall|entry: ManifestEntryView| #[trigger] replaced(entry) == rule.replaces(
            entry,
        ) by {
            lemma_replaces_said_directly(rule, entry);
        }
        let stated = Seq::new(
            run.list@.len(),
            |i: int|
                carried_from(
                    rule.fate(run.list@[i]@, lists(run.list@[i]@)),
                    run.list@[i]@,
                    written[i],
                ),
        );
        let direct = Seq::new(
            run.list@.len(),
            |i: int|
                if is_kept(i) {
                    seq![run.list@[i]@]
                } else if any_left(lists(run.list@[i]@)) {
                    seq![written[i]]
                } else {
                    Seq::empty()
                },
        );
        assert forall|i: int| 0 <= i < run.list@.len() implies {
            &&& #[trigger] stated[i] == direct[i]
            &&& !is_kept(i) && any_left(lists(run.list@[i]@)) ==> {
                &&& written[i].content == run.list@[i].content
                &&& written[i].partition_spec_id == run.list@[i].partition_spec_id
                &&& lists(written[i]) == lists(run.list@[i]@).filter(
                    |entry: ManifestEntryView|
                        entry.status != ManifestStatus::Deleted && !gone(
                            lists(run.list@[i]@),
                            entry.data_file.file_path,
                        ),
                ).map_values(
                    |entry: ManifestEntryView|
                        ManifestEntryView { status: ManifestStatus::Existing, ..entry },
                )
            }
        } by {
            let entries = lists(run.list@[i]@);
            let gone_here = |path: Seq<char>| gone(entries, path);
            lemma_fate_said_directly(rule, replaced, gone_here, run.list@[i]@, entries);
            lemma_filter_agree(
                entries,
                |entry: ManifestEntryView|
                    entry.status != ManifestStatus::Deleted && !gone_here(
                        entry.data_file.file_path,
                    ),
                |entry: ManifestEntryView|
                    entry.status != ManifestStatus::Deleted && !gone(
                        entries,
                        entry.data_file.file_path,
                    ),
            );
            if any_left(entries) {
                let j = choose|j: int|
                    0 <= j < entries.len() && (#[trigger] entries[j]).status
                        != ManifestStatus::Deleted && !gone(
                        entries,
                        entries[j].data_file.file_path,
                    );
                assert(!gone_here(entries[j].data_file.file_path));
            }
        }
        assert(stated =~= direct);
        assert forall|i: int|
            0 <= i < run.list@.len() && !is_kept(i) && any_left(
                lists((#[trigger] run.list@[i])@),
            ) implies {
            &&& written[i].content == run.list@[i].content
            &&& written[i].partition_spec_id == run.list@[i].partition_spec_id
            &&& lists(written[i]) == lists(run.list@[i]@).filter(
                |entry: ManifestEntryView|
                    entry.status != ManifestStatus::Deleted && !gone(
                        lists(run.list@[i]@),
                        entry.data_file.file_path,
                    ),
            ).map_values(
                |entry: ManifestEntryView|
                    ManifestEntryView { status: ManifestStatus::Existing, ..entry },
            )
        } by {
            assert(stated[i] == direct[i]);
        }
        written
    }
}

/// A file of the kind of the entry, at its path, was given to be deleted.
spec fn is_deleted(deleted: Seq<DataFile>, entry: ManifestEntryView) -> bool {
    exists|k: int|
        0 <= k < deleted.len() && (#[trigger] deleted[k]).file_path@ == entry.data_file.file_path
            && (deleted[k].content == DataContentType::Data) == (entry.data_file.content
            == DataContentType::Data)
}

/// The files that a committed action deletes are those it was given for that.
proof fn lemma_deleted_files<M: ReplaceFilesMode>(
    calls: ReplacementCalls<M>,
    committed: (SnapshotProducer, ReplaceFilesOperation<M>),
    entry: ManifestEntryView,
)
    requires
        calls.made(),
        call_ensures(ReplaceFilesAction::<M>::commit, (&calls.action,), committed),
    ensures
        is_deleted(calls.deleted_files@, entry) <==> if entry.data_file.content
            == DataContentType::Data {
            exists|k: int|
                0 <= k < committed.0.deleted_data_files@.len() && (
                #[trigger] committed.0.deleted_data_files@[k]).file_path@
                    == entry.data_file.file_path
        } else {
            exists|k: int|
                0 <= k < committed.0.deleted_delete_files@.len() && (
                #[trigger] committed.0.deleted_delete_files@[k]).file_path@
                    == entry.data_file.file_path
        },
{
    broadcast use vstd::seq_lib::group_filter_ensures;

    lemma_calls(calls);
    let given = calls.deleted_files@;
    let path = entry.data_file.file_path;
    let data = entry.data_file.content == DataContentType::Data;
    let deleted = if data {
        committed.0.deleted_data_files@
    } else {
        committed.0.deleted_delete_files@
    };
    let of_kind = |file: DataFileView| (file.content == DataContentType::Data) == data;
    lemma_kinds(files_view(given));
    if data {
        lemma_filter_agree(
            files_view(given),
            of_kind,
            |file: DataFileView| file.content == DataContentType::Data,
        );
    } else {
        lemma_filter_agree(
            files_view(given),
            of_kind,
            |file: DataFileView| file.content != DataContentType::Data,
        );
    }
    let left = files_view(given).filter(of_kind);
    assert(files_view(deleted) == left);
    lemma_has_path(deleted, path);
    if is_deleted(given, entry) {
        let k = choose|k: int|
            0 <= k < given.len() && (#[trigger] given[k]).file_path@ == path && (given[k].content
                == DataContentType::Data) == data;
        assert(files_view(given)[k] == given[k]@);
        assert(of_kind(files_view(given)[k]));
        assert(left.contains(files_view(given)[k]));
        let n = choose|n: int| 0 <= n < left.len() && left[n] == files_view(given)[k];
        assert(files_view(deleted)[n].file_path == path);
        assert(has_path(files_view(deleted), path));
    }
    if has_path(files_view(deleted), path) {
        let n = choose|n: int|
            0 <= n < files_view(deleted).len() && (#[trigger] files_view(deleted)[n]).file_path
                == path;
        let k = lemma_filter_source(files_view(given), of_kind, n);
        assert(given[k].file_path@ == path);
    }
}

/// A replacement records as deleted exactly the entries of files that were given to be
/// deleted, in the order of the manifests.  A file is recognised by its path and by being
/// a data file or a delete file, and by nothing else.
pub proof fn law_files_that_are_deleted_are_recorded<'a, M: ReplaceFilesMode>(
    calls: ReplacementCalls<M>,
    committed: (SnapshotProducer, ReplaceFilesOperation<M>),
    start: DeleteEntries<ReplacedFiles<'a>>,
    run: DeleteRun<ReplacedFiles<'a>>,
    lists: spec_fn(ManifestFileView) -> Seq<ManifestEntryView>,
    recorded: Vec<ManifestEntry>,
)
    requires
        calls.made(),
        call_ensures(ReplaceFilesAction::<M>::commit, (&calls.action,), committed),
        call_ensures(
            ReplaceFilesOperation::<M>::delete_entries,
            (&committed.1, &committed.0, true),
            start,
        ),
        run.leads(lists, start, recorded),
    ensures
        entries_view(recorded@) == run.list@.map_values(
            |manifest: ManifestFile|
                lists(manifest@).filter(
                    |entry: ManifestEntryView|
                        exists|k: int|
                            0 <= k < calls.deleted_files@.len() && (
                            #[trigger] calls.deleted_files@[k]).file_path@
                                == entry.data_file.file_path && (calls.deleted_files@[k].content
                                == DataContentType::Data) == (entry.data_file.content
                                == DataContentType::Data),
                ).map_values(
                    |entry: ManifestEntryView|
                        ManifestEntryView { status: ManifestStatus::Deleted, ..entry },
                ),
        ).flatten(),
{
    let producer = &committed.0;
    law_replacements_record_deleted_files(
        committed.1,
        producer,
        true,
        start,
        run,
        lists,
        recorded,
    );
    let by_producer = |entry: ManifestEntryView|
        if entry.data_file.content == DataContentType::Data {
            exists|k: int|
                0 <= k < producer.deleted_data_files@.len() && (
                #[trigger] producer.deleted_data_files@[k]).file_path@
                    == entry.data_file.file_path
        } else {
            exists|k: int|
                0 <= k < producer.deleted_delete_files@.len() && (
                #[trigger] producer.deleted_delete_files@[k]).file_path@
                    == entry.data_file.file_path
        };
    let by_calls = |entry: ManifestEntryView|
        exists|k: int|
            0 <= k < calls.deleted_files@.len() && (#[trigger] calls.deleted_files@[k]).file_path@
                == entry.data_file.file_path && (calls.deleted_files@[k].content
                == DataContentType::Data) == (entry.data_file.content == DataContentType::Data);
    let as_deleted = |entry: ManifestEntryView|
        ManifestEntryView { status: ManifestStatus::Deleted, ..entry };
    let first = run.list@.map_values(
        |manifest: ManifestFile| lists(manifest@).filter(by_producer).map_values(as_deleted),
    );
    let second = run.list@.map_values(
        |manifest: ManifestFile| lists(manifest@).filter(by_calls).map_values(as_deleted),
    );
    assert forall|i: int| 0 <= i < first.len() implies #[trigger] first[i] == second[i] by {
        let entries = lists(run.list@[i]@);
        assert forall|j: int| 0 <= j < entries.len() implies by_producer(#[trigger] entries[j])
            == by_calls(entries[j]) by {
            lemma_deleted_files(calls, committed, entries[j]);
        }
        lemma_filter_agree(entries, by_producer, by_calls);
    }
    assert(first =~= second);
}

/// A live file of the current snapshot that was not given to be deleted is live in the
/// new snapshot too: one of the manifests that are carried over lists it, with its
/// snapshot id and sequence numbers.  No other entry of its manifest may be at its path
/// and be of a file that was given to be deleted.
pub proof fn law_files_that_are_not_deleted_stay<'a, M: ReplaceFilesMode>(
    calls: ReplacementCalls<M>,
    committed: (SnapshotProducer, ReplaceFilesOperation<M>),
    start: ExistingManifests<ReplacedFiles<'a>>,
    run: ExistingRun<ReplacedFiles<'a>>,
    lists: spec_fn(ManifestFileView) -> Seq<ManifestEntryView>,
    carried: Vec<ManifestFile>,
    manifest: int,
    at: int,
) -> (place: (int, int))
    requires
        calls.made(),
        call_ensures(ReplaceFilesAction::<M>::commit, (&calls.action,), committed),
        call_ensures(
            ReplaceFilesOperation::<M>::existing_manifest,
            (&committed.1, &committed.0, true),
            start,
        ),
        run.leads(lists, start, carried),
        0 <= manifest < run.list@.len(),
        0 <= at < lists(run.list@[manifest]@).len(),
        lists(run.list@[manifest]@)[at].status != ManifestStatus::Deleted,
        forall|j: int, k: int|
            0 <= j < lists(run.list@[manifest]@).len() && 0 <= k < calls.deleted_files@.len() && (
            #[trigger] lists(run.list@[manifest]@)[j]).data_file.file_path == lists(
                run.list@[manifest]@,
            )[at].data_file.file_path && (#[trigger] calls.deleted_files@[k]).file_path@ == lists(
                run.list@[manifest]@,
            )[at].data_file.file_path ==> (lists(run.list@[manifest]@)[j].data_file.content
                == DataContentType::Data) != (calls.deleted_files@[k].content
                == DataContentType::Data),
    ensures
        0 <= place.0 < carried@.len(),
        0 <= place.1 < lists(carried@[place.0]@).len(),
        ({
            let before = lists(run.list@[manifest]@)[at];
            let after = lists(carried@[place.0]@)[place.1];
            &&& after.status != ManifestStatus::Deleted
            &&& after.snapshot_id == before.snapshot_id
            &&& after.sequence_number == before.sequence_number
            &&& after.file_sequence_number == before.file_sequence_number
            &&& after.data_file == before.data_file
        }),
{
    broadcast use vstd::seq_lib::group_filter_ensures;

    let producer = &committed.0;
    let written = law_replacements_carry_over_manifests(
        committed.1,
        producer,
        true,
        start,
        run,
        lists,
        carried,
    );
    let replaced = |entry: ManifestEntryView|
        if entry.data_file.content == DataContentType::Data {
            exists|k: int|
                0 <= k < producer.deleted_data_files@.len() && (
                #[trigger] producer.deleted_data_files@[k]).file_path@
                    == entry.data_file.file_path
        } else {
            exists|k: int|
                0 <= k < producer.deleted_delete_files@.len() && (
                #[trigger] producer.deleted_delete_files@[k]).file_path@
                    == entry.data_file.file_path
        };
    let gone = |entries: Seq<ManifestEntryView>, path: Seq<char>|
        exists|j: int|
            0 <= j < entries.len() && (#[trigger] entries[j]).data_file.file_path == path
                && replaced(entries[j]);
    let is_kept = |i: int|
        {
            &&& run.list@[i].has_added_files || run.list@[i].has_existing_files
            &&& forall|j: int|
                0 <= j < lists(run.list@[i]@).len() ==> !replaced(
                    #[trigger] lists(run.list@[i]@)[j],
                )
        };
    let any_left = |entries: Seq<ManifestEntryView>|
        exists|j: int|
            0 <= j < entries.len() && (#[trigger] entries[j]).status != ManifestStatus::Deleted
                && !gone(entries, entries[j].data_file.file_path);
    let parts = Seq::new(
        run.list@.len(),
        |i: int|
            if is_kept(i) {
                seq![run.list@[i]@]
            } else if any_left(lists(run.list@[i]@)) {
                seq![written[i]]
            } else {
                Seq::empty()
            },
    );
    let views = manifests_view(carried@);
    assert(views == parts.flatten());
    let entries = lists(run.list@[manifest]@);
    let path = entries[at].data_file.file_path;
    assert(!gone(entries, path)) by {
        assert forall|j: int|
            0 <= j < entries.len() && (#[trigger] entries[j]).data_file.file_path
                == path implies !replaced(entries[j]) by {
            lemma_deleted_files(calls, committed, entries[j]);
            if is_deleted(calls.deleted_files@, entries[j]) {
                let k = choose|k: int|
                    0 <= k < calls.deleted_files@.len() && (
                    #[trigger] calls.deleted_files@[k]).file_path@
                        == entries[j].data_file.file_path && (calls.deleted_files@[k].content
                        == DataContentType::Data) == (entries[j].data_file.content
                        == DataContentType::Data);
                assert(calls.deleted_files@[k].file_path@ == path);
            }
        }
    }
    assert(any_left(entries));
    if is_kept(manifest) {
        assert(parts[manifest] == seq![run.list@[manifest]@]);
        lemma_flatten_contains(parts, manifest, 0);
        let place = choose|m: int| 0 <= m < views.len() && views[m] == run.list@[manifest]@;
        assert(carried@[place]@ == run.list@[manifest]@);
        (place, at)
    } else {
        assert(parts[manifest] == seq![written[manifest]]);
        lemma_flatten_contains(parts, manifest, 0);
        let place = choose|m: int| 0 <= m < views.len() && views[m] == written[manifest];
        assert(carried@[place]@ == written[manifest]);
        let staying = |entry: ManifestEntryView|
            entry.status != ManifestStatus::Deleted && !gone(
                lists(run.list@[manifest]@),
                entry.data_file.file_path,
            );
        assert(staying(entries[at]));
        let left = entries.filter(staying);
        assert(left.contains(entries[at]));
        let n = choose|n: int| 0 <= n < left.len() && left[n] == entries[at];
        (place, n)
    }
}

/// A live file that a manifest lists which is carried over was a live file of the current
/// snapshot, and no file of its kind at its path was given to be deleted.
pub proof fn law_files_that_stay_are_not_deleted<'a, M: ReplaceFilesMode>(
    calls: ReplacementCalls<M>,
    committed: (SnapshotProducer, ReplaceFilesOperation<M>),
    start: ExistingManifests<ReplacedFiles<'a>>,
    run: ExistingRun<ReplacedFiles<'a>>,
    lists: spec_fn(ManifestFileView) -> Seq<ManifestEntryView>,
    carried: Vec<ManifestFile>,
    manifest: int,
    at: int,
) -> (origin: (int, int))
    requires
        calls.made(),
        call_ensures(ReplaceFilesAction::<M>::commit, (&calls.action,), committed),
        call_ensures(
            ReplaceFilesOperation::<M>::existing_manifest,
            (&committed.1, &committed.0, true),
            start,
        ),
        run.leads(lists, start, carried),
        0 <= manifest < carried@.len(),
        0 <= at < lists(carried@[manifest]@).len(),
        lists(carried@[manifest]@)[at].status != ManifestStatus::Deleted,
    ensures
        0 <= origin.0 < run.list@.len(),
        0 <= origin.1 < lists(run.list@[origin.0]@).len(),
        carried@[manifest].content == run.list@[origin.0].content,
        carried@[manifest].partition_spec_id == run.list@[origin.0].partition_spec_id,
        ({
            let before = lists(run.list@[origin.0]@)[origin.1];
            let after = lists(carried@[manifest]@)[at];
            &&& before.status != ManifestStatus::Deleted
            &&& after.snapshot_id == before.snapshot_id
            &&& after.sequence_number == before.sequence_number
            &&& after.file_sequence_number == before.file_sequence_number
            &&& after.data_file == before.data_file
            &&& forall|k: int|
                0 <= k < calls.deleted_files@.len() && (
                #[trigger] calls.deleted_files@[k]).file_path@ == before.data_file.file_path ==> (
                calls.deleted_files@[k].content == DataContentType::Data) != (
                before.data_file.content == DataContentType::Data)
        }),
{
    let producer = &committed.0;
    let written = law_replacements_carry_over_manifests(
        committed.1,
        producer,
        true,
        start,
        run,
        lists,
        carried,
    );
    let replaced = |entry: ManifestEntryView|
        if entry.data_file.content == DataContentType::Data {
            exists|k: int|
                0 <= k < producer.deleted_data_files@.len() && (
                #[trigger] producer.deleted_data_files@[k]).file_path@
                    == entry.data_file.file_path
        } else {
            exists|k: int|
                0 <= k < producer.deleted_delete_files@.len() && (
                #[trigger] producer.deleted_delete_files@[k]).file_path@
                    == entry.data_file.file_path
        };
    let gone = |entries: Seq<ManifestEntryView>, path: Seq<char>|
        exists|j: int|
            0 <= j < entries.len() && (#[trigger] entries[j]).data_file.file_path == path
                && replaced(entries[j]);
    let is_kept = |i: int|
        {
            &&& run.list@[i].has_added_files || run.list@[i].has_existing_files
            &&& forall|j: int|
                0 <= j < lists(run.list@[i]@).len() ==> !replaced(
                    #[trigger] lists(run.list@[i]@)[j],
                )
        };
    let any_left = |entries: Seq<ManifestEntryView>|
        exists|j: int|
            0 <= j < entries.len() && (#[trigger] entries[j]).status != ManifestStatus::Deleted
                && !gone(entries, entries[j].data_file.file_path);
    let parts = Seq::new(
        run.list@.len(),
        |i: int|
            if is_kept(i) {
                seq![run.list@[i]@]
            } else if any_left(lists(run.list@[i]@)) {
                seq![written[i]]
            } else {
                Seq::empty()
            },
    );
    let views = manifests_view(carried@);
    assert(views == parts.flatten());
    assert(views[manifest] == carried@[manifest]@);
    assert(views.contains(carried@[manifest]@));
    let (origin, nth) = lemma_flatten_source(parts, carried@[manifest]@);
    let entries = lists(run.list@[origin]@);
    let source = if is_kept(origin) {
        assert(carried@[manifest]@ == run.list@[origin]@);
        at
    } else {
        assert(carried@[manifest]@ == written[origin]);
        lemma_filter_source(
            entries,
            |entry: ManifestEntryView|
                entry.status != ManifestStatus::Deleted && !gone(
                    lists(run.list@[origin]@),
                    entry.data_file.file_path,
                ),
            at,
        )
    };
    assert(!replaced(entries[source])) by {
        if !is_kept(origin) && replaced(entries[source]) {
            assert(gone(entries, entries[source].data_file.file_path));
        }
    }
    lemma_deleted_files(calls, committed, entries[source]);
    assert(!is_deleted(calls.deleted_files@, entries[source]));
    (origin, source)
}

} // verus!
