//! Row-level changes, from the files that an action is given to the manifests of the new
//! snapshot.
use std::collections::HashMap;

use uuid::Uuid;
use vstd::prelude::*;

use crate::data_file::{
    files_view, DataContentType, DataFile, DataFileFormat, DataFileView, FormatVersion,
};
use crate::error::{Error, ErrorKind};
use crate::laws::files::{lemma_has_path, lemma_survivors_said_directly};
use crate::laws::runs::{
    lemma_carried_from_all_is_flat, lemma_delete_run, lemma_existing_run, DeleteRun, ExistingRun,
};
use crate::manifest::{
    entries_view, manifests_view, ManifestEntry, ManifestEntryView, ManifestFile, ManifestFileView,
    ManifestStatus,
};
use crate::removal::{any_survives, has_path, paths_of, survives};
use crate::row_delta::{
    delete_file_error, format_version_error, law_acceptance, law_nothing_removed_needs_no_reading,
    lemma_first_error, RemovedPaths, RowDeltaAction, RowDeltaCommit, RowDeltaOperation,
    RowDeltaView, TableCheck,
};
use crate::seqs::{
    lemma_filter_agree, lemma_filter_none, lemma_filter_source, lemma_flatten_contains,
    lemma_flatten_none, lemma_flatten_source,
};
use crate::snapshot::{Operation, SnapshotProducer};
use crate::walk::{
    carried_from, deleted_in, DeleteEntries, ExistingManifests, ExistingManifestsStart,
    ManifestFateView, RemovalRule, StorageAnswers,
};

verus! {

/// The calls that give a new action its files.
pub struct RowDeltaCalls {
    pub data_files: Vec<DataFile>,
    pub delete_files: Vec<DataFile>,
    pub removed_files: Vec<DataFile>,
    pub empty: RowDeltaAction,
    pub with_data_files: RowDeltaAction,
    pub with_delete_files: RowDeltaAction,
    pub action: RowDeltaAction,
}

impl RowDeltaCalls {
    /// The action comes of giving a new one data files, delete files and removed delete
    /// files.
    pub open spec fn made(self) -> bool {
        &&& call_ensures(RowDeltaAction::new, (), self.empty)
        &&& call_ensures(
            RowDeltaAction::add_data_files,
            (self.empty, self.data_files),
            self.with_data_files,
        )
        &&& call_ensures(
            RowDeltaAction::add_delete_files,
            (self.with_data_files, self.delete_files),
            self.with_delete_files,
        )
        &&& call_ensures(
            RowDeltaAction::remove_delete_files,
            (self.with_delete_files, self.removed_files),
            self.action,
        )
    }
}

/// A new action has no files and no settings, and does not ask for duplicates to be
/// looked for.
pub proof fn law_new_row_deltas_are_empty(action: RowDeltaAction, other: RowDeltaAction)
    requires
        call_ensures(RowDeltaAction::new, (), action),
        call_ensures(RowDeltaAction::default, (), other),
    ensures
        !action@.check_duplicate,
        action@.commit_uuid is None,
        action@.key_metadata is None,
        forall|key: String| !action@.snapshot_properties.contains_key(key),
        action@.added_data_files.len() == 0,
        action@.added_delete_files.len() == 0,
        action@.removed_delete_files.len() == 0,
        other@ == action@,
{
}

/// Files that an action is given go to the end of the files of their kind.
pub proof fn law_row_deltas_collect_files(
    action: RowDeltaAction,
    files: Vec<DataFile>,
    with_data_files: RowDeltaAction,
    with_delete_files: RowDeltaAction,
    with_removed_files: RowDeltaAction,
)
    requires
        call_ensures(RowDeltaAction::add_data_files, (action, files), with_data_files),
        call_ensures(RowDeltaAction::add_delete_files, (action, files), with_delete_files),
        call_ensures(RowDeltaAction::remove_delete_files, (action, files), with_removed_files),
    ensures
        with_data_files@ == (RowDeltaView {
            added_data_files: action@.added_data_files + files@.map_values(|file: DataFile| file@),
            ..action@
        }),
        with_delete_files@ == (RowDeltaView {
            added_delete_files: action@.added_delete_files + files@.map_values(
                |file: DataFile| file@,
            ),
            ..action@
        }),
        with_removed_files@ == (RowDeltaView {
            removed_delete_files: action@.removed_delete_files + files@.map_values(
                |file: DataFile| file@,
            ),
            ..action@
        }),
{
}

/// A setting takes the place of an earlier one, and leaves everything else as it is.
pub proof fn law_row_delta_settings_are_kept(
    action: RowDeltaAction,
    check_duplicate: bool,
    with_check: RowDeltaAction,
    commit_uuid: Uuid,
    with_uuid: RowDeltaAction,
    key_metadata: Vec<u8>,
    with_key_metadata: RowDeltaAction,
    snapshot_properties: HashMap<String, String>,
    with_properties: RowDeltaAction,
)
    requires
        call_ensures(RowDeltaAction::with_check_duplicate, (action, check_duplicate), with_check),
        call_ensures(RowDeltaAction::set_commit_uuid, (action, commit_uuid), with_uuid),
        call_ensures(RowDeltaAction::set_key_metadata, (action, key_metadata), with_key_metadata),
        call_ensures(
            RowDeltaAction::set_snapshot_properties,
            (action, snapshot_properties),
            with_properties,
        ),
    ensures
        with_check@ == (RowDeltaView { check_duplicate, ..action@ }),
        with_uuid@ == (RowDeltaView { commit_uuid: Some(commit_uuid), ..action@ }),
        with_key_metadata@ == (RowDeltaView { key_metadata: Some(key_metadata@), ..action@ }),
        with_properties@ == (RowDeltaView {
            snapshot_properties: snapshot_properties@,
            ..action@
        }),
{
}

/// Delete files are judged in their order.  The first one that is a data file, or that
/// holds equality deletes without naming fields, is reported by its path; if there is
/// none, the files are accepted.
pub proof fn law_delete_files_are_judged_in_order(
    files: &[DataFile],
    label: &str,
    result: Result<(), Error>,
    at: int,
)
    requires
        call_ensures(RowDeltaAction::validate_delete_files, (files, label), result),
        0 <= at <= files@.len(),
        forall|i: int|
            0 <= i < at ==> {
                &&& (#[trigger] files@[i]).content != DataContentType::Data
                &&& files@[i].content == DataContentType::EqualityDeletes ==> {
                    files@[i].equality_ids matches Some(ids) && ids@.len() > 0
                }
            },
        at < files@.len() ==> {
            ||| files@[at].content == DataContentType::Data
            ||| {
                &&& files@[at].content == DataContentType::EqualityDeletes
                &&& files@[at].equality_ids matches Some(ids) ==> ids@.len() == 0
            }
        },
    ensures
        result is Ok <==> at == files@.len(),
        result matches Err(error) ==> {
            &&& error.kind == ErrorKind::DataInvalid
            &&& error.message@ == if files@[at].content == DataContentType::Data {
                label@ + " file "@ + files@[at].file_path@
                    + " has content type Data; use add_data_files"@
            } else {
                "equality delete "@ + files@[at].file_path@ + " missing equality_ids"@
            }
        },
{
    let checks = files_view(files@).map_values(
        |file: DataFileView| delete_file_error(label@, file),
    );
    assert forall|i: int| 0 <= i < at implies #[trigger] checks[i] is None by {
        assert(files_view(files@)[i] == files@[i]@);
        assert(files@[i].content != DataContentType::Data);
    }
    if at < files@.len() {
        assert(files_view(files@)[at] == files@[at]@);
        assert(checks[at] is Some);
    }
    lemma_first_error(checks, at);
}

/// The delete files that are to be added are held against the format version in their
/// order.  The first version takes none.  The second takes no position deletes in
/// Puffin format, and the third no others; equality deletes they take in any format.
pub proof fn law_format_versions_are_judged_in_order(
    files: &[DataFile],
    format: FormatVersion,
    result: Result<(), Error>,
    at: int,
)
    requires
        call_ensures(RowDeltaAction::validate_format_version, (files, format), result),
        0 <= at <= files@.len(),
        forall|i: int|
            0 <= i < at ==> {
                &&& format != FormatVersion::V1
                &&& (#[trigger] files@[i]).content == DataContentType::PositionDeletes ==> (
                files@[i].file_format == DataFileFormat::Puffin <==> format == FormatVersion::V3)
            },
        at < files@.len() ==> {
            ||| format == FormatVersion::V1
            ||| {
                &&& files@[at].content == DataContentType::PositionDeletes
                &&& !(files@[at].file_format == DataFileFormat::Puffin <==> format
                    == FormatVersion::V3)
            }
        },
    ensures
        result is Ok <==> at == files@.len(),
        result matches Err(error) ==> {
            &&& error.kind == ErrorKind::DataInvalid
            &&& error.message@ == match format {
                FormatVersion::V1 => "delete files are not supported in V1"@,
                FormatVersion::V2 => "V2 forbids deletion vectors for position deletes: "@
                    + files@[at].file_path@,
                FormatVersion::V3 => "V3 requires deletion vectors for position deletes: "@
                    + files@[at].file_path@,
            }
        },
{
    let checks = files_view(files@).map_values(
        |file: DataFileView| format_version_error(format, file),
    );
    assert forall|i: int| 0 <= i < at implies #[trigger] checks[i] is None by {
        assert(files_view(files@)[i] == files@[i]@);
    }
    if at < files@.len() {
        assert(files_view(files@)[at] == files@[at]@);
        assert(checks[at] is Some);
    }
    lemma_first_error(checks, at);
}

/// An action is accepted exactly if it has files or snapshot properties, its delete
/// files, added and removed, hold deletes and name the fields of equality deletes, and
/// the added ones fit the format version: none in the first, position deletes in the
/// second exactly if they are not in Puffin format, in the third exactly if they are.
pub proof fn law_row_deltas_are_accepted(
    action: RowDeltaAction,
    format: FormatVersion,
    result: Result<(), Error>,
)
    requires
        call_ensures(RowDeltaAction::validate, (&action, format), result),
    ensures
        result is Ok <==> {
            &&& action@.added_data_files.len() != 0 || action@.added_delete_files.len() != 0
                || action@.removed_delete_files.len() != 0 || exists|key: String|
                action@.snapshot_properties.contains_key(key)
            &&& forall|i: int|
                0 <= i < action@.added_delete_files.len() ==> {
                    let file = #[trigger] action@.added_delete_files[i];
                    &&& file.content != DataContentType::Data
                    &&& file.content == DataContentType::EqualityDeletes ==> {
                        file.equality_ids matches Some(ids) && ids.len() > 0
                    }
                    &&& format != FormatVersion::V1
                    &&& file.content == DataContentType::PositionDeletes ==> (file.file_format
                        == DataFileFormat::Puffin <==> format == FormatVersion::V3)
                }
            &&& forall|i: int|
                0 <= i < action@.removed_delete_files.len() ==> {
                    let file = #[trigger] action@.removed_delete_files[i];
                    &&& file.content != DataContentType::Data
                    &&& file.content == DataContentType::EqualityDeletes ==> {
                        file.equality_ids matches Some(ids) && ids.len() > 0
                    }
                }
        },
{
    law_acceptance(action@, format);
    lemma_has_properties(action@.snapshot_properties);
}

proof fn lemma_has_properties(properties: Map<String, String>)
    ensures
        properties.is_empty() <==> !(exists|key: String| properties.contains_key(key)),
{
    if !properties.is_empty() {
        if !(exists|key: String| properties.contains_key(key)) {
            assert(properties =~= Map::empty());
        }
    }
}

/// An action without files and snapshot properties is answered with a failed
/// precondition.
pub proof fn law_empty_row_deltas_are_rejected(
    action: RowDeltaAction,
    format: FormatVersion,
    result: Result<(), Error>,
)
    requires
        call_ensures(RowDeltaAction::validate, (&action, format), result),
        action@.added_data_files.len() == 0,
        action@.added_delete_files.len() == 0,
        action@.removed_delete_files.len() == 0,
        forall|key: String| !action@.snapshot_properties.contains_key(key),
    ensures
        result matches Err(error) && error.kind == ErrorKind::PreconditionFailed
            && error.message@ == "row delta requires at least one added or removed file"@,
{
    lemma_has_properties(action@.snapshot_properties);
}

/// An action that is not empty is answered with the first error of three checks: of the
/// added delete files, of the removed ones, and of the added ones against the format
/// version.
pub proof fn law_row_delta_checks_are_made_in_turn(
    action: RowDeltaAction,
    format: FormatVersion,
    added: &[DataFile],
    removed: &[DataFile],
    added_check: Result<(), Error>,
    removed_check: Result<(), Error>,
    format_check: Result<(), Error>,
    result: Result<(), Error>,
)
    requires
        action@.added_delete_files == added@.map_values(|file: DataFile| file@),
        action@.removed_delete_files == removed@.map_values(|file: DataFile| file@),
        call_ensures(RowDeltaAction::validate_delete_files, (added, "added"), added_check),
        call_ensures(RowDeltaAction::validate_delete_files, (removed, "removed"), removed_check),
        call_ensures(RowDeltaAction::validate_format_version, (added, format), format_check),
        call_ensures(RowDeltaAction::validate, (&action, format), result),
        action@.added_data_files.len() != 0 || added@.len() != 0 || removed@.len() != 0
            || exists|key: String| action@.snapshot_properties.contains_key(key),
    ensures
        match (added_check, removed_check, format_check) {
            (Err(error), _, _) => result matches Err(reported) && reported@ == error@,
            (Ok(_), Err(error), _) => result matches Err(reported) && reported@ == error@,
            (Ok(_), Ok(_), Err(error)) => result matches Err(reported) && reported@ == error@,
            (Ok(_), Ok(_), Ok(_)) => result is Ok,
        },
{
    reveal_with_fuel(crate::row_delta::first_error, 4);
    lemma_has_properties(action@.snapshot_properties);
    assert(files_view(added@) == action@.added_delete_files);
    assert(files_view(removed@) == action@.removed_delete_files);
}

/// Committing an action fails as checking it does, and else hands over what the action
/// was given: its added files, its removed files as deleted delete files, no deleted
/// data files, its settings, and no data sequence number of its own.
pub proof fn law_row_deltas_hand_over_what_they_were_given(
    action: RowDeltaAction,
    format: FormatVersion,
    commit_uuid: Uuid,
    check: Result<(), Error>,
    result: Result<RowDeltaCommit, Error>,
)
    requires
        call_ensures(RowDeltaAction::validate, (&action, format), check),
        call_ensures(RowDeltaAction::commit_as, (&action, format, commit_uuid), result),
    ensures
        match check {
            Err(error) => result matches Err(reported) && reported@ == error@,
            Ok(_) => {
                &&& result matches Ok(commit)
                &&& commit.snapshot_producer.commit_uuid == commit_uuid
                &&& commit.snapshot_producer@.key_metadata == action@.key_metadata
                &&& commit.snapshot_producer@.snapshot_properties == action@.snapshot_properties
                &&& commit.snapshot_producer@.added_data_files == action@.added_data_files
                &&& commit.snapshot_producer@.added_delete_files == action@.added_delete_files
                &&& commit.snapshot_producer.deleted_data_files@.len() == 0
                &&& commit.snapshot_producer@.deleted_delete_files == action@.removed_delete_files
                &&& commit.snapshot_producer.added_data_sequence_number is None
                &&& commit.operation.has_added_data <==> action@.added_data_files.len() != 0
                &&& commit.operation.has_added_deletes <==> action@.added_delete_files.len() != 0
                &&& commit.check_duplicate == action@.check_duplicate
            },
        },
{
    if let Ok(commit) = result {
        assert(commit@.snapshot_producer.deleted_data_files.len() == 0);
        assert(files_view(commit.snapshot_producer.deleted_data_files@).len() == 0);
    }
}

/// Committing under the UUID that was set, or under a new one, differs in nothing else
/// from committing under a given UUID.
pub proof fn law_row_deltas_are_committed_under_their_uuid(
    action: RowDeltaAction,
    format: FormatVersion,
    result: Result<RowDeltaCommit, Error>,
    commit_uuid: Uuid,
    result_as: Result<RowDeltaCommit, Error>,
)
    requires
        call_ensures(RowDeltaAction::commit, (&action, format), result),
        call_ensures(RowDeltaAction::commit_as, (&action, format, commit_uuid), result_as),
        result matches Ok(commit) ==> commit.snapshot_producer.commit_uuid == commit_uuid,
    ensures
        match result {
            Ok(commit) => {
                &&& action@.commit_uuid matches Some(set) ==> set == commit_uuid
                &&& result_as matches Ok(commit_as)
                &&& commit_as.snapshot_producer@ == commit.snapshot_producer@
                &&& commit_as.operation == commit.operation
                &&& commit_as.check_duplicate == commit.check_duplicate
            },
            Err(error) => result_as matches Err(error_as) && error_as@ == error@,
        },
{
    if let Ok(commit) = result {
        if let Ok(commit_as) = result_as {
            assert(commit_as@ == commit@);
            assert(commit_as@.snapshot_producer == commit_as.snapshot_producer@);
            assert(commit@.snapshot_producer == commit.snapshot_producer@);
        }
    }
}

/// What a committed action records depends on whether it adds data files and whether it
/// adds delete files, however many there are of each, and on nothing else.
pub proof fn law_row_deltas_record_what_they_add(
    action: RowDeltaAction,
    format: FormatVersion,
    commit: RowDeltaCommit,
    recorded: Operation,
)
    requires
        call_ensures(RowDeltaAction::commit, (&action, format), Ok(commit)),
        call_ensures(RowDeltaOperation::operation, (&commit.operation,), recorded),
    ensures
        recorded == Operation::Append <==> action@.added_data_files.len() > 0
            && action@.added_delete_files.len() == 0,
        recorded == Operation::Delete <==> action@.added_data_files.len() == 0
            && action@.added_delete_files.len() > 0,
        recorded == Operation::Overwrite <==> (action@.added_data_files.len() > 0
            <==> action@.added_delete_files.len() > 0),
{
    assert(commit@.operation == commit.operation);
}

/// The same for an action that was given its files from the start.
pub proof fn law_given_files_decide_what_is_recorded(
    calls: RowDeltaCalls,
    format: FormatVersion,
    commit: RowDeltaCommit,
    recorded: Operation,
)
    requires
        calls.made(),
        call_ensures(RowDeltaAction::commit, (&calls.action, format), Ok(commit)),
        call_ensures(RowDeltaOperation::operation, (&commit.operation,), recorded),
    ensures
        recorded == Operation::Append <==> calls.data_files@.len() > 0
            && calls.delete_files@.len() == 0,
        recorded == Operation::Delete <==> calls.data_files@.len() == 0
            && calls.delete_files@.len() > 0,
        recorded == Operation::Overwrite <==> (calls.data_files@.len() > 0
            <==> calls.delete_files@.len() > 0),
{
    lemma_calls(calls);
    law_row_deltas_record_what_they_add(calls.action, format, commit, recorded);
}

/// The action has the files that it was given.
proof fn lemma_calls(calls: RowDeltaCalls)
    requires
        calls.made(),
    ensures
        calls.action@.added_data_files == files_view(calls.data_files@),
        calls.action@.added_delete_files == files_view(calls.delete_files@),
        calls.action@.removed_delete_files == files_view(calls.removed_files@),
        !calls.action@.check_duplicate,
        calls.action@.commit_uuid is None,
        calls.action@.key_metadata is None,
        calls.action@.snapshot_properties == Map::<String, String>::empty(),
{
    assert(calls.action@.added_data_files =~= files_view(calls.data_files@));
    assert(calls.action@.added_delete_files =~= files_view(calls.delete_files@));
    assert(calls.action@.removed_delete_files =~= files_view(calls.removed_files@));
}

/// An action that was given its files from the start is committed exactly if it was given
/// a file, and each of its delete files is one, names its fields if it holds equality
/// deletes, and, if it is to be added, fits the format version.
pub proof fn law_given_files_decide_acceptance(
    calls: RowDeltaCalls,
    format: FormatVersion,
    result: Result<RowDeltaCommit, Error>,
)
    requires
        calls.made(),
        call_ensures(RowDeltaAction::commit, (&calls.action, format), result),
    ensures
        result is Ok <==> {
            &&& calls.data_files@.len() + calls.delete_files@.len() + calls.removed_files@.len() > 0
            &&& forall|i: int|
                0 <= i < calls.delete_files@.len() ==> {
                    let file = #[trigger] calls.delete_files@[i];
                    &&& file.content != DataContentType::Data
                    &&& file.content == DataContentType::EqualityDeletes ==> {
                        file.equality_ids matches Some(ids) && ids@.len() > 0
                    }
                    &&& format != FormatVersion::V1
                    &&& file.content == DataContentType::PositionDeletes ==> (file.file_format
                        == DataFileFormat::Puffin <==> format == FormatVersion::V3)
                }
            &&& forall|i: int|
                0 <= i < calls.removed_files@.len() ==> {
                    let file = #[trigger] calls.removed_files@[i];
                    &&& file.content != DataContentType::Data
                    &&& file.content == DataContentType::EqualityDeletes ==> {
                        file.equality_ids matches Some(ids) && ids@.len() > 0
                    }
                }
        },
{
    lemma_calls(calls);
    law_acceptance(calls.action@, format);
    let added = calls.action@.added_delete_files;
    let removed = calls.action@.removed_delete_files;
    assert forall|i: int| 0 <= i < added.len() implies #[trigger] added[i]
        == calls.delete_files@[i]@ by {}
    assert forall|i: int| 0 <= i < removed.len() implies #[trigger] removed[i]
        == calls.removed_files@[i]@ by {}
    if result is Ok {
        assert forall|i: int| 0 <= i < calls.delete_files@.len() implies {
            let file = #[trigger] calls.delete_files@[i];
            &&& file.content != DataContentType::Data
            &&& file.content == DataContentType::EqualityDeletes ==> {
                file.equality_ids matches Some(ids) && ids@.len() > 0
            }
            &&& format != FormatVersion::V1
            &&& file.content == DataContentType::PositionDeletes ==> (file.file_format
                == DataFileFormat::Puffin <==> format == FormatVersion::V3)
        } by {
            assert(added[i] == calls.delete_files@[i]@);
        }
        assert forall|i: int| 0 <= i < calls.removed_files@.len() implies {
            let file = #[trigger] calls.removed_files@[i];
            &&& file.content != DataContentType::Data
            &&& file.content == DataContentType::EqualityDeletes ==> {
                file.equality_ids matches Some(ids) && ids@.len() > 0
            }
        } by {
            assert(removed[i] == calls.removed_files@[i]@);
        }
    }
}

/// Against the table are checked the added data files, then the added delete files, and
/// last, if it was asked for, whether the table refers to them already.
pub proof fn law_table_checks_come_in_order(commit: RowDeltaCommit, checks: Vec<TableCheck>)
    requires
        call_ensures(RowDeltaCommit::table_checks, (&commit,), checks),
    ensures
        checks@.len() == if commit.check_duplicate {
            3int
        } else {
            2int
        },
        checks@[0] matches TableCheck::AddedFiles(files) && files_view(files@) == files_view(
            commit.snapshot_producer.added_data_files@,
        ),
        checks@[1] matches TableCheck::AddedFiles(files) && files_view(files@) == files_view(
            commit.snapshot_producer.added_delete_files@,
        ),
        commit.check_duplicate ==> checks@[2] is DuplicateFiles,
{
    let views = checks@.map_values(|check: TableCheck| check@);
    assert(views == commit@.table_checks());
    assert(views.len() == checks@.len());
    assert(views[0] == checks@[0]@);
    assert(views[1] == checks@[1]@);
    if commit.check_duplicate {
        assert(views[2] == checks@[2]@);
    }
}

/// What becomes of a manifest, by the fields of its entries.
proof fn lemma_fate_said_directly(
    rule: RemovedPaths,
    removed: Seq<DataFile>,
    manifest: ManifestFileView,
    entries: Seq<ManifestEntryView>,
)
    requires
        rule.paths@ == paths_of(files_view(removed)),
    ensures
        ({
            let gone = |path: Seq<char>|
                exists|k: int| 0 <= k < removed.len() && (#[trigger] removed[k]).file_path@ == path;
            let any_gone = exists|j: int|
                0 <= j < entries.len() && (#[trigger] entries[j]).status != ManifestStatus::Deleted
                    && gone(entries[j].data_file.file_path);
            let any_left = exists|j: int|
                0 <= j < entries.len() && (#[trigger] entries[j]).status != ManifestStatus::Deleted
                    && !gone(entries[j].data_file.file_path);
            match rule.fate(manifest, entries) {
                ManifestFateView::Keep => !any_gone && (manifest.has_added_files
                    || manifest.has_existing_files),
                ManifestFateView::Rewrite(draft) => {
                    &&& any_gone
                    &&& any_left
                    &&& draft.content == manifest.content
                    &&& draft.partition_spec_id == manifest.partition_spec_id
                    &&& draft.entries == entries.filter(
                        |entry: ManifestEntryView|
                            entry.status != ManifestStatus::Deleted && !gone(
                                entry.data_file.file_path,
                            ),
                    ).map_values(
                        |entry: ManifestEntryView|
                            ManifestEntryView { status: ManifestStatus::Existing, ..entry },
                    )
                },
                ManifestFateView::Drop => if any_gone {
                    !any_left
                } else {
                    !manifest.has_added_files && !manifest.has_existing_files
                },
            }
        }),
{
    let gone = |path: Seq<char>|
        exists|k: int| 0 <= k < removed.len() && (#[trigger] removed[k]).file_path@ == path;
    assert forall|path: Seq<char>| rule.paths@.contains(path) == #[trigger] gone(path) by {
        lemma_has_path(removed, path);
    }
    let any_gone = exists|j: int|
        0 <= j < entries.len() && (#[trigger] entries[j]).status != ManifestStatus::Deleted && gone(
            entries[j].data_file.file_path,
        );
    let any_left = exists|j: int|
        0 <= j < entries.len() && (#[trigger] entries[j]).status != ManifestStatus::Deleted
            && !gone(entries[j].data_file.file_path);
    if any_gone {
        let j = choose|j: int|
            0 <= j < entries.len() && (#[trigger] entries[j]).status != ManifestStatus::Deleted
                && gone(entries[j].data_file.file_path);
        assert(entries[j].alive() && rule.paths@.contains(entries[j].path()));
    }
    if rule.removes_any(entries) {
        let j = choose|j: int|
            0 <= j < entries.len() && (#[trigger] entries[j]).alive() && rule.paths@.contains(
                entries[j].path(),
            );
        assert(gone(entries[j].data_file.file_path));
    }
    if any_left {
        let j = choose|j: int|
            0 <= j < entries.len() && (#[trigger] entries[j]).status != ManifestStatus::Deleted
                && !gone(entries[j].data_file.file_path);
        assert(survives(entries[j], rule.paths@));
    }
    if any_survives(entries, rule.paths@) {
        let j = choose|j: int| 0 <= j < entries.len() && survives(#[trigger] entries[j], rule.paths@);
        assert(!gone(entries[j].data_file.file_path));
    }
    lemma_survivors_said_directly(entries, rule.paths@);
    lemma_filter_agree(
        entries,
        |entry: ManifestEntryView|
            entry.status != ManifestStatus::Deleted && !rule.paths@.contains(
                entry.data_file.file_path,
            ),
        |entry: ManifestEntryView|
            entry.status != ManifestStatus::Deleted && !gone(entry.data_file.file_path),
    );
}

/// A row delta records as deleted, in the order of the manifests and of the entries in
/// them, a copy of each live entry of a delete file whose path is that of a removed file.
/// The copies differ from the entries in status only.
pub proof fn law_row_deltas_record_removed_files(
    operation: RowDeltaOperation,
    producer: SnapshotProducer,
    has_current_snapshot: bool,
    start: DeleteEntries<RemovedPaths>,
    run: DeleteRun<RemovedPaths>,
    lists: spec_fn(ManifestFileView) -> Seq<ManifestEntryView>,
    recorded: Vec<ManifestEntry>,
)
    requires
        call_ensures(
            RowDeltaOperation::delete_entries,
            (&operation, &producer, has_current_snapshot),
            start,
        ),
        run.leads(lists, start, recorded),
    ensures
        !has_current_snapshot ==> recorded@.len() == 0,
        has_current_snapshot ==> entries_view(recorded@) == run.list@.map_values(
            |manifest: ManifestFile|
                lists(manifest@).filter(
                    |entry: ManifestEntryView|
                        {
                            &&& entry.status != ManifestStatus::Deleted
                            &&& entry.data_file.content != DataContentType::Data
                            &&& exists|k: int|
                                0 <= k < producer.deleted_delete_files@.len() && (
                                #[trigger] producer.deleted_delete_files@[k]).file_path@
                                    == entry.data_file.file_path
                        },
                ).map_values(
                    |entry: ManifestEntryView|
                        ManifestEntryView { status: ManifestStatus::Deleted, ..entry },
                ),
        ).flatten(),
{
    let removed = producer.deleted_delete_files@;
    let direct = |entry: ManifestEntryView|
        {
            &&& entry.status != ManifestStatus::Deleted
            &&& entry.data_file.content != DataContentType::Data
            &&& exists|k: int|
                0 <= k < producer.deleted_delete_files@.len() && (
                #[trigger] producer.deleted_delete_files@[k]).file_path@
                    == entry.data_file.file_path
        };
    let as_deleted = |entry: ManifestEntryView|
        ManifestEntryView { status: ManifestStatus::Deleted, ..entry };
    let parts = run.list@.map_values(
        |manifest: ManifestFile| lists(manifest@).filter(direct).map_values(as_deleted),
    );
    if removed.len() == 0 || !has_current_snapshot {
        assert(producer@.deleted_delete_files.len() == removed.len());
        assert(run.states.len() == 1) by {
            if run.states.len() > 1 {
                assert(run.goes_on(lists, 0));
            }
        }
        assert(entries_view(recorded@) == Seq::<ManifestEntryView>::empty());
        assert(entries_view(recorded@).len() == recorded@.len());
        if removed.len() == 0 {
            assert forall|i: int| 0 <= i < parts.len() implies (#[trigger] parts[i]).len() == 0 by {
                lemma_filter_none(lists(run.list@[i]@), direct);
            }
            lemma_flatten_none(parts);
        }
    } else {
        let rule = start@->LoadManifestList_0;
        lemma_delete_run(run, lists, start, rule, recorded);
        let stated = run.contents(lists).map_values(
            |entries: Seq<ManifestEntryView>| deleted_in(rule, entries),
        );
        assert forall|i: int| 0 <= i < parts.len() implies #[trigger] parts[i] == stated[i] by {
            let entries = lists(run.list@[i]@);
            let deleting = |entry: ManifestEntryView| rule.deletes(entry);
            assert forall|j: int| 0 <= j < entries.len() implies deleting(#[trigger] entries[j])
                == direct(entries[j]) by {
                lemma_has_path(removed, entries[j].data_file.file_path);
            }
            lemma_filter_agree(entries, deleting, direct);
            assert(deleted_in(rule, entries) =~= entries.filter(direct).map_values(as_deleted));
        }
        assert(parts =~= stated);
    }
}

/// What a row delta carries over, manifest by manifest: a manifest without a live entry at
/// the path of a removed file is carried over as it is, if the manifest list says that it
/// has live files; another one is replaced by a manifest of the same content and
/// partition spec with its remaining live entries, if there are any.  `written` has the
/// replacements.
pub proof fn law_row_deltas_carry_over_manifests(
    operation: RowDeltaOperation,
    producer: SnapshotProducer,
    has_current_snapshot: bool,
    start: ExistingManifests<RemovedPaths>,
    run: ExistingRun<RemovedPaths>,
    lists: spec_fn(ManifestFileView) -> Seq<ManifestEntryView>,
    carried: Vec<ManifestFile>,
) -> (written: Seq<ManifestFileView>)
    requires
        call_ensures(
            RowDeltaOperation::existing_manifest,
            (&operation, &producer, has_current_snapshot),
            start,
        ),
        run.leads(lists, start, carried),
    ensures
        !has_current_snapshot ==> carried@.len() == 0,
        has_current_snapshot ==> {
            let gone = |path: Seq<char>|
                exists|k: int|
                    0 <= k < producer.deleted_delete_files@.len() && (
                    #[trigger] producer.deleted_delete_files@[k]).file_path@ == path;
            let any_gone = |entries: Seq<ManifestEntryView>|
                exists|j: int|
                    0 <= j < entries.len() && (#[trigger] entries[j]).status
                        != ManifestStatus::Deleted && gone(entries[j].data_file.file_path);
            let any_left = |entries: Seq<ManifestEntryView>|
                exists|j: int|
                    0 <= j < entries.len() && (#[trigger] entries[j]).status
                        != ManifestStatus::Deleted && !gone(entries[j].data_file.file_path);
            &&& written.len() == run.list@.len()
            &&& manifests_view(carried@) == Seq::new(
                run.list@.len(),
                |i: int|
                    if !any_gone(lists(run.list@[i]@)) {
                        if run.list@[i].has_added_files || run.list@[i].has_existing_files {
                            seq![run.list@[i]@]
                        } else {
                            Seq::empty()
                        }
                    } else if any_left(lists(run.list@[i]@)) {
                        seq![written[i]]
                    } else {
                        Seq::empty()
                    },
            ).flatten()
            &&& forall|i: int|
                0 <= i < run.list@.len() && any_gone(lists((#[trigger] run.list@[i])@)) && any_left(
                    lists(run.list@[i]@),
                ) ==> {
                    &&& written[i].content == run.list@[i].content
                    &&& written[i].partition_spec_id == run.list@[i].partition_spec_id
                    &&& lists(written[i]) == lists(run.list@[i]@).filter(
                        |entry: ManifestEntryView|
                            entry.status != ManifestStatus::Deleted && !gone(
                                entry.data_file.file_path,
                            ),
                    ).map_values(
                        |entry: ManifestEntryView|
                            ManifestEntryView { status: ManifestStatus::Existing, ..entry },
                    )
                }
        },
{
    let removed = producer.deleted_delete_files@;
    let views = manifests_view(run.list@);
    if !has_current_snapshot {
        assert(run.states.len() == 1) by {
            if run.states.len() > 1 {
                assert(run.goes_on(lists, 0));
            }
        }
        assert(manifests_view(carried@) == Seq::<ManifestFileView>::empty());
        assert(manifests_view(carried@).len() == carried@.len());
        views
    } else {
        let rule = start@->LoadManifestList_0;
        let found = lemma_existing_run(run, lists, start, rule, carried);
        let written = if rule.reads_manifests() {
            found
        } else {
            views
        };
        let gone = |path: Seq<char>|
            exists|k: int|
                0 <= k < producer.deleted_delete_files@.len() && (
                #[trigger] producer.deleted_delete_files@[k]).file_path@ == path;
        let any_gone = |entries: Seq<ManifestEntryView>|
            exists|j: int|
                0 <= j < entries.len() && (#[trigger] entries[j]).status
                    != ManifestStatus::Deleted && gone(entries[j].data_file.file_path);
        let any_left = |entries: Seq<ManifestEntryView>|
            exists|j: int|
                0 <= j < entries.len() && (#[trigger] entries[j]).status
                    != ManifestStatus::Deleted && !gone(entries[j].data_file.file_path);
        let stated = Seq::new(
            run.list@.len(),
            |i: int|
                carried_from(
                    rule.fate(run.list@[i]@, lists(run.list@[i]@)),
                    run.list@[i]@,
                    written[i],
                ),
        );
        if !rule.reads_manifests() {
            let contents = run.contents(lists);
            let storage = StorageAnswers { manifests: views, contents, written: views };
            lemma_nothing_removed(rule, removed);
            law_nothing_removed_needs_no_reading(rule, Seq::empty(), storage);
            lemma_carried_from_all_is_flat(rule, views, contents, views);
            assert(Seq::new(
                views.len(),
                |i: int| carried_from(rule.fate(views[i], contents[i]), views[i], views[i]),
            ) =~= stated);
        }
        let direct = Seq::new(
            run.list@.len(),
            |i: int|
                if !any_gone(lists(run.list@[i]@)) {
                    if run.list@[i].has_added_files || run.list@[i].has_existing_files {
                        seq![run.list@[i]@]
                    } else {
                        Seq::empty()
                    }
                } else if any_left(lists(run.list@[i]@)) {
                    seq![written[i]]
                } else {
                    Seq::empty()
                },
        );
        assert forall|i: int| 0 <= i < run.list@.len() implies #[trigger] stated[i] == direct[i] by {
            lemma_fate_said_directly(rule, removed, run.list@[i]@, lists(run.list@[i]@));
        }
        assert(stated =~= direct);
        assert forall|i: int|
            0 <= i < run.list@.len() && any_gone(lists((#[trigger] run.list@[i])@)) && any_left(
                lists(run.list@[i]@),
            ) implies {
            &&& written[i].content == run.list@[i].content
            &&& written[i].partition_spec_id == run.list@[i].partition_spec_id
            &&& lists(written[i]) == lists(run.list@[i]@).filter(
                |entry: ManifestEntryView|
                    entry.status != ManifestStatus::Deleted && !gone(entry.data_file.file_path),
            ).map_values(
                |entry: ManifestEntryView|
                    ManifestEntryView { status: ManifestStatus::Existing, ..entry },
            )
        } by {
            lemma_fate_said_directly(rule, removed, run.list@[i]@, lists(run.list@[i]@));
            if !rule.reads_manifests() {
                lemma_nothing_removed(rule, removed);
            }
            assert(rule.fate(run.list@[i]@, lists(run.list@[i]@)) is Rewrite);
            assert(lists(written[i]) == lists(found[i]));
        }
        written
    }
}

proof fn lemma_nothing_removed(rule: RemovedPaths, removed: Seq<DataFile>)
    requires
        rule.paths@ == paths_of(files_view(removed)),
        !rule.reads_manifests(),
    ensures
        removed.len() == 0,
        rule.paths@ == paths_of(Seq::empty()),
{
    if removed.len() > 0 {
        assert(files_view(removed)[0].file_path == removed[0].file_path@);
        assert(has_path(files_view(removed), removed[0].file_path@));
        assert(rule.paths@.contains(removed[0].file_path@));
    }
    assert(files_view(removed) =~= Seq::empty());
}

/// Where no delete file is removed the manifest list is all that a row delta needs.
pub proof fn law_row_deltas_without_removals_read_no_manifest(
    operation: RowDeltaOperation,
    producer: SnapshotProducer,
    has_current_snapshot: bool,
    recording: DeleteEntries<RemovedPaths>,
    carrying: ExistingManifests<RemovedPaths>,
    list: Vec<ManifestFile>,
    after: ExistingManifests<RemovedPaths>,
)
    requires
        producer.deleted_delete_files@.len() == 0,
        call_ensures(
            RowDeltaOperation::delete_entries,
            (&operation, &producer, has_current_snapshot),
            recording,
        ),
        call_ensures(
            RowDeltaOperation::existing_manifest,
            (&operation, &producer, has_current_snapshot),
            carrying,
        ),
        carrying matches ExistingManifests::LoadManifestList(start) ==> call_ensures(
            ExistingManifestsStart::<RemovedPaths>::list_loaded,
            (start, list),
            after,
        ),
    ensures
        recording matches DeleteEntries::Done(recorded) && recorded@.len() == 0,
        has_current_snapshot ==> carrying is LoadManifestList && after is Done,
        !has_current_snapshot ==> carrying is Done,
{
    assert(producer@.deleted_delete_files.len() == 0);
    if let DeleteEntries::Done(recorded) = recording {
        assert(entries_view(recorded@).len() == recorded@.len());
    }
    if has_current_snapshot {
        let rule = carrying@->LoadManifestList_0;
        assert(rule.paths@ =~= Set::empty());
    }
}

/// The files that a committed action removes are those it was given for that.
proof fn lemma_removed_files(calls: RowDeltaCalls, format: FormatVersion, commit: RowDeltaCommit)
    requires
        calls.made(),
        call_ensures(RowDeltaAction::commit, (&calls.action, format), Ok(commit)),
    ensures
        commit.snapshot_producer.deleted_delete_files@.len() == calls.removed_files@.len(),
        forall|k: int|
            0 <= k < calls.removed_files@.len() ==> (
            #[trigger] commit.snapshot_producer.deleted_delete_files@[k]).file_path@
                == calls.removed_files@[k].file_path@,
        forall|path: Seq<char>|
            (exists|k: int|
                0 <= k < commit.snapshot_producer.deleted_delete_files@.len() && (
                #[trigger] commit.snapshot_producer.deleted_delete_files@[k]).file_path@ == path)
                <==> #[trigger] is_removed(calls, path),
{
    lemma_calls(calls);
    let deleted = commit.snapshot_producer.deleted_delete_files@;
    let given = calls.removed_files@;
    assert(commit@.snapshot_producer == commit.snapshot_producer@);
    assert(files_view(deleted) == files_view(given));
    assert(files_view(deleted).len() == deleted.len());
    assert(files_view(given).len() == given.len());
    assert forall|k: int| 0 <= k < given.len() implies (#[trigger] deleted[k]).file_path@
        == given[k].file_path@ by {
        assert(files_view(deleted)[k] == files_view(given)[k]);
    }
    assert forall|path: Seq<char>|
        (exists|k: int| 0 <= k < deleted.len() && (#[trigger] deleted[k]).file_path@ == path)
            <==> #[trigger] is_removed(calls, path) by {
        if is_removed(calls, path) {
            let k = choose|k: int| 0 <= k < given.len() && (#[trigger] given[k]).file_path@ == path;
            assert(deleted[k].file_path@ == path);
        }
        if exists|k: int| 0 <= k < deleted.len() && (#[trigger] deleted[k]).file_path@ == path {
            let k = choose|k: int|
                0 <= k < deleted.len() && (#[trigger] deleted[k]).file_path@ == path;
            assert(given[k].file_path@ == path);
        }
    }
}

/// The path is that of a file that was given to be removed.
spec fn is_removed(calls: RowDeltaCalls, path: Seq<char>) -> bool {
    exists|k: int|
        0 <= k < calls.removed_files@.len() && (#[trigger] calls.removed_files@[k]).file_path@
            == path
}

/// A live file of the current snapshot whose path is not that of any file that was given
/// to be removed is live in the new snapshot too: one of the manifests that are carried
/// over lists it, with its snapshot id and sequence numbers.  The manifest list has to
/// know of live files in its manifest, unless one of them is removed.
pub proof fn law_files_that_are_not_removed_stay(
    calls: RowDeltaCalls,
    format: FormatVersion,
    commit: RowDeltaCommit,
    start: ExistingManifests<RemovedPaths>,
    run: ExistingRun<RemovedPaths>,
    lists: spec_fn(ManifestFileView) -> Seq<ManifestEntryView>,
    carried: Vec<ManifestFile>,
    manifest: int,
    at: int,
) -> (place: (int, int))
    requires
        calls.made(),
        call_ensures(RowDeltaAction::commit, (&calls.action, format), Ok(commit)),
        call_ensures(
            RowDeltaOperation::existing_manifest,
            (&commit.operation, &commit.snapshot_producer, true),
            start,
        ),
        run.leads(lists, start, carried),
        0 <= manifest < run.list@.len(),
        0 <= at < lists(run.list@[manifest]@).len(),
        lists(run.list@[manifest]@)[at].status != ManifestStatus::Deleted,
        forall|k: int|
            0 <= k < calls.removed_files@.len() ==> (#[trigger] calls.removed_files@[k]).file_path@
                != lists(run.list@[manifest]@)[at].data_file.file_path,
        run.list@[manifest].has_added_files || run.list@[manifest].has_existing_files
            || exists|j: int, k: int|
            0 <= j < lists(run.list@[manifest]@).len() && 0 <= k < calls.removed_files@.len() && (
            #[trigger] lists(run.list@[manifest]@)[j]).status != ManifestStatus::Deleted && (
            #[trigger] calls.removed_files@[k]).file_path@ == lists(
                run.list@[manifest]@,
            )[j].data_file.file_path,
    ensures
        0 <= place.0 < carried@.len(),
        0 <= place.1 < lists(carried@[place.0]@).len(),
        ({
            let before = lists(run.list@[manifest]@)[at];
            let after = lists(carried@[place.0]@)[place.1];
            &&& after.status != ManifestStatus::Deleted
            &&& after.snapshot_id == before.snapshot_id
            &&& after.sequence_number == before.sequence_number
            &&& after.file_sequence_number == before.file_sequence_number
            &&& after.data_file == before.data_file
        }),
{
    broadcast use vstd::seq_lib::group_filter_ensures;

    lemma_removed_files(calls, format, commit);
    let producer = commit.snapshot_producer;
    let written = law_row_deltas_carry_over_manifests(
        commit.operation,
        producer,
        true,
        start,
        run,
        lists,
        carried,
    );
    let gone = |path: Seq<char>|
        exists|k: int|
            0 <= k < producer.deleted_delete_files@.len() && (
            #[trigger] producer.deleted_delete_files@[k]).file_path@ == path;
    let any_gone = |entries: Seq<ManifestEntryView>|
        exists|j: int|
            0 <= j < entries.len() && (#[trigger] entries[j]).status != ManifestStatus::Deleted
                && gone(entries[j].data_file.file_path);
    let any_left = |entries: Seq<ManifestEntryView>|
        exists|j: int|
            0 <= j < entries.len() && (#[trigger] entries[j]).status != ManifestStatus::Deleted
                && !gone(entries[j].data_file.file_path);
    let parts = Seq::new(
        run.list@.len(),
        |i: int|
            if !any_gone(lists(run.list@[i]@)) {
                if run.list@[i].has_added_files || run.list@[i].has_existing_files {
                    seq![run.list@[i]@]
                } else {
                    Seq::empty()
                }
            } else if any_left(lists(run.list@[i]@)) {
                seq![written[i]]
            } else {
                Seq::empty()
            },
    );
    let views = manifests_view(carried@);
    assert(views == parts.flatten());
    let entries = lists(run.list@[manifest]@);
    assert forall|path: Seq<char>| gone(path) == #[trigger] is_removed(calls, path) by {}
    assert(!is_removed(calls, entries[at].data_file.file_path));
    assert(!gone(entries[at].data_file.file_path));
    assert(any_left(entries));
    if !any_gone(entries) {
        if exists|j: int, k: int|
            0 <= j < lists(run.list@[manifest]@).len() && 0 <= k < calls.removed_files@.len() && (
            #[trigger] lists(run.list@[manifest]@)[j]).status != ManifestStatus::Deleted && (
            #[trigger] calls.removed_files@[k]).file_path@ == lists(
                run.list@[manifest]@,
            )[j].data_file.file_path {
            let (j, k) = choose|j: int, k: int|
                0 <= j < lists(run.list@[manifest]@).len() && 0 <= k < calls.removed_files@.len()
                    && (#[trigger] lists(run.list@[manifest]@)[j]).status
                    != ManifestStatus::Deleted && (#[trigger] calls.removed_files@[k]).file_path@
                    == lists(run.list@[manifest]@)[j].data_file.file_path;
            assert(is_removed(calls, entries[j].data_file.file_path));
            assert(gone(entries[j].data_file.file_path));
        }
        assert(parts[manifest] == seq![run.list@[manifest]@]);
        lemma_flatten_contains(parts, manifest, 0);
        let place = choose|m: int| 0 <= m < views.len() && views[m] == run.list@[manifest]@;
        assert(carried@[place]@ == run.list@[manifest]@);
        (place, at)
    } else {
        assert(parts[manifest] == seq![written[manifest]]);
        lemma_flatten_contains(parts, manifest, 0);
        let place = choose|m: int| 0 <= m < views.len() && views[m] == written[manifest];
        assert(carried@[place]@ == written[manifest]);
        let staying = |entry: ManifestEntryView|
            entry.status != ManifestStatus::Deleted && !gone(entry.data_file.file_path);
        assert(staying(entries[at]));
        let left = entries.filter(staying);
        assert(left.contains(entries[at]));
        let n = choose|n: int| 0 <= n < left.len() && left[n] == entries[at];
        (place, n)
    }
}

/// A live file that a manifest lists which is carried over was a live file of the current
/// snapshot, and its path is not that of any file that was given to be removed.
pub proof fn law_files_that_stay_are_not_removed(
    calls: RowDeltaCalls,
    format: FormatVersion,
    commit: RowDeltaCommit,
    start: ExistingManifests<RemovedPaths>,
    run: ExistingRun<RemovedPaths>,
    lists: spec_fn(ManifestFileView) -> Seq<ManifestEntryView>,
    carried: Vec<ManifestFile>,
    manifest: int,
    at: int,
) -> (origin: (int, int))
    requires
        calls.made(),
        call_ensures(RowDeltaAction::commit, (&calls.action, format), Ok(commit)),
        call_ensures(
            RowDeltaOperation::existing_manifest,
            (&commit.operation, &commit.snapshot_producer, true),
            start,
        ),
        run.leads(lists, start, carried),
        0 <= manifest < carried@.len(),
        0 <= at < lists(carried@[manifest]@).len(),
        lists(carried@[manifest]@)[at].status != ManifestStatus::Deleted,
    ensures
        0 <= origin.0 < run.list@.len(),
        0 <= origin.1 < lists(run.list@[origin.0]@).len(),
        carried@[manifest].content == run.list@[origin.0].content,
        carried@[manifest].partition_spec_id == run.list@[origin.0].partition_spec_id,
        ({
            let before = lists(run.list@[origin.0]@)[origin.1];
            let after = lists(carried@[manifest]@)[at];
            &&& before.status != ManifestStatus::Deleted
            &&& after.snapshot_id == before.snapshot_id
            &&& after.sequence_number == before.sequence_number
            &&& after.file_sequence_number == before.file_sequence_number
            &&& after.data_file == before.data_file
            &&& forall|k: int|
                0 <= k < calls.removed_files@.len() ==> (
                #[trigger] calls.removed_files@[k]).file_path@ != before.data_file.file_path
        }),
{
    lemma_removed_files(calls, format, commit);
    let producer = commit.snapshot_producer;
    let written = law_row_deltas_carry_over_manifests(
        commit.operation,
        producer,
        true,
        start,
        run,
        lists,
        carried,
    );
    let gone = |path: Seq<char>|
        exists|k: int|
            0 <= k < producer.deleted_delete_files@.len() && (
            #[trigger] producer.deleted_delete_files@[k]).file_path@ == path;
    let any_gone = |entries: Seq<ManifestEntryView>|
        exists|j: int|
            0 <= j < entries.len() && (#[trigger] entries[j]).status != ManifestStatus::Deleted
                && gone(entries[j].data_file.file_path);
    let any_left = |entries: Seq<ManifestEntryView>|
        exists|j: int|
            0 <= j < entries.len() && (#[trigger] entries[j]).status != ManifestStatus::Deleted
                && !gone(entries[j].data_file.file_path);
    let parts = Seq::new(
        run.list@.len(),
        |i: int|
            if !any_gone(lists(run.list@[i]@)) {
                if run.list@[i].has_added_files || run.list@[i].has_existing_files {
                    seq![run.list@[i]@]
                } else {
                    Seq::empty()
                }
            } else if any_left(lists(run.list@[i]@)) {
                seq![written[i]]
            } else {
                Seq::empty()
            },
    );
    let views = manifests_view(carried@);
    assert(views == parts.flatten());
    assert(views[manifest] == carried@[manifest]@);
    assert(views.contains(carried@[manifest]@));
    assert forall|path: Seq<char>| gone(path) == #[trigger] is_removed(calls, path) by {}
    let (origin, nth) = lemma_flatten_source(parts, carried@[manifest]@);
    let entries = lists(run.list@[origin]@);
    let source = if !any_gone(entries) {
        assert(carried@[manifest]@ == run.list@[origin]@);
        assert(!gone(entries[at].data_file.file_path));
        at
    } else {
        assert(carried@[manifest]@ == written[origin]);
        lemma_filter_source(
            entries,
            |entry: ManifestEntryView|
                entry.status != ManifestStatus::Deleted && !gone(entry.data_file.file_path),
            at,
        )
    };
    assert(!is_removed(calls, entries[source].data_file.file_path));
    (origin, source)
}

/// A row delta records as deleted exactly the live delete files whose path is that of a
/// file that was given to be removed, in the order of the manifests.
pub proof fn law_files_that_are_removed_are_recorded(
    calls: RowDeltaCalls,
    format: FormatVersion,
    commit: RowDeltaCommit,
    start: DeleteEntries<RemovedPaths>,
    run: DeleteRun<RemovedPaths>,
    lists: spec_fn(ManifestFileView) -> Seq<ManifestEntryView>,
    recorded: Vec<ManifestEntry>,
)
    requires
        calls.made(),
        call_ensures(RowDeltaAction::commit, (&calls.action, format), Ok(commit)),
        call_ensures(
            RowDeltaOperation::delete_entries,
            (&commit.operation, &commit.snapshot_producer, true),
            start,
        ),
        run.leads(lists, start, recorded),
    ensures
        entries_view(recorded@) == run.list@.map_values(
            |manifest: ManifestFile|
                lists(manifest@).filter(
                    |entry: ManifestEntryView|
                        {
                            &&& entry.status != ManifestStatus::Deleted
                            &&& entry.data_file.content != DataContentType::Data
                            &&& exists|k: int|
                                0 <= k < calls.removed_files@.len() && (
                                #[trigger] calls.removed_files@[k]).file_path@
                                    == entry.data_file.file_path
                        },
                ).map_values(
                    |entry: ManifestEntryView|
                        ManifestEntryView { status: ManifestStatus::Deleted, ..entry },
                ),
        ).flatten(),
{
    lemma_removed_files(calls, format, commit);
    let producer = commit.snapshot_producer;
    law_row_deltas_record_removed_files(
        commit.operation,
        producer,
        true,
        start,
        run,
        lists,
        recorded,
    );
    let by_producer = |entry: ManifestEntryView|
        {
            &&& entry.status != ManifestStatus::Deleted
            &&& entry.data_file.content != DataContentType::Data
            &&& exists|k: int|
                0 <= k < producer.deleted_delete_files@.len() && (
                #[trigger] producer.deleted_delete_files@[k]).file_path@
                    == entry.data_file.file_path
        };
    let by_calls = |entry: ManifestEntryView|
        {
            &&& entry.status != ManifestStatus::Deleted
            &&& entry.data_file.content != DataContentType::Data
            &&& exists|k: int|
                0 <= k < calls.removed_files@.len() && (
                #[trigger] calls.removed_files@[k]).file_path@ == entry.data_file.file_path
        };
    let as_deleted = |entry: ManifestEntryView|
        ManifestEntryView { status: ManifestStatus::Deleted, ..entry };
    let first = run.list@.map_values(
        |manifest: ManifestFile| lists(manifest@).filter(by_producer).map_values(as_deleted),
    );
    let second = run.list@.map_values(
        |manifest: ManifestFile| lists(manifest@).filter(by_calls).map_values(as_deleted),
    );
    assert forall|i: int| 0 <= i < first.len() implies #[trigger] first[i] == second[i] by {
        let entries = lists(run.list@[i]@);
        assert forall|j: int| 0 <= j < entries.len() implies by_producer(#[trigger] entries[j])
            == by_calls(entries[j]) by {
            if by_producer(entries[j]) {
                assert(is_removed(calls, entries[j].data_file.file_path));
            }
            if by_calls(entries[j]) {
                assert(is_removed(calls, entries[j].data_file.file_path));
            }
        }
        lemma_filter_agree(entries, by_producer, by_calls);
    }
    assert(first =~= second);
}

} // verus!
