//! Row-level changes to a table.
use std::collections::HashMap;

use uuid::Uuid;
use vstd::hash_set::StringHashSet;
use vstd::prelude::*;

use crate::data_file::{
    files_view, optional_seq, DataContentType, DataFile, DataFileFormat, DataFileView,
    FormatVersion,
};
use crate::error::{invalid, Error, ErrorKind, ErrorView};
use crate::manifest::{
    entries_view, manifests_view, ManifestEntry, ManifestEntryView, ManifestFile, ManifestFileView,
    ManifestStatus,
};
use crate::removal::{
    all_survivors, any_survives, collect_paths, has_path, lemma_all_survivors_contain,
    lemma_survivors_alive, lemma_survivors_not_empty, paths_of, rewrite_manifest, rewritten,
    survives, survivors,
};
use crate::seqs::{lemma_filter_agree, lemma_filter_none};
use crate::snapshot::{
    clone_files, clone_key_metadata, Operation, SnapshotProducer, SnapshotProducerView,
};
use crate::walk::{
    all_live_entries_after, all_live_entries_left, as_existing, carried_from_all, carried_unread,
    deleted_in_all, fate_agrees, law_delete_entries_walk, law_existing_manifests_walk,
    left_or_deleted, lemma_all_left_or_deleted, lemma_carried_manifests_list_the_rest,
    lemma_each_file_is_left_or_deleted, lemma_live_entries_of_carried, live_entries_after,
    live_entries_of, run_delete_entries, run_existing_manifests, DeleteEntries,
    DeleteEntriesStart, DeleteEntriesView, ExistingManifests, ExistingManifestsStart,
    ExistingManifestsView, ManifestFate, ManifestFateView, RemovalRule, StorageAnswers,
};

verus! {

/// Row level changes packed into one snapshot.
pub struct RowDeltaAction {
    check_duplicate: bool,
    commit_uuid: Option<Uuid>,
    key_metadata: Option<Vec<u8>>,
    snapshot_properties: HashMap<String, String>,
    added_data_files: Vec<DataFile>,
    added_delete_files: Vec<DataFile>,
    removed_delete_files: Vec<DataFile>,
}

/// The model of a [`RowDeltaAction`].
#[verifier::ext_equal]
pub struct RowDeltaView {
    pub check_duplicate: bool,
    pub commit_uuid: Option<Uuid>,
    pub key_metadata: Option<Seq<u8>>,
    pub snapshot_properties: Map<String, String>,
    pub added_data_files: Seq<DataFileView>,
    pub added_delete_files: Seq<DataFileView>,
    pub removed_delete_files: Seq<DataFileView>,
}

impl View for RowDeltaAction {
    type V = RowDeltaView;

    closed spec fn view(&self) -> RowDeltaView {
        RowDeltaView {
            check_duplicate: self.check_duplicate,
            commit_uuid: self.commit_uuid,
            key_metadata: optional_seq(self.key_metadata),
            snapshot_properties: self.snapshot_properties@,
            added_data_files: files_view(self.added_data_files@),
            added_delete_files: files_view(self.added_delete_files@),
            removed_delete_files: files_view(self.removed_delete_files@),
        }
    }
}

/// The first error of a sequence of checks, if one of them fails.
pub open spec fn first_error(checks: Seq<Option<ErrorView>>) -> Option<ErrorView>
    decreases checks.len(),
{
    if checks.len() == 0 {
        None
    } else if checks[0] is Some {
        checks[0]
    } else {
        first_error(checks.drop_first())
    }
}

/// The first error is the one before which there is none.
pub(crate) proof fn lemma_first_error(checks: Seq<Option<ErrorView>>, at: int)
    requires
        0 <= at <= checks.len(),
        forall|i: int| 0 <= i < at ==> #[trigger] checks[i] is None,
        at < checks.len() ==> checks[at] is Some,
    ensures
        first_error(checks) == if at < checks.len() {
            checks[at]
        } else {
            None
        },
    decreases checks.len(),
{
    if at > 0 {
        assert(checks[0] is None);
        lemma_first_error(checks.drop_first(), at - 1);
    }
}

/// Why a file cannot be used as a delete file, if it cannot: it has to hold
/// deletes, and equality deletes have to name their fields.
pub open spec fn delete_file_error(label: Seq<char>, file: DataFileView) -> Option<ErrorView> {
    match file.content {
        DataContentType::Data => Some(
            invalid(
                label + " file "@ + file.file_path
                    + " has content type Data; use add_data_files"@,
            ),
        ),
        DataContentType::EqualityDeletes => if file.equality_ids is None
            || file.equality_ids->0.len() == 0 {
            Some(invalid("equality delete "@ + file.file_path + " missing equality_ids"@))
        } else {
            None
        },
        DataContentType::PositionDeletes => None,
    }
}

/// Why a delete file cannot be added to a table of the given format version, if it
/// cannot: the first version has no delete files, the second has no deletion
/// vectors, and the third has nothing else for position deletes.
pub open spec fn format_version_error(format: FormatVersion, file: DataFileView) -> Option<
    ErrorView,
> {
    match format {
        FormatVersion::V1 => Some(invalid("delete files are not supported in V1"@)),
        FormatVersion::V2 => if file.content == DataContentType::PositionDeletes && file.file_format
            == DataFileFormat::Puffin {
            Some(
                invalid(
                    "V2 forbids deletion vectors for position deletes: "@ + file.file_path,
                ),
            )
        } else {
            None
        },
        FormatVersion::V3 => if file.content == DataContentType::PositionDeletes && file.file_format
            != DataFileFormat::Puffin {
            Some(
                invalid(
                    "V3 requires deletion vectors for position deletes: "@ + file.file_path,
                ),
            )
        } else {
            None
        },
    }
}

/// The first error of [`delete_file_error`] over the files.
pub open spec fn delete_files_error(label: Seq<char>, files: Seq<DataFileView>) -> Option<
    ErrorView,
> {
    first_error(files.map_values(|file: DataFileView| delete_file_error(label, file)))
}

/// The first error of [`format_version_error`] over the files.
pub open spec fn format_versions_error(format: FormatVersion, files: Seq<DataFileView>) -> Option<
    ErrorView,
> {
    first_error(files.map_values(|file: DataFileView| format_version_error(format, file)))
}

/// What the snapshot summary records: an append if only data was added, a delete if
/// only deletes were added, else an overwrite.
pub open spec fn row_delta_operation(has_added_data: bool, has_added_deletes: bool) -> Operation {
    if has_added_data && !has_added_deletes {
        Operation::Append
    } else if has_added_deletes && !has_added_data {
        Operation::Delete
    } else {
        Operation::Overwrite
    }
}

impl RowDeltaView {
    /// An action that was given nothing yet.
    pub open spec fn empty() -> Self {
        RowDeltaView {
            check_duplicate: false,
            commit_uuid: None,
            key_metadata: None,
            snapshot_properties: Map::empty(),
            added_data_files: Seq::empty(),
            added_delete_files: Seq::empty(),
            removed_delete_files: Seq::empty(),
        }
    }

    /// The action has neither files nor snapshot properties.
    pub open spec fn has_nothing(self) -> bool {
        &&& self.added_data_files.len() == 0
        &&& self.added_delete_files.len() == 0
        &&& self.removed_delete_files.len() == 0
        &&& self.snapshot_properties.is_empty()
    }

    /// Why the action cannot be committed to a table of the given format version,
    /// if it cannot.
    pub open spec fn error(self, format: FormatVersion) -> Option<ErrorView> {
        if self.has_nothing() {
            Some(
                ErrorView {
                    kind: ErrorKind::PreconditionFailed,
                    message: "row delta requires at least one added or removed file"@,
                },
            )
        } else {
            first_error(
                seq![
                    delete_files_error("added"@, self.added_delete_files),
                    delete_files_error("removed"@, self.removed_delete_files),
                    format_versions_error(format, self.added_delete_files),
                ],
            )
        }
    }

    /// What the action hands over under the given commit UUID.  No data file is
    /// deleted.
    pub open spec fn producer(self, commit_uuid: Uuid) -> SnapshotProducerView {
        SnapshotProducerView {
            commit_uuid,
            key_metadata: self.key_metadata,
            snapshot_properties: self.snapshot_properties,
            added_data_files: self.added_data_files,
            added_delete_files: self.added_delete_files,
            deleted_data_files: Seq::empty(),
            deleted_delete_files: self.removed_delete_files,
            added_data_sequence_number: None,
        }
    }

    /// The operation that the snapshot is produced by.
    pub open spec fn operation(self) -> RowDeltaOperation {
        RowDeltaOperation {
            has_added_data: self.added_data_files.len() != 0,
            has_added_deletes: self.added_delete_files.len() != 0,
        }
    }

    /// What comes of committing the action under the given commit UUID.
    pub open spec fn commit(self, commit_uuid: Uuid) -> RowDeltaCommitView {
        RowDeltaCommitView {
            snapshot_producer: self.producer(commit_uuid),
            operation: self.operation(),
            check_duplicate: self.check_duplicate,
        }
    }
}

/// A row delta that may be committed.
pub struct RowDeltaCommit {
    pub snapshot_producer: SnapshotProducer,
    /// The operation that the snapshot is produced by.
    pub operation: RowDeltaOperation,
    /// Files that the table already refers to are to be rejected.
    pub check_duplicate: bool,
}

/// The model of a [`RowDeltaCommit`].
#[verifier::ext_equal]
pub struct RowDeltaCommitView {
    pub snapshot_producer: SnapshotProducerView,
    pub operation: RowDeltaOperation,
    pub check_duplicate: bool,
}

impl View for RowDeltaCommit {
    type V = RowDeltaCommitView;

    open spec fn view(&self) -> RowDeltaCommitView {
        RowDeltaCommitView {
            snapshot_producer: self.snapshot_producer@,
            operation: self.operation,
            check_duplicate: self.check_duplicate,
        }
    }
}

/// A check of a row delta that is left to be made against the table.
#[derive(Debug, PartialEq, Eq)]
pub enum TableCheck<'a> {
    /// The added files fit the table.
    AddedFiles(&'a Vec<DataFile>),
    /// The table does not refer to any of the added files yet.
    DuplicateFiles,
}

/// The model of a [`TableCheck`].
#[verifier::ext_equal]
pub enum TableCheckView {
    AddedFiles(Seq<DataFileView>),
    DuplicateFiles,
}

impl<'a> View for TableCheck<'a> {
    type V = TableCheckView;

    open spec fn view(&self) -> TableCheckView {
        match *self {
            TableCheck::AddedFiles(files) => TableCheckView::AddedFiles(files_view(files@)),
            TableCheck::DuplicateFiles => TableCheckView::DuplicateFiles,
        }
    }
}

impl RowDeltaCommitView {
    /// The checks that are left to be made against the table, in their order: of the
    /// added data files, of the added delete files, and of duplicates if that was
    /// asked for.
    pub open spec fn table_checks(self) -> Seq<TableCheckView> {
        let added = seq![
            TableCheckView::AddedFiles(self.snapshot_producer.added_data_files),
            TableCheckView::AddedFiles(self.snapshot_producer.added_delete_files),
        ];
        if self.check_duplicate {
            added.push(TableCheckView::DuplicateFiles)
        } else {
            added
        }
    }
}

impl RowDeltaCommit {
    /// The checks that are left to be made against the table, in their order.
    pub fn table_checks<'a>(&'a self) -> (result: Vec<TableCheck<'a>>)
        ensures
            result@.map_values(|check: TableCheck<'a>| check@) == self@.table_checks(),
    {
        let mut checks = vec![
            TableCheck::AddedFiles(&self.snapshot_producer.added_data_files),
            TableCheck::AddedFiles(&self.snapshot_producer.added_delete_files),
        ];
        if self.check_duplicate {
            checks.push(TableCheck::DuplicateFiles);
        }
        assert(checks@.map_values(|check: TableCheck<'a>| check@) =~= self@.table_checks());
        checks
    }
}

/// How a snapshot is produced that holds row-level changes.
#[derive(Debug, Clone, Copy, PartialEq, Eq, Structural)]
pub struct RowDeltaOperation {
    pub has_added_data: bool,
    pub has_added_deletes: bool,
}

impl RowDeltaAction {
    /// Checks that the files can be used as delete files.  `label` says in an error
    /// what the files are for.
    pub fn validate_delete_files(files: &[DataFile], label: &str) -> (result: Result<(), Error>)
        ensures
            match result {
                Ok(()) => delete_files_error(label@, files_view(files@)) is None,
                Err(error) => delete_files_error(label@, files_view(files@)) == Some(error@),
            },
    {
        let ghost checks = files_view(files@).map_values(
            |file: DataFileView| delete_file_error(label@, file),
        );
        for i in 0..files.len()
            invariant
                checks == files_view(files@).map_values(
                    |file: DataFileView| delete_file_error(label@, file),
                ),
                forall|j: int| 0 <= j < i ==> #[trigger] checks[j] is None,
        {
            let file = &files[i];
            assert(checks[i as int] == delete_file_error(label@, file@));
            match file.content {
                DataContentType::PositionDeletes | DataContentType::EqualityDeletes => {},
                DataContentType::Data => {
                    let mut message = label.to_owned();
                    message.append(" file ");
                    message.append(file.file_path.as_str());
                    message.append(" has content type Data; use add_data_files");
                    proof {
                        lemma_first_error(checks, i as int);
                    }
                    return Err(Error::new(ErrorKind::DataInvalid, message));
                },
            }
            if file.content == DataContentType::EqualityDeletes {
                let missing = match &file.equality_ids {
                    Some(ids) => ids.is_empty(),
                    None => true,
                };
                if missing {
                    let mut message = "equality delete ".to_owned();
                    message.append(file.file_path.as_str());
                    message.append(" missing equality_ids");
                    proof {
                        lemma_first_error(checks, i as int);
                    }
                    return Err(Error::new(ErrorKind::DataInvalid, message));
                }
            }
        }
        proof {
            lemma_first_error(checks, checks.len() as int);
        }
        Ok(())
    }

    /// Checks that the delete files can be added to a table of the format version.
    pub fn validate_format_version(files: &[DataFile], format: FormatVersion) -> (result: Result<
        (),
        Error,
    >)
        ensures
            match result {
                Ok(()) => format_versions_error(format, files_view(files@)) is None,
                Err(error) => format_versions_error(format, files_view(files@)) == Some(error@),
            },
    {
        let ghost checks = files_view(files@).map_values(
            |file: DataFileView| format_version_error(format, file),
        );
        for i in 0..files.len()
            invariant
                checks == files_view(files@).map_values(
                    |file: DataFileView| format_version_error(format, file),
                ),
                forall|j: int| 0 <= j < i ==> #[trigger] checks[j] is None,
        {
            let file = &files[i];
            assert(checks[i as int] == format_version_error(format, file@));
            if format == FormatVersion::V1 {
                proof {
                    lemma_first_error(checks, i as int);
                }
                return Err(
                    Error::new(
                        ErrorKind::DataInvalid,
                        "delete files are not supported in V1".to_owned(),
                    ),
                );
            }
            if file.content == DataContentType::PositionDeletes {
                let is_dv = file.file_format == DataFileFormat::Puffin;
                match (format, is_dv) {
                    (FormatVersion::V2, true) => {
                        let mut message = "V2 forbids deletion vectors for position deletes: ".to_owned();
                        message.append(file.file_path.as_str());
                        proof {
                            lemma_first_error(checks, i as int);
                        }
                        return Err(Error::new(ErrorKind::DataInvalid, message));
                    },
                    (FormatVersion::V3, false) => {
                        let mut message = "V3 requires deletion vectors for position deletes: ".to_owned();
                        message.append(file.file_path.as_str());
                        proof {
                            lemma_first_error(checks, i as int);
                        }
                        return Err(Error::new(ErrorKind::DataInvalid, message));
                    },
                    _ => {},
                }
            }
        }
        proof {
            lemma_first_error(checks, checks.len() as int);
        }
        Ok(())
    }

    /// An action that was given nothing yet.
    pub fn new() -> (result: Self)
        ensures
            result@ == RowDeltaView::empty(),
    {
        let result = Self {
            check_duplicate: false,
            commit_uuid: None,
            key_metadata: None,
            snapshot_properties: HashMap::default(),
            added_data_files: vec![],
            added_delete_files: vec![],
            removed_delete_files: vec![],
        };
        assert(result@ =~= RowDeltaView::empty());
        result
    }

    /// Set whether to reject files already referenced by the table.
    /// The check reads the current snapshot's manifests and is disabled by default.
    pub fn with_check_duplicate(self, value: bool) -> (result: Self)
        ensures
            result@ == (RowDeltaView { check_duplicate: value, ..self@ }),
    {
        let mut action = self;
        action.check_duplicate = value;
        action
    }

    /// Add data files to the snapshot.
    pub fn add_data_files(self, data_files: Vec<DataFile>) -> (result: Self)
        ensures
            result@ == (RowDeltaView {
                added_data_files: self@.added_data_files + files_view(data_files@),
                ..self@
            }),
    {
        let ghost before = self@.added_data_files;
        let ghost added = files_view(data_files@);
        let mut action = self;
        let mut data_files = data_files;
        action.added_data_files.append(&mut data_files);
        assert(action@.added_data_files =~= before + added);
        action
    }

    /// Add delete files to the snapshot.
    pub fn add_delete_files(self, delete_files: Vec<DataFile>) -> (result: Self)
        ensures
            result@ == (RowDeltaView {
                added_delete_files: self@.added_delete_files + files_view(delete_files@),
                ..self@
            }),
    {
        let ghost before = self@.added_delete_files;
        let ghost added = files_view(delete_files@);
        let mut action = self;
        let mut delete_files = delete_files;
        action.added_delete_files.append(&mut delete_files);
        assert(action@.added_delete_files =~= before + added);
        action
    }

    /// Remove delete files from the table.
    pub fn remove_delete_files(self, delete_files: Vec<DataFile>) -> (result: Self)
        ensures
            result@ == (RowDeltaView {
                removed_delete_files: self@.removed_delete_files + files_view(delete_files@),
                ..self@
            }),
    {
        let ghost before = self@.removed_delete_files;
        let ghost removed = files_view(delete_files@);
        let mut action = self;
        let mut delete_files = delete_files;
        action.removed_delete_files.append(&mut delete_files);
        assert(action@.removed_delete_files =~= before + removed);
        action
    }

    /// Set commit UUID for the snapshot.
    pub fn set_commit_uuid(self, commit_uuid: Uuid) -> (result: Self)
        ensures
            result@ == (RowDeltaView { commit_uuid: Some(commit_uuid), ..self@ }),
    {
        let mut action = self;
        action.commit_uuid = Some(commit_uuid);
        action
    }

    /// Set key metadata for manifest files.
    pub fn set_key_metadata(self, key_metadata: Vec<u8>) -> (result: Self)
        ensures
            result@ == (RowDeltaView { key_metadata: Some(key_metadata@), ..self@ }),
    {
        let mut action = self;
        action.key_metadata = Some(key_metadata);
        action
    }

    /// Set snapshot summary properties.
    pub fn set_snapshot_properties(self, snapshot_properties: HashMap<String, String>) -> (result:
        Self)
        ensures
            result@ == (RowDeltaView { snapshot_properties: snapshot_properties@, ..self@ }),
    {
        let mut action = self;
        action.snapshot_properties = snapshot_properties;
        action
    }

    /// Checks whether the action can be committed to a table of the given format
    /// version.
    pub fn validate(&self, format_version: FormatVersion) -> (result: Result<(), Error>)
        ensures
            match result {
                Ok(()) => self@.error(format_version) is None,
                Err(error) => self@.error(format_version) == Some(error@),
            },
    {
        if self.added_data_files.is_empty() && self.added_delete_files.is_empty()
            && self.removed_delete_files.is_empty() && self.snapshot_properties.is_empty() {
            return Err(
                Error::new(
                    ErrorKind::PreconditionFailed,
                    "row delta requires at least one added or removed file".to_owned(),
                ),
            );
        }
        proof {
            reveal_with_fuel(first_error, 4);
        }
        let added = self.added_delete_files.as_slice();
        let removed = self.removed_delete_files.as_slice();
        match Self::validate_delete_files(added, "added") {
            Ok(()) => {},
            Err(error) => return Err(error),
        }
        match Self::validate_delete_files(removed, "removed") {
            Ok(()) => {},
            Err(error) => return Err(error),
        }
        Self::validate_format_version(added, format_version)
    }

    fn hand_over(&self, commit_uuid: Uuid) -> (result: RowDeltaCommit)
        ensures
            result@ == self@.commit(commit_uuid),
    {
        let none: Vec<DataFile> = vec![];
        assert(files_view(none@) =~= Seq::empty());
        RowDeltaCommit {
            snapshot_producer: SnapshotProducer {
                commit_uuid,
                key_metadata: clone_key_metadata(&self.key_metadata),
                snapshot_properties: self.snapshot_properties.clone(),
                added_data_files: clone_files(&self.added_data_files),
                added_delete_files: clone_files(&self.added_delete_files),
                deleted_data_files: none,
                deleted_delete_files: clone_files(&self.removed_delete_files),
                added_data_sequence_number: None,
            },
            operation: RowDeltaOperation {
                has_added_data: !self.added_data_files.is_empty(),
                has_added_deletes: !self.added_delete_files.is_empty(),
            },
            check_duplicate: self.check_duplicate,
        }
    }

    /// Checks the action, and hands over what a snapshot is produced from and by,
    /// under the given commit UUID.
    pub fn commit_as(&self, format_version: FormatVersion, commit_uuid: Uuid) -> (result: Result<
        RowDeltaCommit,
        Error,
    >)
        ensures
            match result {
                Ok(commit) => self@.error(format_version) is None && commit@ == self@.commit(
                    commit_uuid,
                ),
                Err(error) => self@.error(format_version) == Some(error@),
            },
    {
        match self.validate(format_version) {
            Ok(()) => Ok(self.hand_over(commit_uuid)),
            Err(error) => Err(error),
        }
    }

    /// Checks the action, and hands over what a snapshot is produced from and by.
    /// If no commit UUID was set, a new one is generated.
    pub fn commit(&self, format_version: FormatVersion) -> (result: Result<RowDeltaCommit, Error>)
        ensures
            match result {
                Ok(commit) => {
                    &&& self@.error(format_version) is None
                    &&& commit@ == self@.commit(commit.snapshot_producer.commit_uuid)
                    &&& self@.commit_uuid matches Some(commit_uuid)
                        ==> commit.snapshot_producer.commit_uuid == commit_uuid
                },
                Err(error) => self@.error(format_version) == Some(error@),
            },
    {
        match self.validate(format_version) {
            Ok(()) => {},
            Err(error) => return Err(error),
        }
        let commit_uuid = match self.commit_uuid {
            Some(commit_uuid) => commit_uuid,
            None => Uuid::now_v7(),
        };
        Ok(self.hand_over(commit_uuid))
    }
}

impl Default for RowDeltaAction {
    fn default() -> (result: Self)
        ensures
            result@ == RowDeltaView::empty(),
    {
        Self::new()
    }
}

/// A copy of the entry that records its file as deleted.
pub fn copy_with_deleted_status(entry: &ManifestEntry) -> (result: Result<ManifestEntry, Error>)
    ensures
        result matches Ok(deleted) && deleted@ == entry@.with_status(ManifestStatus::Deleted),
{
    Ok(entry.copy_with_status(ManifestStatus::Deleted))
}

/// The rule of a row delta: the delete files at the given paths are removed.
pub struct RemovedPaths {
    pub paths: StringHashSet,
}

impl RemovedPaths {
    /// One of the files of the snapshot that the entries list is removed.
    pub open spec fn removes_any(&self, entries: Seq<ManifestEntryView>) -> bool {
        exists|i: int|
            0 <= i < entries.len() && (#[trigger] entries[i]).alive() && self.paths@.contains(
                entries[i].path(),
            )
    }
}

impl RemovalRule for RemovedPaths {
    open spec fn reads_manifests(&self) -> bool {
        !self.paths@.is_empty()
    }

    open spec fn deletes(&self, entry: ManifestEntryView) -> bool {
        entry.alive() && !entry.is_data() && self.paths@.contains(entry.path())
    }

    open spec fn fate(
        &self,
        manifest: ManifestFileView,
        entries: Seq<ManifestEntryView>,
    ) -> ManifestFateView {
        if !self.removes_any(entries) {
            if manifest.has_live_files() {
                ManifestFateView::Keep
            } else {
                ManifestFateView::Drop
            }
        } else if any_survives(entries, self.paths@) {
            ManifestFateView::Rewrite(rewritten(manifest, entries, self.paths@))
        } else {
            ManifestFateView::Drop
        }
    }

    fn needs_manifests(&self) -> (result: bool) {
        !self.paths.is_empty()
    }

    fn delete_entry(&self, entry: &ManifestEntry) -> (result: Option<ManifestEntry>) {
        if !entry.is_alive() {
            return None;
        }
        if entry.is_data() {
            return None;
        }
        if self.paths.contains(entry.data_file.file_path.as_str()) {
            Some(copy_with_deleted_status(entry).unwrap())
        } else {
            None
        }
    }

    fn manifest_fate(&self, manifest: &ManifestFile, entries: &Vec<ManifestEntry>) -> (result:
        ManifestFate) {
        let ghost all = entries_view(entries@);
        let mut has_removal: bool = false;
        let mut has_survivor: bool = false;
        assert(!self.removes_any(all.take(0)));
        assert(!any_survives(all.take(0), self.paths@));
        for i in 0..entries.len()
            invariant
                all == entries_view(entries@),
                has_removal == self.removes_any(all.take(i as int)),
                has_survivor == any_survives(all.take(i as int), self.paths@),
        {
            let entry = &entries[i];
            proof {
                lemma_flags_step(*self, all, i as int);
            }
            if entry.status != ManifestStatus::Deleted {
                if self.paths.contains(entry.data_file.file_path.as_str()) {
                    has_removal = true;
                } else {
                    has_survivor = true;
                }
            }
        }
        assert(all.take(all.len() as int) =~= all);
        if !has_removal {
            if manifest.has_live_files() {
                return ManifestFate::Keep;
            }
            return ManifestFate::Drop;
        }
        // The deleted entries are recorded elsewhere, so a manifest whose files
        // all go needs no replacement.
        if !has_survivor {
            return ManifestFate::Drop;
        }
        ManifestFate::Rewrite(rewrite_manifest(manifest, entries, &self.paths))
    }

    proof fn deletes_whatever_the_status(
        &self,
        entry: ManifestEntryView,
        other: ManifestEntryView,
    ) {
        let recorded = entry.with_status(ManifestStatus::Deleted);
        assert(recorded.data_file == other.data_file);
    }
}

/// Looking at one entry more.
proof fn lemma_flags_step(rule: RemovedPaths, entries: Seq<ManifestEntryView>, count: int)
    requires
        0 <= count < entries.len(),
    ensures
        rule.removes_any(entries.take(count + 1)) == (rule.removes_any(entries.take(count)) || (
        entries[count].alive() && rule.paths@.contains(entries[count].path()))),
        any_survives(entries.take(count + 1), rule.paths@) == (any_survives(
            entries.take(count),
            rule.paths@,
        ) || survives(entries[count], rule.paths@)),
{
    let shorter = entries.take(count);
    let longer = entries.take(count + 1);
    assert(longer[count] == entries[count]);
    assert forall|i: int| 0 <= i < count implies #[trigger] longer[i] == shorter[i] by {}
    if rule.removes_any(shorter) {
        let i = choose|i: int|
            0 <= i < shorter.len() && (#[trigger] shorter[i]).alive() && rule.paths@.contains(
                shorter[i].path(),
            );
        assert(longer[i].alive());
    }
    if rule.removes_any(longer) {
        let i = choose|i: int|
            0 <= i < longer.len() && (#[trigger] longer[i]).alive() && rule.paths@.contains(
                longer[i].path(),
            );
        if i < count {
            assert(shorter[i].alive());
        }
    }
    if any_survives(shorter, rule.paths@) {
        let i = choose|i: int| 0 <= i < shorter.len() && survives(#[trigger] shorter[i], rule.paths@);
        assert(survives(longer[i], rule.paths@));
    }
    if any_survives(longer, rule.paths@) {
        let i = choose|i: int| 0 <= i < longer.len() && survives(#[trigger] longer[i], rule.paths@);
        if i < count {
            assert(survives(shorter[i], rule.paths@));
        }
    }
}

impl RowDeltaOperation {
    /// What the snapshot summary records.  Removing delete files alone does not
    /// change it because the live row set is unaffected.
    pub fn operation(&self) -> (result: Operation)
        ensures
            result == row_delta_operation(self.has_added_data, self.has_added_deletes),
    {
        if self.has_added_data && !self.has_added_deletes {
            Operation::Append
        } else if self.has_added_deletes && !self.has_added_data {
            Operation::Delete
        } else {
            Operation::Overwrite
        }
    }

    /// Starts to collect the entries of the delete files that are removed.  Without
    /// any, or without a current snapshot, there are none.
    pub fn delete_entries(
        &self,
        snapshot_producer: &SnapshotProducer,
        has_current_snapshot: bool,
    ) -> (result: DeleteEntries<RemovedPaths>)
        ensures
            if snapshot_producer@.deleted_delete_files.len() != 0 && has_current_snapshot {
                result@ matches DeleteEntriesView::LoadManifestList(rule) && rule.paths@
                    == paths_of(snapshot_producer@.deleted_delete_files)
            } else {
                result@ == DeleteEntriesView::<RemovedPaths>::Done(Seq::empty())
            },
    {
        if snapshot_producer.deleted_delete_files.is_empty() || !has_current_snapshot {
            let none: Vec<ManifestEntry> = vec![];
            assert(entries_view(none@) =~= Seq::empty());
            return DeleteEntries::Done(none);
        }
        let paths = collect_paths(&snapshot_producer.deleted_delete_files);
        DeleteEntries::LoadManifestList(DeleteEntriesStart::new(RemovedPaths { paths }))
    }

    /// Starts to collect the manifests that are carried over.  Without a current
    /// snapshot there are none.
    pub fn existing_manifest(
        &self,
        snapshot_producer: &SnapshotProducer,
        has_current_snapshot: bool,
    ) -> (result: ExistingManifests<RemovedPaths>)
        ensures
            if has_current_snapshot {
                result@ matches ExistingManifestsView::LoadManifestList(rule) && rule.paths@
                    == paths_of(snapshot_producer@.deleted_delete_files)
            } else {
                result@ == ExistingManifestsView::<RemovedPaths>::Done(Seq::empty())
            },
    {
        if !has_current_snapshot {
            let none: Vec<ManifestFile> = vec![];
            assert(manifests_view(none@) =~= Seq::empty());
            return ExistingManifests::Done(none);
        }
        let paths = collect_paths(&snapshot_producer.deleted_delete_files);
        ExistingManifests::LoadManifestList(ExistingManifestsStart::new(RemovedPaths { paths }))
    }
}

/// Removing delete files does not change what the snapshot summary records, because
/// the live row set is unaffected.
pub proof fn law_removals_do_not_change_the_operation(
    action: RowDeltaView,
    removed: Seq<DataFileView>,
)
    ensures
        ({
            let more = RowDeltaView {
                removed_delete_files: action.removed_delete_files + removed,
                ..action
            };
            row_delta_operation(
                more.operation().has_added_data,
                more.operation().has_added_deletes,
            ) == row_delta_operation(
                action.operation().has_added_data,
                action.operation().has_added_deletes,
            )
        }),
{
}

/// A position delete file fits tables of exactly one of the format versions two and
/// three.
pub proof fn law_position_deletes_fit_one_version(file: DataFileView)
    requires
        file.content == DataContentType::PositionDeletes,
    ensures
        format_version_error(FormatVersion::V2, file) is None <==> format_version_error(
            FormatVersion::V3,
            file,
        ) is Some,
        format_versions_error(FormatVersion::V2, seq![file]) is None <==> format_versions_error(
            FormatVersion::V3,
            seq![file],
        ) is Some,
{
    reveal_with_fuel(first_error, 2);
}

proof fn lemma_first_error_joined(first: Seq<Option<ErrorView>>, second: Seq<Option<ErrorView>>)
    ensures
        first_error(first + second) == if first_error(first) is Some {
            first_error(first)
        } else {
            first_error(second)
        },
    decreases first.len(),
{
    if first.len() > 0 {
        assert((first + second).drop_first() =~= first.drop_first() + second);
        lemma_first_error_joined(first.drop_first(), second);
    } else {
        assert(first + second =~= second);
    }
}

/// Each file is judged by itself, and the earliest fault is reported: what is wrong
/// with two lists of files joined is what is wrong with the first, or else with the
/// second.
pub proof fn law_joined_files_are_checked_in_turn(
    label: Seq<char>,
    format: FormatVersion,
    first: Seq<DataFileView>,
    second: Seq<DataFileView>,
)
    ensures
        delete_files_error(label, first + second) == if delete_files_error(label, first) is Some {
            delete_files_error(label, first)
        } else {
            delete_files_error(label, second)
        },
        format_versions_error(format, first + second) == if format_versions_error(
            format,
            first,
        ) is Some {
            format_versions_error(format, first)
        } else {
            format_versions_error(format, second)
        },
{
    let usable = |file: DataFileView| delete_file_error(label, file);
    assert((first + second).map_values(usable) =~= first.map_values(usable) + second.map_values(
        usable,
    ));
    lemma_first_error_joined(first.map_values(usable), second.map_values(usable));
    let fits = |file: DataFileView| format_version_error(format, file);
    assert((first + second).map_values(fits) =~= first.map_values(fits) + second.map_values(fits));
    lemma_first_error_joined(first.map_values(fits), second.map_values(fits));
}

proof fn lemma_no_error(checks: Seq<Option<ErrorView>>)
    ensures
        first_error(checks) is None <==> (forall|i: int|
            0 <= i < checks.len() ==> #[trigger] checks[i] is None),
    decreases checks.len(),
{
    if checks.len() > 0 {
        let rest = checks.drop_first();
        lemma_no_error(rest);
        assert forall|i: int| 0 <= i < rest.len() implies #[trigger] rest[i] == checks[i + 1] by {}
        if checks[0] is None && first_error(rest) is None {
            assert forall|i: int| 0 <= i < checks.len() implies #[trigger] checks[i] is None by {
                if i > 0 {
                    assert(rest[i - 1] is None);
                }
            }
        }
        if forall|i: int| 0 <= i < checks.len() ==> #[trigger] checks[i] is None {
            assert(checks[0] is None);
            assert forall|i: int| 0 <= i < rest.len() implies #[trigger] rest[i] is None by {
                assert(checks[i + 1] is None);
            }
        }
    }
}

/// An action is accepted exactly if it has something in it, all its delete files, the
/// added and the removed ones, can be used as delete files, and the added ones fit
/// the format version of the table.
pub proof fn law_acceptance(action: RowDeltaView, format: FormatVersion)
    ensures
        action.error(format) is None <==> {
            &&& !action.has_nothing()
            &&& forall|i: int|
                0 <= i < action.added_delete_files.len() ==> {
                    &&& delete_file_error(
                        "added"@,
                        #[trigger] action.added_delete_files[i],
                    ) is None
                    &&& format_version_error(format, action.added_delete_files[i]) is None
                }
            &&& forall|i: int|
                0 <= i < action.removed_delete_files.len() ==> delete_file_error(
                    "removed"@,
                    #[trigger] action.removed_delete_files[i],
                ) is None
        },
{
    reveal_with_fuel(first_error, 4);
    let added = action.added_delete_files.map_values(
        |file: DataFileView| delete_file_error("added"@, file),
    );
    let removed = action.removed_delete_files.map_values(
        |file: DataFileView| delete_file_error("removed"@, file),
    );
    let format_checks = action.added_delete_files.map_values(
        |file: DataFileView| format_version_error(format, file),
    );
    lemma_no_error(added);
    lemma_no_error(removed);
    lemma_no_error(format_checks);
    assert forall|i: int| 0 <= i < action.added_delete_files.len() implies #[trigger] added[i]
        == delete_file_error("added"@, action.added_delete_files[i]) && format_checks[i]
        == format_version_error(format, action.added_delete_files[i]) by {}
    if !action.has_nothing() && action.error(format) is None {
        assert(first_error(added) is None);
        assert(first_error(removed) is None);
        assert(first_error(format_checks) is None);
        assert forall|i: int| 0 <= i < action.added_delete_files.len() implies {
            &&& delete_file_error("added"@, #[trigger] action.added_delete_files[i]) is None
            &&& format_version_error(format, action.added_delete_files[i]) is None
        } by {
            assert(added[i] is None);
            assert(format_checks[i] is None);
        }
        assert forall|i: int| 0 <= i < action.removed_delete_files.len() implies delete_file_error(
            "removed"@,
            #[trigger] action.removed_delete_files[i],
        ) is None by {
            assert(removed[i] is None);
        }
    }
}

/// A table of the first format version takes no delete files.
pub proof fn law_first_version_takes_no_delete_files(action: RowDeltaView)
    requires
        action.added_delete_files.len() != 0,
    ensures
        action.error(FormatVersion::V1) is Some,
{
    law_acceptance(action, FormatVersion::V1);
    if action.error(FormatVersion::V1) is None {
        assert(format_version_error(FormatVersion::V1, action.added_delete_files[0]) is None);
    }
}

impl RemovedPaths {
    /// No live data file is at the path of a removed delete file.
    pub open spec fn spares_data_files(&self, entries: Seq<ManifestEntryView>) -> bool {
        forall|i: int|
            0 <= i < entries.len() && (#[trigger] entries[i]).alive() && self.paths@.contains(
                entries[i].path(),
            ) ==> !entries[i].is_data()
    }

    /// The manifest list knows of the live files of the manifest, or one of them is
    /// removed.
    pub open spec fn knows_live_files(
        &self,
        manifest: ManifestFileView,
        entries: Seq<ManifestEntryView>,
    ) -> bool {
        ||| self.removes_any(entries)
        ||| manifest.has_live_files()
        ||| forall|i: int| 0 <= i < entries.len() ==> !(#[trigger] entries[i]).alive()
    }
}

/// Of a manifest, the new snapshot has exactly the live files whose path is not that of a
/// removed file, with their snapshot ids and sequence numbers.
pub proof fn law_row_delta_keeps_survivors_of_a_manifest(
    rule: RemovedPaths,
    manifest: ManifestFileView,
    entries: Seq<ManifestEntryView>,
)
    requires
        rule.knows_live_files(manifest, entries),
    ensures
        as_existing(live_entries_after(rule.fate(manifest, entries), entries)) == survivors(
            entries,
            rule.paths@,
        ),
{
    let alive = |entry: ManifestEntryView| entry.alive();
    let surviving = |entry: ManifestEntryView| survives(entry, rule.paths@);
    if !rule.removes_any(entries) {
        assert forall|i: int| 0 <= i < entries.len() implies alive(#[trigger] entries[i])
            == surviving(entries[i]) by {}
        lemma_filter_agree(entries, alive, surviving);
        if !manifest.has_live_files() {
            lemma_filter_none(entries, alive);
            assert(survivors(entries, rule.paths@) =~= Seq::empty());
        }
    } else if any_survives(entries, rule.paths@) {
        lemma_survivors_alive(entries, rule.paths@);
        assert(as_existing(survivors(entries, rule.paths@)) =~= survivors(entries, rule.paths@));
    } else {
        lemma_filter_none(entries, surviving);
        assert(survivors(entries, rule.paths@) =~= Seq::empty());
    }
}

/// Of a manifest, the new snapshot has exactly the live files that are not removed,
/// with their snapshot ids and sequence numbers.
pub proof fn law_row_delta_keeps_the_rest_of_a_manifest(
    rule: RemovedPaths,
    manifest: ManifestFileView,
    entries: Seq<ManifestEntryView>,
)
    requires
        rule.spares_data_files(entries),
        rule.knows_live_files(manifest, entries),
    ensures
        fate_agrees(rule, manifest, entries),
{
    law_row_delta_keeps_survivors_of_a_manifest(rule, manifest, entries);
    let surviving = |entry: ManifestEntryView| survives(entry, rule.paths@);
    let left = |entry: ManifestEntryView| entry.alive() && !rule.deletes(entry);
    assert forall|i: int| 0 <= i < entries.len() implies surviving(#[trigger] entries[i]) == left(
        entries[i],
    ) by {}
    lemma_filter_agree(entries, surviving, left);
}

proof fn lemma_all_survivors_after(
    rule: RemovedPaths,
    manifests: Seq<ManifestFileView>,
    contents: Seq<Seq<ManifestEntryView>>,
)
    requires
        manifests.len() == contents.len(),
        forall|i: int|
            0 <= i < contents.len() ==> rule.knows_live_files(
                manifests[i],
                #[trigger] contents[i],
            ),
    ensures
        as_existing(all_live_entries_after(rule, manifests, contents)) == all_survivors(
            contents,
            rule.paths@,
        ),
    decreases contents.len(),
{
    if contents.len() > 0 {
        let last = contents.len() - 1;
        let manifests_before = manifests.drop_last();
        let contents_before = contents.drop_last();
        assert forall|i: int| 0 <= i < contents_before.len() implies rule.knows_live_files(
            manifests_before[i],
            #[trigger] contents_before[i],
        ) by {
            assert(contents[i] == contents_before[i]);
        }
        lemma_all_survivors_after(rule, manifests_before, contents_before);
        law_row_delta_keeps_survivors_of_a_manifest(rule, manifests[last], contents[last]);
        let before = all_live_entries_after(rule, manifests_before, contents_before);
        let after = live_entries_after(rule.fate(manifests[last], contents[last]), contents[last]);
        assert(as_existing(before + after) =~= as_existing(before) + as_existing(after));
    } else {
        assert(as_existing(all_live_entries_after(rule, manifests, contents)) =~= Seq::empty());
    }
}

proof fn lemma_row_delta_carries_over(rule: RemovedPaths, storage: StorageAnswers)
    requires
        storage.complete(),
    ensures
        run_existing_manifests(ExistingManifestsView::LoadManifestList(rule), storage)
            == carried_from_all(rule, storage.manifests, storage.contents, storage.written),
{
    law_existing_manifests_walk(rule, storage);
    if !rule.reads_manifests() {
        assert(rule.paths@ =~= paths_of(Seq::empty()));
        law_nothing_removed_needs_no_reading(rule, Seq::empty(), storage);
    }
}

/// The manifests that a row delta carries over list exactly the live files of the
/// current snapshot whose path is not that of a removed file, with their snapshot ids
/// and sequence numbers, in their order.
pub proof fn law_row_delta_keeps_survivors(
    rule: RemovedPaths,
    lists: spec_fn(ManifestFileView) -> Seq<ManifestEntryView>,
    storage: StorageAnswers,
)
    requires
        storage.faithful(rule, lists),
        forall|i: int|
            0 <= i < storage.contents.len() ==> rule.knows_live_files(
                storage.manifests[i],
                #[trigger] storage.contents[i],
            ),
    ensures
        as_existing(
            live_entries_of(
                lists,
                run_existing_manifests(ExistingManifestsView::LoadManifestList(rule), storage),
            ),
        ) == all_survivors(storage.contents, rule.paths@),
{
    lemma_row_delta_carries_over(rule, storage);
    lemma_live_entries_of_carried(rule, lists, storage);
    lemma_all_survivors_after(rule, storage.manifests, storage.contents);
}

/// The manifests that a row delta carries over list exactly the live files of the
/// current snapshot that are not removed, with their snapshot ids and sequence
/// numbers, in their order.
pub proof fn law_row_delta_keeps_the_rest(
    rule: RemovedPaths,
    lists: spec_fn(ManifestFileView) -> Seq<ManifestEntryView>,
    storage: StorageAnswers,
)
    requires
        storage.faithful(rule, lists),
        forall|i: int|
            0 <= i < storage.contents.len() ==> {
                &&& rule.spares_data_files(#[trigger] storage.contents[i])
                &&& rule.knows_live_files(storage.manifests[i], storage.contents[i])
            },
    ensures
        as_existing(
            live_entries_of(
                lists,
                run_existing_manifests(ExistingManifestsView::LoadManifestList(rule), storage),
            ),
        ) == as_existing(all_live_entries_left(rule, storage.contents)),
{
    assert forall|i: int| 0 <= i < storage.contents.len() implies fate_agrees(
        rule,
        storage.manifests[i],
        #[trigger] storage.contents[i],
    ) by {
        law_row_delta_keeps_the_rest_of_a_manifest(
            rule,
            storage.manifests[i],
            storage.contents[i],
        );
    }
    lemma_carried_manifests_list_the_rest(rule, lists, storage);
    lemma_row_delta_carries_over(rule, storage);
}

/// Each live file of the current snapshot is either recorded as deleted by a row delta or
/// listed by a manifest that is carried over, and never both.
pub proof fn law_row_delta_leaves_or_deletes_each_file(
    rule: RemovedPaths,
    lists: spec_fn(ManifestFileView) -> Seq<ManifestEntryView>,
    storage: StorageAnswers,
    manifest: int,
    at: int,
)
    requires
        storage.faithful(rule, lists),
        forall|i: int|
            0 <= i < storage.contents.len() ==> {
                &&& rule.spares_data_files(#[trigger] storage.contents[i])
                &&& rule.knows_live_files(storage.manifests[i], storage.contents[i])
            },
        0 <= manifest < storage.contents.len(),
        0 <= at < storage.contents[manifest].len(),
        storage.contents[manifest][at].alive(),
    ensures
        left_or_deleted(rule, lists, storage, storage.contents[manifest][at]),
{
    law_row_delta_keeps_the_rest(rule, lists, storage);
    lemma_each_file_is_left_or_deleted(rule, lists, storage, manifest, at);
}

/// A row delta never records a data file as deleted, and a live data file stays in the
/// snapshot unless its path is that of a removed delete file.
pub proof fn law_row_delta_keeps_data_files(
    rule: RemovedPaths,
    lists: spec_fn(ManifestFileView) -> Seq<ManifestEntryView>,
    storage: StorageAnswers,
    manifest: int,
    at: int,
)
    requires
        storage.faithful(rule, lists),
        forall|i: int|
            0 <= i < storage.contents.len() ==> rule.knows_live_files(
                storage.manifests[i],
                #[trigger] storage.contents[i],
            ),
        0 <= manifest < storage.contents.len(),
        0 <= at < storage.contents[manifest].len(),
        storage.contents[manifest][at].alive(),
        storage.contents[manifest][at].is_data(),
    ensures
        !run_delete_entries(DeleteEntriesView::LoadManifestList(rule), storage).contains(
            storage.contents[manifest][at].with_status(ManifestStatus::Deleted),
        ),
        !rule.paths@.contains(storage.contents[manifest][at].path()) ==> as_existing(
            live_entries_of(
                lists,
                run_existing_manifests(ExistingManifestsView::LoadManifestList(rule), storage),
            ),
        ).contains(storage.contents[manifest][at].with_status(ManifestStatus::Existing)),
{
    let entry = storage.contents[manifest][at];
    law_delete_entries_walk(rule, storage);
    lemma_all_left_or_deleted(rule, storage.contents, entry);
    law_row_delta_keeps_survivors(rule, lists, storage);
    if !rule.paths@.contains(entry.path()) {
        lemma_all_survivors_contain(storage.contents, rule.paths@, manifest, at);
    }
}

/// A manifest that takes the place of another one is of the same content and partition
/// spec, and is not empty.
pub proof fn law_row_delta_manifests_keep_their_kind(
    rule: RemovedPaths,
    manifest: ManifestFileView,
    entries: Seq<ManifestEntryView>,
)
    ensures
        rule.fate(manifest, entries) matches ManifestFateView::Rewrite(draft) ==> {
            &&& draft.content == manifest.content
            &&& draft.partition_spec_id == manifest.partition_spec_id
            &&& draft.entries.len() > 0
        },
{
    if rule.fate(manifest, entries) is Rewrite {
        lemma_survivors_not_empty(entries, rule.paths@);
    }
}

/// Where no delete file is removed no manifest is read, and what is carried over and what
/// is recorded as deleted is what reading the manifests would have led to, whatever is
/// in them.
pub proof fn law_nothing_removed_needs_no_reading(
    rule: RemovedPaths,
    removed: Seq<DataFileView>,
    storage: StorageAnswers,
)
    requires
        removed.len() == 0,
        rule.paths@ == paths_of(removed),
        storage.complete(),
    ensures
        !rule.reads_manifests(),
        carried_unread(storage.manifests) == carried_from_all(
            rule,
            storage.manifests,
            storage.contents,
            storage.written,
        ),
        deleted_in_all(rule, storage.contents) == Seq::<ManifestEntryView>::empty(),
    decreases storage.manifests.len(),
{
    reveal(Seq::filter);
    assert(rule.paths@ =~= Set::empty());
    if storage.manifests.len() > 0 {
        let shorter = StorageAnswers {
            manifests: storage.manifests.drop_last(),
            contents: storage.contents.drop_last(),
            written: storage.written.drop_last(),
        };
        law_nothing_removed_needs_no_reading(rule, removed, shorter);
        assert(!rule.removes_any(storage.contents.last()));
        lemma_filter_none(
            storage.contents.last(),
            |entry: ManifestEntryView| rule.deletes(entry),
        );
        assert(deleted_in_all(rule, storage.contents) =~= Seq::empty());
        assert(carried_unread(storage.manifests) =~= carried_from_all(
            rule,
            storage.manifests,
            storage.contents,
            storage.written,
        ));
    }
}

/// Where a delete file is removed the manifests are read, and each live entry of a
/// removed delete file is recorded as deleted.  The file is recognised by its path,
/// whatever else was given with it.
pub proof fn law_removed_files_are_deleted(
    rule: RemovedPaths,
    removed: Seq<DataFileView>,
    at: int,
    entry: ManifestEntryView,
)
    requires
        0 <= at < removed.len(),
        rule.paths@ == paths_of(removed),
        entry.alive(),
        !entry.is_data(),
        entry.path() == removed[at].file_path,
    ensures
        rule.reads_manifests(),
        rule.deletes(entry),
{
    assert(has_path(removed, removed[at].file_path));
    assert(rule.paths@.contains(entry.path()));
}

} // verus!
