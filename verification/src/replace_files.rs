//! Replacing files of a table by other files.
use std::collections::HashMap;
use std::marker::PhantomData;

use uuid::Uuid;
use vstd::hash_set::StringHashSet;
use vstd::prelude::*;

use crate::data_file::{files_view, optional_seq, DataContentType, DataFile, DataFileView};
use crate::error::{invalid, Error, ErrorKind, ErrorView};
use crate::manifest::{
    entries_view, manifests_view, ManifestEntry, ManifestEntryView, ManifestFile, ManifestFileView,
    ManifestStatus,
};
use crate::removal::{
    any_survives, contains_path, has_path, has_survivor, lemma_survivors_alive,
    lemma_survivors_not_empty, rewrite_manifest, rewritten, survives, survivors,
};
use crate::seqs::{lemma_filter_agree, lemma_filter_none};
use crate::snapshot::{
    clone_files, clone_key_metadata, Operation, SnapshotProducer, SnapshotProducerView,
};
use crate::walk::{
    all_live_entries_left, as_existing, fate_agrees, law_existing_manifests_walk, left_or_deleted,
    lemma_carried_manifests_list_the_rest, lemma_each_file_is_left_or_deleted, live_entries_left,
    live_entries_of, run_existing_manifests, DeleteEntries, DeleteEntriesStart, DeleteEntriesView,
    ExistingManifests, ExistingManifestsStart, ExistingManifestsView, ManifestFate,
    ManifestFateView, RemovalRule, StorageAnswers,
};

verus! {

/// Which snapshot operation a file replacement records.
///
/// Rewrites and overwrites share the same manifest handling but have different
/// logical meanings in the Iceberg snapshot summary.
pub trait ReplaceFilesMode: Send + Sync + 'static {
    const OPERATION: Operation;

    /// The value of [`Self::OPERATION`].
    spec fn recorded() -> Operation;

    proof fn operation_is_recorded()
        ensures
            Self::OPERATION == Self::recorded(),
    ;
}

/// Files were replaced without changing table data.
pub struct Rewrite;

/// Files were replaced as a logical overwrite.
pub struct Overwrite;

impl ReplaceFilesMode for Rewrite {
    const OPERATION: Operation = Operation::Replace;

    open spec fn recorded() -> Operation {
        Operation::Replace
    }

    proof fn operation_is_recorded() {
    }
}

impl ReplaceFilesMode for Overwrite {
    const OPERATION: Operation = Operation::Overwrite;

    open spec fn recorded() -> Operation {
        Operation::Overwrite
    }

    proof fn operation_is_recorded() {
    }
}

/// Transaction action for replacing files.
pub struct ReplaceFilesAction<M: ReplaceFilesMode> {
    commit_uuid: Option<Uuid>,
    key_metadata: Option<Vec<u8>>,
    snapshot_properties: HashMap<String, String>,
    added_data_files: Vec<DataFile>,
    added_delete_files: Vec<DataFile>,
    deleted_data_files: Vec<DataFile>,
    deleted_delete_files: Vec<DataFile>,
    data_sequence_number: Option<i64>,
    starting_snapshot_id: Option<i64>,
    full_table_overwrite: bool,
    _mode: PhantomData<M>,
}

/// Rewrites files without changing table data.
pub type RewriteFilesAction = ReplaceFilesAction<Rewrite>;

/// Replaces files as a logical overwrite.
pub type OverwriteFilesAction = ReplaceFilesAction<Overwrite>;

/// The model of a [`ReplaceFilesAction`].
#[verifier::ext_equal]
pub struct ReplaceFilesView {
    pub commit_uuid: Option<Uuid>,
    pub key_metadata: Option<Seq<u8>>,
    pub snapshot_properties: Map<String, String>,
    pub added_data_files: Seq<DataFileView>,
    pub added_delete_files: Seq<DataFileView>,
    pub deleted_data_files: Seq<DataFileView>,
    pub deleted_delete_files: Seq<DataFileView>,
    pub data_sequence_number: Option<i64>,
    pub starting_snapshot_id: Option<i64>,
    pub full_table_overwrite: bool,
}

impl<M: ReplaceFilesMode> View for ReplaceFilesAction<M> {
    type V = ReplaceFilesView;

    closed spec fn view(&self) -> ReplaceFilesView {
        ReplaceFilesView {
            commit_uuid: self.commit_uuid,
            key_metadata: optional_seq(self.key_metadata),
            snapshot_properties: self.snapshot_properties@,
            added_data_files: files_view(self.added_data_files@),
            added_delete_files: files_view(self.added_delete_files@),
            deleted_data_files: files_view(self.deleted_data_files@),
            deleted_delete_files: files_view(self.deleted_delete_files@),
            data_sequence_number: self.data_sequence_number,
            starting_snapshot_id: self.starting_snapshot_id,
            full_table_overwrite: self.full_table_overwrite,
        }
    }
}

/// The data files among the given files, in their order.
pub open spec fn data_files_among(files: Seq<DataFileView>) -> Seq<DataFileView> {
    files.filter(|file: DataFileView| file.content == DataContentType::Data)
}

/// The delete files among the given files, in their order.
pub open spec fn delete_files_among(files: Seq<DataFileView>) -> Seq<DataFileView> {
    files.filter(|file: DataFileView| file.content != DataContentType::Data)
}

/// Every file is a data file.
pub open spec fn only_data_files(files: Seq<DataFileView>) -> bool {
    forall|i: int|
        0 <= i < files.len() ==> (#[trigger] files[i]).content == DataContentType::Data
}

/// No file is a data file.
pub open spec fn only_delete_files(files: Seq<DataFileView>) -> bool {
    forall|i: int|
        0 <= i < files.len() ==> (#[trigger] files[i]).content != DataContentType::Data
}

impl ReplaceFilesView {
    /// An action that was given nothing yet.
    pub open spec fn empty() -> Self {
        ReplaceFilesView {
            commit_uuid: None,
            key_metadata: None,
            snapshot_properties: Map::empty(),
            added_data_files: Seq::empty(),
            added_delete_files: Seq::empty(),
            deleted_data_files: Seq::empty(),
            deleted_delete_files: Seq::empty(),
            data_sequence_number: None,
            starting_snapshot_id: None,
            full_table_overwrite: false,
        }
    }

    /// The action with files to be added.
    pub open spec fn adding(self, files: Seq<DataFileView>) -> Self {
        ReplaceFilesView {
            added_data_files: self.added_data_files + data_files_among(files),
            added_delete_files: self.added_delete_files + delete_files_among(files),
            ..self
        }
    }

    /// The action with files to be deleted.
    pub open spec fn deleting(self, files: Seq<DataFileView>) -> Self {
        ReplaceFilesView {
            deleted_data_files: self.deleted_data_files + data_files_among(files),
            deleted_delete_files: self.deleted_delete_files + delete_files_among(files),
            ..self
        }
    }

    /// Data files and delete files are kept apart, and only an action that
    /// records an overwrite replaces the complete table.
    pub open spec fn well_formed(self, operation: Operation) -> bool {
        &&& only_data_files(self.added_data_files)
        &&& only_delete_files(self.added_delete_files)
        &&& only_data_files(self.deleted_data_files)
        &&& only_delete_files(self.deleted_delete_files)
        &&& self.full_table_overwrite ==> operation == Operation::Overwrite
    }

    /// What the action hands over under the given commit UUID.
    pub open spec fn producer(self, commit_uuid: Uuid) -> SnapshotProducerView {
        SnapshotProducerView {
            commit_uuid,
            key_metadata: self.key_metadata,
            snapshot_properties: self.snapshot_properties,
            added_data_files: self.added_data_files,
            added_delete_files: self.added_delete_files,
            deleted_data_files: self.deleted_data_files,
            deleted_delete_files: self.deleted_delete_files,
            added_data_sequence_number: self.data_sequence_number,
        }
    }
}

proof fn lemma_split_keeps_kinds(kept: Seq<DataFileView>, files: Seq<DataFileView>)
    ensures
        only_data_files(kept) ==> only_data_files(kept + data_files_among(files)),
        only_delete_files(kept) ==> only_delete_files(kept + delete_files_among(files)),
{
    broadcast use vstd::seq_lib::group_filter_ensures;

}

/// Splits files into data files, which go to the end of `data_files`, and delete
/// files, which go to the end of `delete_files`.
fn split_files(
    files: Vec<DataFile>,
    data_files: &mut Vec<DataFile>,
    delete_files: &mut Vec<DataFile>,
)
    ensures
        files_view(final(data_files)@) == files_view(old(data_files)@) + data_files_among(
            files_view(files@),
        ),
        files_view(final(delete_files)@) == files_view(old(delete_files)@) + delete_files_among(
            files_view(files@),
        ),
{
    let ghost all = files_view(files@);
    reveal(Seq::filter);
    assert(files_view(data_files@) =~= files_view(old(data_files)@) + data_files_among(
        all.take(0),
    ));
    assert(files_view(delete_files@) =~= files_view(old(delete_files)@) + delete_files_among(
        all.take(0),
    ));
    for file in iter: files
        invariant
            all == files_view(iter.seq()),
            files_view(data_files@) == files_view(old(data_files)@) + data_files_among(
                all.take(iter.index()),
            ),
            files_view(delete_files@) == files_view(old(delete_files)@) + delete_files_among(
                all.take(iter.index()),
            ),
    {
        proof {
            reveal(Seq::filter);
            let longer = all.take(iter.index() + 1);
            assert(longer.drop_last() =~= all.take(iter.index()));
            assert(longer.last() == file@);
        }
        let ghost data_so_far = data_files@;
        let ghost deletes_so_far = delete_files@;
        match file.content {
            DataContentType::Data => {
                data_files.push(file);
                assert(files_view(data_files@) =~= files_view(data_so_far).push(file@));
            },
            DataContentType::PositionDeletes | DataContentType::EqualityDeletes => {
                delete_files.push(file);
                assert(files_view(delete_files@) =~= files_view(deletes_so_far).push(file@));
            },
        }
        assert(files_view(data_files@) =~= files_view(old(data_files)@) + data_files_among(
            all.take(iter.index() + 1),
        ));
        assert(files_view(delete_files@) =~= files_view(old(delete_files)@) + delete_files_among(
            all.take(iter.index() + 1),
        ));
    }
    assert(all.take(all.len() as int) =~= all);
}

impl<M: ReplaceFilesMode> ReplaceFilesAction<M> {
    /// An action that was given nothing yet.
    pub fn new() -> (result: Self)
        ensures
            result@ == ReplaceFilesView::empty(),
            result@.well_formed(M::OPERATION),
    {
        let result = Self {
            commit_uuid: None,
            key_metadata: None,
            snapshot_properties: Default::default(),
            added_data_files: vec![],
            added_delete_files: vec![],
            deleted_data_files: vec![],
            deleted_delete_files: vec![],
            data_sequence_number: None,
            starting_snapshot_id: None,
            full_table_overwrite: false,
            _mode: PhantomData,
        };
        assert(result@ =~= ReplaceFilesView::empty());
        result
    }

    /// Add added data files to the snapshot.  Delete files among them are told
    /// apart by their content.
    pub fn add_data_files(self, data_files: Vec<DataFile>) -> (result: Result<Self, Error>)
        ensures
            result matches Ok(action) && action@ == self@.adding(files_view(data_files@)),
            self@.well_formed(M::OPERATION) ==> result->Ok_0@.well_formed(M::OPERATION),
    {
        proof {
            lemma_split_keeps_kinds(self@.added_data_files, files_view(data_files@));
            lemma_split_keeps_kinds(self@.added_delete_files, files_view(data_files@));
        }
        let mut action = self;
        split_files(data_files, &mut action.added_data_files, &mut action.added_delete_files);
        Ok(action)
    }

    /// Add deleted data files to the snapshot.  Delete files among them are told
    /// apart by their content.
    pub fn delete_data_files(self, data_files: Vec<DataFile>) -> (result: Result<Self, Error>)
        ensures
            result matches Ok(action) && action@ == self@.deleting(files_view(data_files@)),
            self@.well_formed(M::OPERATION) ==> result->Ok_0@.well_formed(M::OPERATION),
    {
        proof {
            lemma_split_keeps_kinds(self@.deleted_data_files, files_view(data_files@));
            lemma_split_keeps_kinds(self@.deleted_delete_files, files_view(data_files@));
        }
        let mut action = self;
        split_files(data_files, &mut action.deleted_data_files, &mut action.deleted_delete_files);
        Ok(action)
    }

    /// Set commit UUID for the snapshot.
    pub fn set_commit_uuid(self, commit_uuid: Uuid) -> (result: Self)
        ensures
            result@ == (ReplaceFilesView { commit_uuid: Some(commit_uuid), ..self@ }),
    {
        let mut action = self;
        action.commit_uuid = Some(commit_uuid);
        action
    }

    /// Set key metadata for manifest files.
    pub fn set_key_metadata(self, key_metadata: Vec<u8>) -> (result: Self)
        ensures
            result@ == (ReplaceFilesView { key_metadata: Some(key_metadata@), ..self@ }),
    {
        let mut action = self;
        action.key_metadata = Some(key_metadata);
        action
    }

    /// Set snapshot summary properties.
    pub fn set_snapshot_properties(self, snapshot_properties: HashMap<String, String>) -> (result:
        Self)
        ensures
            result@ == (ReplaceFilesView { snapshot_properties: snapshot_properties@, ..self@ }),
    {
        let mut action = self;
        action.snapshot_properties = snapshot_properties;
        action
    }

    /// Set the data sequence number for this rewrite operation.
    /// The number will be used for all new data files that are added in this rewrite.
    pub fn set_data_sequence_number(self, sequence_number: i64) -> (result: Self)
        ensures
            result@ == (ReplaceFilesView { data_sequence_number: Some(sequence_number), ..self@ }),
    {
        let mut action = self;
        action.data_sequence_number = Some(sequence_number);
        action
    }

    /// Set the snapshot ID used in any reads for this operation.
    pub fn set_starting_snapshot_id(self, snapshot_id: i64) -> (result: Self)
        ensures
            result@ == (ReplaceFilesView { starting_snapshot_id: Some(snapshot_id), ..self@ }),
    {
        let mut action = self;
        action.starting_snapshot_id = Some(snapshot_id);
        action
    }

    /// What the action hands over for the production of a snapshot, and the
    /// operation that the snapshot is produced by, under the given commit UUID.
    pub fn commit_as(&self, commit_uuid: Uuid) -> (result: (
        SnapshotProducer,
        ReplaceFilesOperation<M>,
    ))
        ensures
            result.0@ == self@.producer(commit_uuid),
            result.1@ == self@.operation(),
    {
        let producer = SnapshotProducer {
            commit_uuid,
            key_metadata: clone_key_metadata(&self.key_metadata),
            snapshot_properties: self.snapshot_properties.clone(),
            added_data_files: clone_files(&self.added_data_files),
            added_delete_files: clone_files(&self.added_delete_files),
            deleted_data_files: clone_files(&self.deleted_data_files),
            deleted_delete_files: clone_files(&self.deleted_delete_files),
            added_data_sequence_number: self.data_sequence_number,
        };
        let operation = ReplaceFilesOperation::<M> {
            added_data_files: clone_files(&self.added_data_files),
            added_delete_files: clone_files(&self.added_delete_files),
            deleted_data_files: clone_files(&self.deleted_data_files),
            deleted_delete_files: clone_files(&self.deleted_delete_files),
            starting_snapshot_id: self.starting_snapshot_id,
            data_sequence_number: self.data_sequence_number,
            full_table_overwrite: self.full_table_overwrite,
            _mode: PhantomData,
        };
        (producer, operation)
    }

    /// What the action hands over for the production of a snapshot, and the
    /// operation that the snapshot is produced by.  If no commit UUID was set, a
    /// new one is generated.
    pub fn commit(&self) -> (result: (SnapshotProducer, ReplaceFilesOperation<M>))
        ensures
            result.0@ == self@.producer(result.0.commit_uuid),
            self@.commit_uuid matches Some(commit_uuid) ==> result.0.commit_uuid == commit_uuid,
            result.1@ == self@.operation(),
    {
        let commit_uuid = match self.commit_uuid {
            Some(commit_uuid) => commit_uuid,
            None => Uuid::now_v7(),
        };
        self.commit_as(commit_uuid)
    }
}

impl ReplaceFilesAction<Overwrite> {
    /// Mark this overwrite as replacing the complete logical table contents.
    pub fn full_table_overwrite(self) -> (result: Self)
        ensures
            result@ == (ReplaceFilesView { full_table_overwrite: true, ..self@ }),
            self@.well_formed(Overwrite::OPERATION) ==> result@.well_formed(Overwrite::OPERATION),
    {
        let mut action = self;
        action.full_table_overwrite = true;
        action
    }
}

impl<M: ReplaceFilesMode> Default for ReplaceFilesAction<M> {
    fn default() -> (result: Self)
        ensures
            result@ == ReplaceFilesView::empty(),
    {
        Self::new()
    }
}

/// How a snapshot is produced that replaces files.
pub struct ReplaceFilesOperation<M: ReplaceFilesMode> {
    added_data_files: Vec<DataFile>,
    added_delete_files: Vec<DataFile>,
    deleted_data_files: Vec<DataFile>,
    deleted_delete_files: Vec<DataFile>,
    starting_snapshot_id: Option<i64>,
    data_sequence_number: Option<i64>,
    full_table_overwrite: bool,
    _mode: PhantomData<M>,
}

/// The model of a [`ReplaceFilesOperation`].
#[verifier::ext_equal]
pub struct ReplaceFilesOperationView {
    pub added_data_files: Seq<DataFileView>,
    pub added_delete_files: Seq<DataFileView>,
    pub deleted_data_files: Seq<DataFileView>,
    pub deleted_delete_files: Seq<DataFileView>,
    pub starting_snapshot_id: Option<i64>,
    pub data_sequence_number: Option<i64>,
    pub full_table_overwrite: bool,
}

impl<M: ReplaceFilesMode> View for ReplaceFilesOperation<M> {
    type V = ReplaceFilesOperationView;

    closed spec fn view(&self) -> ReplaceFilesOperationView {
        ReplaceFilesOperationView {
            added_data_files: files_view(self.added_data_files@),
            added_delete_files: files_view(self.added_delete_files@),
            deleted_data_files: files_view(self.deleted_data_files@),
            deleted_delete_files: files_view(self.deleted_delete_files@),
            starting_snapshot_id: self.starting_snapshot_id,
            data_sequence_number: self.data_sequence_number,
            full_table_overwrite: self.full_table_overwrite,
        }
    }
}

impl ReplaceFilesView {
    /// The operation that the snapshot is produced by.
    pub open spec fn operation(self) -> ReplaceFilesOperationView {
        ReplaceFilesOperationView {
            added_data_files: self.added_data_files,
            added_delete_files: self.added_delete_files,
            deleted_data_files: self.deleted_data_files,
            deleted_delete_files: self.deleted_delete_files,
            starting_snapshot_id: self.starting_snapshot_id,
            data_sequence_number: self.data_sequence_number,
            full_table_overwrite: self.full_table_overwrite,
        }
    }
}

/// A check that is left to be made against the snapshots of the table: that none
/// of them, after the starting snapshot and up to the parent snapshot, added
/// row-level deletes for the given data files.
#[derive(Debug, PartialEq, Eq)]
pub struct NewDeletesCheck<'a> {
    pub starting_snapshot_id: Option<i64>,
    pub parent_snapshot_id: Option<i64>,
    pub data_files: &'a Vec<DataFile>,
    /// The replacing files get a data sequence number of their own.
    pub has_data_sequence_number: bool,
}

/// The model of a [`NewDeletesCheck`].
#[verifier::ext_equal]
pub struct NewDeletesCheckView {
    pub starting_snapshot_id: Option<i64>,
    pub parent_snapshot_id: Option<i64>,
    pub data_files: Seq<DataFileView>,
    pub has_data_sequence_number: bool,
}

impl<'a> View for NewDeletesCheck<'a> {
    type V = NewDeletesCheckView;

    open spec fn view(&self) -> NewDeletesCheckView {
        NewDeletesCheckView {
            starting_snapshot_id: self.starting_snapshot_id,
            parent_snapshot_id: self.parent_snapshot_id,
            data_files: files_view(self.data_files@),
            has_data_sequence_number: self.has_data_sequence_number,
        }
    }
}

impl ReplaceFilesOperationView {
    /// Why the files do not make up a replacement, if they do not: something has
    /// to be deleted, and files of either kind can only take the place of files
    /// of that kind.
    pub open spec fn file_error(self) -> Option<ErrorView> {
        if self.deleted_data_files.len() == 0 && self.deleted_delete_files.len() == 0 {
            Some(invalid("Files to delete cannot be empty"@))
        } else if self.deleted_data_files.len() == 0 && self.added_data_files.len() != 0 {
            Some(
                invalid(
                    "Data files to add must be empty because there's no data file to be rewritten"@,
                ),
            )
        } else if self.deleted_delete_files.len() == 0 && self.added_delete_files.len() != 0 {
            Some(
                invalid(
                    "Delete files to add must be empty because there's no delete file to be rewritten"@,
                ),
            )
        } else {
            None
        }
    }

    /// The check that is left to be made, if one is: for replaced data files there
    /// cannot be any new row-level deletes.
    pub open spec fn new_deletes_check(self, parent_snapshot_id: Option<i64>) -> Option<
        NewDeletesCheckView,
    > {
        if self.deleted_data_files.len() == 0 {
            None
        } else {
            Some(
                NewDeletesCheckView {
                    starting_snapshot_id: self.starting_snapshot_id,
                    parent_snapshot_id,
                    data_files: self.deleted_data_files,
                    has_data_sequence_number: self.data_sequence_number is Some,
                },
            )
        }
    }
}

impl<M: ReplaceFilesMode> ReplaceFilesOperation<M> {
    /// What the snapshot summary records.
    pub fn operation(&self) -> (result: Operation)
        ensures
            result == M::OPERATION,
            result == M::recorded(),
    {
        proof {
            M::operation_is_recorded();
        }
        M::OPERATION
    }

    /// Whether the complete logical table contents are replaced.
    pub fn is_full_table_overwrite(&self) -> (result: bool)
        ensures
            result == self@.full_table_overwrite,
    {
        self.full_table_overwrite
    }

    /// Checks the replaced and added files, and says which check is left to be
    /// made against the snapshots of the table.
    pub fn validate<'a>(&'a self, parent_snapshot_id: Option<i64>) -> (result: Result<
        Option<NewDeletesCheck<'a>>,
        Error,
    >)
        ensures
            match result {
                Ok(None) => self@.file_error() is None && self@.new_deletes_check(
                    parent_snapshot_id,
                ) is None,
                Ok(Some(check)) => self@.file_error() is None && self@.new_deletes_check(
                    parent_snapshot_id,
                ) == Some(check@),
                Err(error) => self@.file_error() == Some(error@),
            },
    {
        if self.deleted_data_files.is_empty() && self.deleted_delete_files.is_empty() {
            return Err(
                Error::new(ErrorKind::DataInvalid, "Files to delete cannot be empty".to_owned()),
            );
        }
        if self.deleted_data_files.is_empty() && !self.added_data_files.is_empty() {
            return Err(
                Error::new(
                    ErrorKind::DataInvalid,
                    "Data files to add must be empty because there's no data file to be rewritten".to_owned(),
                ),
            );
        }
        if self.deleted_delete_files.is_empty() && !self.added_delete_files.is_empty() {
            return Err(
                Error::new(
                    ErrorKind::DataInvalid,
                    "Delete files to add must be empty because there's no delete file to be rewritten".to_owned(),
                ),
            );
        }
        if self.deleted_data_files.is_empty() {
            return Ok(None);
        }
        Ok(
            Some(
                NewDeletesCheck {
                    starting_snapshot_id: self.starting_snapshot_id,
                    parent_snapshot_id,
                    data_files: &self.deleted_data_files,
                    has_data_sequence_number: self.data_sequence_number.is_some(),
                },
            ),
        )
    }
}

/// A copy of the entry that records its file as deleted.
pub fn copy_with_deleted_status(entry: &ManifestEntry) -> (result: Result<ManifestEntry, Error>)
    ensures
        result matches Ok(deleted) && deleted@ == entry@.with_status(ManifestStatus::Deleted),
{
    Ok(entry.copy_with_status(ManifestStatus::Deleted))
}

/// The rule of a replacement: data files are looked for among the deleted data
/// files, delete files among the deleted delete files.
pub struct ReplacedFiles<'a> {
    pub deleted_data_files: &'a Vec<DataFile>,
    pub deleted_delete_files: &'a Vec<DataFile>,
}

impl<'a> ReplacedFiles<'a> {
    /// The entry lists a file that is replaced.
    pub open spec fn replaces(&self, entry: ManifestEntryView) -> bool {
        if entry.is_data() {
            has_path(files_view(self.deleted_data_files@), entry.path())
        } else {
            has_path(files_view(self.deleted_delete_files@), entry.path())
        }
    }

    /// The paths of the replaced files among the entries of a manifest.
    pub open spec fn found(&self, entries: Seq<ManifestEntryView>) -> Set<Seq<char>> {
        Set::new(
            |path: Seq<char>|
                exists|i: int|
                    0 <= i < entries.len() && (#[trigger] entries[i]).path() == path
                        && self.replaces(entries[i]),
        )
    }

    /// The files that the producer of a snapshot deletes.
    pub fn of(producer: &'a SnapshotProducer) -> (result: Self)
        ensures
            result.deleted_data_files == &producer.deleted_data_files,
            result.deleted_delete_files == &producer.deleted_delete_files,
    {
        ReplacedFiles {
            deleted_data_files: &producer.deleted_data_files,
            deleted_delete_files: &producer.deleted_delete_files,
        }
    }

    /// Whether the entry lists a file that is replaced.
    fn is_replaced(&self, entry: &ManifestEntry) -> (result: bool)
        ensures
            result == self.replaces(entry@),
    {
        match entry.data_file.content {
            DataContentType::Data => contains_path(
                self.deleted_data_files,
                &entry.data_file.file_path,
            ),
            DataContentType::PositionDeletes | DataContentType::EqualityDeletes => contains_path(
                self.deleted_delete_files,
                &entry.data_file.file_path,
            ),
        }
    }

    /// The paths of the replaced files among the entries of a manifest.
    fn find(&self, entries: &Vec<ManifestEntry>) -> (result: StringHashSet)
        ensures
            result@ == self.found(entries_view(entries@)),
    {
        let ghost all = entries_view(entries@);
        let mut found = StringHashSet::new();
        assert(found@ =~= self.found(all.take(0)));
        for i in 0..entries.len()
            invariant
                all == entries_view(entries@),
                found@ == self.found(all.take(i as int)),
        {
            let ghost before = found@;
            let replaced = self.is_replaced(&entries[i]);
            if replaced {
                found.insert(entries[i].data_file.file_path.clone());
            }
            proof {
                let shorter = all.take(i as int);
                let longer = all.take(i + 1);
                assert(longer[i as int] == all[i as int]);
                assert forall|path: Seq<char>| found@.contains(path) implies self.found(
                    longer,
                ).contains(path) by {
                    if before.contains(path) {
                        let j = choose|j: int|
                            0 <= j < shorter.len() && (#[trigger] shorter[j]).path() == path
                                && self.replaces(shorter[j]);
                        assert(longer[j].path() == path);
                    }
                }
                assert forall|path: Seq<char>|
                    self.found(longer).contains(path) implies found@.contains(path) by {
                    let j = choose|j: int|
                        0 <= j < longer.len() && (#[trigger] longer[j]).path() == path
                            && self.replaces(longer[j]);
                    if j < i {
                        assert(shorter[j].path() == path);
                    }
                }
                assert(found@ =~= self.found(longer));
            }
        }
        assert(all.take(all.len() as int) =~= all);
        found
    }
}

impl<'a> RemovalRule for ReplacedFiles<'a> {
    open spec fn reads_manifests(&self) -> bool {
        true
    }

    open spec fn deletes(&self, entry: ManifestEntryView) -> bool {
        self.replaces(entry)
    }

    open spec fn fate(
        &self,
        manifest: ManifestFileView,
        entries: Seq<ManifestEntryView>,
    ) -> ManifestFateView {
        let found = self.found(entries);
        if found.is_empty() && manifest.has_live_files() {
            ManifestFateView::Keep
        } else if any_survives(entries, found) {
            ManifestFateView::Rewrite(rewritten(manifest, entries, found))
        } else {
            ManifestFateView::Drop
        }
    }

    fn needs_manifests(&self) -> (result: bool) {
        true
    }

    fn delete_entry(&self, entry: &ManifestEntry) -> (result: Option<ManifestEntry>) {
        if self.is_replaced(entry) {
            Some(copy_with_deleted_status(entry).unwrap())
        } else {
            None
        }
    }

    fn manifest_fate(&self, manifest: &ManifestFile, entries: &Vec<ManifestEntry>) -> (result:
        ManifestFate) {
        let found = self.find(entries);
        if found.is_empty() && manifest.has_live_files() {
            // All files from the existing manifest entries are still valid.
            ManifestFate::Keep
        } else if has_survivor(entries, &found) {
            ManifestFate::Rewrite(rewrite_manifest(manifest, entries, &found))
        } else {
            ManifestFate::Drop
        }
    }

    proof fn deletes_whatever_the_status(
        &self,
        entry: ManifestEntryView,
        other: ManifestEntryView,
    ) {
        let recorded = entry.with_status(ManifestStatus::Deleted);
        assert(recorded.data_file == other.data_file);
    }
}

impl<M: ReplaceFilesMode> ReplaceFilesOperation<M> {
    /// Starts to collect the entries that are associated with deleted files.
    /// Without a current snapshot there are none.
    pub fn delete_entries<'a>(
        &self,
        snapshot_producer: &'a SnapshotProducer,
        has_current_snapshot: bool,
    ) -> (result: DeleteEntries<ReplacedFiles<'a>>)
        ensures
            result@ == if has_current_snapshot {
                DeleteEntriesView::LoadManifestList(
                    ReplacedFiles {
                        deleted_data_files: &snapshot_producer.deleted_data_files,
                        deleted_delete_files: &snapshot_producer.deleted_delete_files,
                    },
                )
            } else {
                DeleteEntriesView::Done(Seq::empty())
            },
    {
        if has_current_snapshot {
            DeleteEntries::LoadManifestList(
                DeleteEntriesStart::new(ReplacedFiles::of(snapshot_producer)),
            )
        } else {
            let none: Vec<ManifestEntry> = vec![];
            assert(entries_view(none@) =~= Seq::empty());
            DeleteEntries::Done(none)
        }
    }

    /// Starts to collect the manifests that are carried over.  Without a current
    /// snapshot there are none.
    pub fn existing_manifest<'a>(
        &self,
        snapshot_producer: &'a SnapshotProducer,
        has_current_snapshot: bool,
    ) -> (result: ExistingManifests<ReplacedFiles<'a>>)
        ensures
            result@ == if has_current_snapshot {
                ExistingManifestsView::LoadManifestList(
                    ReplacedFiles {
                        deleted_data_files: &snapshot_producer.deleted_data_files,
                        deleted_delete_files: &snapshot_producer.deleted_delete_files,
                    },
                )
            } else {
                ExistingManifestsView::Done(Seq::empty())
            },
    {
        if has_current_snapshot {
            ExistingManifests::LoadManifestList(
                ExistingManifestsStart::new(ReplacedFiles::of(snapshot_producer)),
            )
        } else {
            let none: Vec<ManifestFile> = vec![];
            assert(manifests_view(none@) =~= Seq::empty());
            ExistingManifests::Done(none)
        }
    }
}

/// A rewrite is recorded as a replacement, and an overwrite as an overwrite.
pub proof fn law_modes_map_to_operations()
    ensures
        Rewrite::OPERATION == Operation::Replace,
        Overwrite::OPERATION == Operation::Overwrite,
{
}

impl<'a> ReplacedFiles<'a> {
    /// No live entry has the path of a replaced file without being replaced itself.
    /// That can only be where one manifest lists data files and delete files.
    pub open spec fn tells_kinds_apart(&self, entries: Seq<ManifestEntryView>) -> bool {
        forall|i: int|
            0 <= i < entries.len() && (#[trigger] entries[i]).alive() && self.found(
                entries,
            ).contains(entries[i].path()) ==> self.replaces(entries[i])
    }
}

/// A manifest that lists data files only, or delete files only, cannot have a live
/// entry with the path of a replaced file that is not replaced itself.
pub proof fn law_one_kind_is_told_apart<'a>(
    rule: ReplacedFiles<'a>,
    entries: Seq<ManifestEntryView>,
)
    requires
        forall|i: int, j: int|
            0 <= i < entries.len() && 0 <= j < entries.len() ==> (#[trigger] entries[i]).is_data()
                == (#[trigger] entries[j]).is_data(),
    ensures
        rule.tells_kinds_apart(entries),
{
    assert forall|i: int|
        0 <= i < entries.len() && (#[trigger] entries[i]).alive() && rule.found(entries).contains(
            entries[i].path(),
        ) implies rule.replaces(entries[i]) by {
        let j = choose|j: int|
            0 <= j < entries.len() && (#[trigger] entries[j]).path() == entries[i].path()
                && rule.replaces(entries[j]);
        assert(entries[i].is_data() == entries[j].is_data());
    }
}

/// Of a manifest, the new snapshot has exactly the live files that are not
/// replaced, with their snapshot ids and sequence numbers.
pub proof fn law_replacement_keeps_the_rest_of_a_manifest<'a>(
    rule: ReplacedFiles<'a>,
    manifest: ManifestFileView,
    entries: Seq<ManifestEntryView>,
)
    requires
        rule.tells_kinds_apart(entries),
    ensures
        fate_agrees(rule, manifest, entries),
{
    let found = rule.found(entries);
    let alive = |entry: ManifestEntryView| entry.alive();
    let surviving = |entry: ManifestEntryView| survives(entry, found);
    let left = |entry: ManifestEntryView| entry.alive() && !rule.deletes(entry);
    assert forall|i: int| 0 <= i < entries.len() implies surviving(#[trigger] entries[i]) == left(
        entries[i],
    ) by {
        if rule.replaces(entries[i]) {
            assert(found.contains(entries[i].path()));
        }
    }
    lemma_filter_agree(entries, surviving, left);
    if found.is_empty() && manifest.has_live_files() {
        assert forall|i: int| 0 <= i < entries.len() implies alive(#[trigger] entries[i]) == left(
            entries[i],
        ) by {
            if rule.replaces(entries[i]) {
                assert(found.contains(entries[i].path()));
            }
        }
        lemma_filter_agree(entries, alive, left);
    } else if any_survives(entries, found) {
        lemma_survivors_alive(entries, found);
        assert(as_existing(survivors(entries, found)) =~= as_existing(
            live_entries_left(rule, entries),
        ));
    } else {
        lemma_filter_none(entries, surviving);
    }
}

/// The manifests that a replacement carries over list exactly the live files of the
/// current snapshot that are not replaced, with their snapshot ids and sequence
/// numbers, in their order.
pub proof fn law_replacement_keeps_the_rest<'a>(
    rule: ReplacedFiles<'a>,
    lists: spec_fn(ManifestFileView) -> Seq<ManifestEntryView>,
    storage: StorageAnswers,
)
    requires
        storage.faithful(rule, lists),
        forall|i: int|
            0 <= i < storage.contents.len() ==> rule.tells_kinds_apart(
                #[trigger] storage.contents[i],
            ),
    ensures
        as_existing(
            live_entries_of(
                lists,
                run_existing_manifests(ExistingManifestsView::LoadManifestList(rule), storage),
            ),
        ) == as_existing(all_live_entries_left(rule, storage.contents)),
{
    assert forall|i: int| 0 <= i < storage.contents.len() implies fate_agrees(
        rule,
        storage.manifests[i],
        #[trigger] storage.contents[i],
    ) by {
        law_replacement_keeps_the_rest_of_a_manifest(
            rule,
            storage.manifests[i],
            storage.contents[i],
        );
    }
    lemma_carried_manifests_list_the_rest(rule, lists, storage);
    law_existing_manifests_walk(rule, storage);
}

/// Each live file of the current snapshot is either recorded as deleted by a replacement
/// or listed by a manifest that is carried over, and never both.
pub proof fn law_replacement_leaves_or_deletes_each_file<'a>(
    rule: ReplacedFiles<'a>,
    lists: spec_fn(ManifestFileView) -> Seq<ManifestEntryView>,
    storage: StorageAnswers,
    manifest: int,
    at: int,
)
    requires
        storage.faithful(rule, lists),
        forall|i: int|
            0 <= i < storage.contents.len() ==> rule.tells_kinds_apart(
                #[trigger] storage.contents[i],
            ),
        0 <= manifest < storage.contents.len(),
        0 <= at < storage.contents[manifest].len(),
        storage.contents[manifest][at].alive(),
    ensures
        left_or_deleted(rule, lists, storage, storage.contents[manifest][at]),
{
    law_replacement_keeps_the_rest(rule, lists, storage);
    lemma_each_file_is_left_or_deleted(rule, lists, storage, manifest, at);
}

/// A manifest that takes the place of another one is of the same content and partition
/// spec, and is not empty.
pub proof fn law_replacement_manifests_keep_their_kind<'a>(
    rule: ReplacedFiles<'a>,
    manifest: ManifestFileView,
    entries: Seq<ManifestEntryView>,
)
    ensures
        rule.fate(manifest, entries) matches ManifestFateView::Rewrite(draft) ==> {
            &&& draft.content == manifest.content
            &&& draft.partition_spec_id == manifest.partition_spec_id
            &&& draft.entries.len() > 0
        },
{
    if rule.fate(manifest, entries) is Rewrite {
        lemma_survivors_not_empty(entries, rule.found(entries));
    }
}

/// Giving files in two batches is the same as giving them in one.
pub proof fn law_batches_add_up(
    action: ReplaceFilesView,
    first: Seq<DataFileView>,
    second: Seq<DataFileView>,
)
    ensures
        action.adding(first).adding(second) == action.adding(first + second),
        action.deleting(first).deleting(second) == action.deleting(first + second),
{
    broadcast use Seq::filter_distributes_over_add;

    assert(action.adding(first).adding(second) =~= action.adding(first + second));
    assert(action.deleting(first).deleting(second) =~= action.deleting(first + second));
}

/// An entry of a file that was given for deletion is recorded as deleted: the file is
/// recognised by its path and by being a data file or a delete file, whatever else
/// was given with it.
pub proof fn law_given_files_are_deleted<'a>(
    action: ReplaceFilesView,
    files: Seq<DataFileView>,
    at: int,
    rule: ReplacedFiles<'a>,
    commit_uuid: Uuid,
    entry: ManifestEntryView,
)
    requires
        0 <= at < files.len(),
        files_view(rule.deleted_data_files@) == action.deleting(files).producer(
            commit_uuid,
        ).deleted_data_files,
        files_view(rule.deleted_delete_files@) == action.deleting(files).producer(
            commit_uuid,
        ).deleted_delete_files,
        entry.path() == files[at].file_path,
        entry.is_data() == (files[at].content == DataContentType::Data),
    ensures
        rule.deletes(entry),
{
    let kind = |file: DataFileView|
        if entry.is_data() {
            file.content == DataContentType::Data
        } else {
            file.content != DataContentType::Data
        };
    let before = if entry.is_data() {
        action.deleted_data_files
    } else {
        action.deleted_delete_files
    };
    let given = if entry.is_data() {
        data_files_among(files)
    } else {
        delete_files_among(files)
    };
    broadcast use vstd::seq_lib::group_filter_ensures;

    if entry.is_data() {
        lemma_filter_agree(
            files,
            kind,
            |file: DataFileView| file.content == DataContentType::Data,
        );
    } else {
        lemma_filter_agree(
            files,
            kind,
            |file: DataFileView| file.content != DataContentType::Data,
        );
    }
    assert(kind(files[at]));
    assert(given.contains(files[at]));
    let i = choose|i: int| 0 <= i < given.len() && given[i] == files[at];
    assert((before + given)[before.len() + i] == files[at]);
}

/// Whatever an action is given, data files and delete files stay apart, and only an
/// action that records an overwrite replaces the complete table.
pub proof fn law_actions_stay_well_formed(
    action: ReplaceFilesView,
    operation: Operation,
    files: Seq<DataFileView>,
    other: ReplaceFilesView,
)
    requires
        action.well_formed(operation),
    ensures
        action.adding(files).well_formed(operation),
        action.deleting(files).well_formed(operation),
        (ReplaceFilesView {
            commit_uuid: other.commit_uuid,
            key_metadata: other.key_metadata,
            snapshot_properties: other.snapshot_properties,
            data_sequence_number: other.data_sequence_number,
            starting_snapshot_id: other.starting_snapshot_id,
            ..action
        }).well_formed(operation),
        operation == Operation::Overwrite ==> (ReplaceFilesView {
            full_table_overwrite: true,
            ..action
        }).well_formed(operation),
{
    lemma_split_keeps_kinds(action.added_data_files, files);
    lemma_split_keeps_kinds(action.added_delete_files, files);
    lemma_split_keeps_kinds(action.deleted_data_files, files);
    lemma_split_keeps_kinds(action.deleted_delete_files, files);
}

} // verus!
