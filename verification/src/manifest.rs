//! Manifests: the files that list the data and delete files of a snapshot.
use vstd::prelude::*;

use crate::data_file::{DataContentType, DataFile, DataFileView};

verus! {

/// What became of a file in the snapshot that wrote the entry.
#[derive(Debug, Clone, Copy, PartialEq, Eq, Structural)]
pub enum ManifestStatus {
    /// The file was there before.
    Existing,
    /// The snapshot added the file.
    Added,
    /// The snapshot deleted the file.
    Deleted,
}

/// What kind of files a manifest lists.
#[derive(Debug, Clone, Copy, PartialEq, Eq, Structural)]
pub enum ManifestContentType {
    /// Data files.
    Data,
    /// Delete files.
    Deletes,
}

/// One line of a manifest.
#[derive(Debug, PartialEq, Eq)]
pub struct ManifestEntry {
    pub status: ManifestStatus,
    pub snapshot_id: Option<i64>,
    pub sequence_number: Option<i64>,
    pub file_sequence_number: Option<i64>,
    pub data_file: DataFile,
}

/// The model of a [`ManifestEntry`].
#[verifier::ext_equal]
pub struct ManifestEntryView {
    pub status: ManifestStatus,
    pub snapshot_id: Option<i64>,
    pub sequence_number: Option<i64>,
    pub file_sequence_number: Option<i64>,
    pub data_file: DataFileView,
}

impl View for ManifestEntry {
    type V = ManifestEntryView;

    open spec fn view(&self) -> ManifestEntryView {
        ManifestEntryView {
            status: self.status,
            snapshot_id: self.snapshot_id,
            sequence_number: self.sequence_number,
            file_sequence_number: self.file_sequence_number,
            data_file: self.data_file@,
        }
    }
}

impl ManifestEntryView {
    /// The entry lists a file of the snapshot, and not one that is gone.
    pub open spec fn alive(self) -> bool {
        self.status != ManifestStatus::Deleted
    }

    /// The path of the file that the entry lists.
    pub open spec fn path(self) -> Seq<char> {
        self.data_file.file_path
    }

    /// The entry lists a data file, and not a delete file.
    pub open spec fn is_data(self) -> bool {
        self.data_file.content == DataContentType::Data
    }

    /// The same entry with another status: the file, its snapshot id and its
    /// sequence numbers stay as they are.
    pub open spec fn with_status(self, status: ManifestStatus) -> Self {
        ManifestEntryView { status, ..self }
    }
}

/// The models of a sequence of entries.
pub open spec fn entries_view(entries: Seq<ManifestEntry>) -> Seq<ManifestEntryView> {
    entries.map_values(|entry: ManifestEntry| entry@)
}

impl ManifestEntry {
    /// Whether the entry lists a file of the snapshot, and not one that is gone.
    pub fn is_alive(&self) -> (result: bool)
        ensures
            result == self@.alive(),
    {
        match self.status {
            ManifestStatus::Added | ManifestStatus::Existing => true,
            ManifestStatus::Deleted => false,
        }
    }

    /// Whether the entry lists a data file, and not a delete file.
    pub fn is_data(&self) -> (result: bool)
        ensures
            result == self@.is_data(),
    {
        match self.data_file.content {
            DataContentType::Data => true,
            DataContentType::PositionDeletes | DataContentType::EqualityDeletes => false,
        }
    }

    /// A copy of the entry with another status.
    pub fn copy_with_status(&self, status: ManifestStatus) -> (result: Self)
        ensures
            result@ == self@.with_status(status),
    {
        Self {
            status,
            snapshot_id: self.snapshot_id,
            sequence_number: self.sequence_number,
            file_sequence_number: self.file_sequence_number,
            data_file: self.data_file.clone(),
        }
    }
}

/// A manifest as the manifest list of a snapshot names it.
#[derive(Debug, PartialEq, Eq)]
pub struct ManifestFile {
    /// Where the manifest is stored.  The path identifies it.
    pub manifest_path: String,
    pub content: ManifestContentType,
    pub partition_spec_id: i32,
    /// The manifest has entries with status [`ManifestStatus::Added`], as far as
    /// the manifest list knows.
    pub has_added_files: bool,
    /// The manifest has entries with status [`ManifestStatus::Existing`], as far
    /// as the manifest list knows.
    pub has_existing_files: bool,
}

/// The model of a [`ManifestFile`].
#[verifier::ext_equal]
pub struct ManifestFileView {
    pub manifest_path: Seq<char>,
    pub content: ManifestContentType,
    pub partition_spec_id: i32,
    pub has_added_files: bool,
    pub has_existing_files: bool,
}

impl View for ManifestFile {
    type V = ManifestFileView;

    open spec fn view(&self) -> ManifestFileView {
        ManifestFileView {
            manifest_path: self.manifest_path@,
            content: self.content,
            partition_spec_id: self.partition_spec_id,
            has_added_files: self.has_added_files,
            has_existing_files: self.has_existing_files,
        }
    }
}

impl ManifestFileView {
    /// The manifest list says that the manifest lists files of the snapshot.
    pub open spec fn has_live_files(self) -> bool {
        self.has_added_files || self.has_existing_files
    }
}

/// The models of a sequence of manifests.
pub open spec fn manifests_view(manifests: Seq<ManifestFile>) -> Seq<ManifestFileView> {
    manifests.map_values(|manifest: ManifestFile| manifest@)
}

impl Clone for ManifestFile {
    fn clone(&self) -> (result: Self)
        ensures
            result@ == self@,
    {
        Self {
            manifest_path: self.manifest_path.clone(),
            content: self.content,
            partition_spec_id: self.partition_spec_id,
            has_added_files: self.has_added_files,
            has_existing_files: self.has_existing_files,
        }
    }
}

impl ManifestFile {
    /// Whether the manifest list says that the manifest lists files of the
    /// snapshot.
    pub fn has_live_files(&self) -> (result: bool)
        ensures
            result == self@.has_live_files(),
    {
        self.has_added_files || self.has_existing_files
    }
}

/// A manifest that is to be written.
#[derive(Debug, PartialEq, Eq)]
pub struct ManifestDraft {
    pub content: ManifestContentType,
    pub partition_spec_id: i32,
    pub entries: Vec<ManifestEntry>,
}

/// The model of a [`ManifestDraft`].
#[verifier::ext_equal]
pub struct ManifestDraftView {
    pub content: ManifestContentType,
    pub partition_spec_id: i32,
    pub entries: Seq<ManifestEntryView>,
}

impl View for ManifestDraft {
    type V = ManifestDraftView;

    open spec fn view(&self) -> ManifestDraftView {
        ManifestDraftView {
            content: self.content,
            partition_spec_id: self.partition_spec_id,
            entries: entries_view(self.entries@),
        }
    }
}

impl ManifestDraft {
    /// A draft without entries.
    pub fn new(content: ManifestContentType, partition_spec_id: i32) -> (result: Self)
        ensures
            result@ == (ManifestDraftView { content, partition_spec_id, entries: Seq::empty() }),
    {
        let result = Self { content, partition_spec_id, entries: Vec::new() };
        assert(result@.entries =~= Seq::<ManifestEntryView>::empty());
        result
    }

    /// Adds a copy of an entry as one that was there before.  The copy keeps the
    /// file, its snapshot id and its sequence numbers.
    pub fn add_existing_entry(&mut self, entry: &ManifestEntry)
        ensures
            final(self)@ == (ManifestDraftView {
                entries: old(self)@.entries.push(entry@.with_status(ManifestStatus::Existing)),
                ..old(self)@
            }),
    {
        self.entries.push(entry.copy_with_status(ManifestStatus::Existing));
        assert(self@.entries =~= old(self)@.entries.push(
            entry@.with_status(ManifestStatus::Existing),
        ));
    }
}

} // verus!
