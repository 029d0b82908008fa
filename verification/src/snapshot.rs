//! What a new snapshot is produced from.
use std::collections::HashMap;

use uuid::Uuid;
use vstd::prelude::*;

use crate::data_file::{files_view, optional_seq, DataFile, DataFileView};

verus! {

/// A UUID of the `uuid` crate.  It is carried from where it was set or generated
/// to where the files of a commit are named, and is not looked into.
#[verifier::external_type_specification]
#[verifier::external_body]
pub struct ExUuid(uuid::Uuid);

/// `uuid::Uuid::now_v7` makes a version 7 UUID from the system clock, a counter of
/// the process and random bytes.  Two calls give two UUIDs, so nothing is claimed
/// of which one comes back; that it is of version 7 is not claimed either, because
/// the bits of a UUID are not modelled.  The call panics where the system clock is
/// set before 1970 or the system has no random bytes to give.
pub assume_specification[ uuid::Uuid::now_v7 ]() -> uuid::Uuid;

/// What a snapshot did to the table, as its summary records it.
#[derive(Debug, Clone, Copy, PartialEq, Eq, Structural)]
pub enum Operation {
    /// Only data files were added.
    Append,
    /// Files were replaced without changing table data.
    Replace,
    /// Data was added and removed.
    Overwrite,
    /// Only data was removed.
    Delete,
}

/// Everything that an action hands over for the production of a snapshot.
#[derive(Debug, PartialEq, Eq)]
pub struct SnapshotProducer {
    /// Tells the files of this commit from those of others.
    pub commit_uuid: Uuid,
    /// Key metadata for manifest files.
    pub key_metadata: Option<Vec<u8>>,
    /// Properties of the snapshot summary.
    pub snapshot_properties: HashMap<String, String>,
    pub added_data_files: Vec<DataFile>,
    pub added_delete_files: Vec<DataFile>,
    pub deleted_data_files: Vec<DataFile>,
    pub deleted_delete_files: Vec<DataFile>,
    /// The data sequence number of the added data files, if it is not to be that of
    /// the snapshot.
    pub added_data_sequence_number: Option<i64>,
}

/// The model of a [`SnapshotProducer`].
#[verifier::ext_equal]
pub struct SnapshotProducerView {
    pub commit_uuid: Uuid,
    pub key_metadata: Option<Seq<u8>>,
    pub snapshot_properties: Map<String, String>,
    pub added_data_files: Seq<DataFileView>,
    pub added_delete_files: Seq<DataFileView>,
    pub deleted_data_files: Seq<DataFileView>,
    pub deleted_delete_files: Seq<DataFileView>,
    pub added_data_sequence_number: Option<i64>,
}

impl View for SnapshotProducer {
    type V = SnapshotProducerView;

    open spec fn view(&self) -> SnapshotProducerView {
        SnapshotProducerView {
            commit_uuid: self.commit_uuid,
            key_metadata: optional_seq(self.key_metadata),
            snapshot_properties: self.snapshot_properties@,
            added_data_files: files_view(self.added_data_files@),
            added_delete_files: files_view(self.added_delete_files@),
            deleted_data_files: files_view(self.deleted_data_files@),
            deleted_delete_files: files_view(self.deleted_delete_files@),
            added_data_sequence_number: self.added_data_sequence_number,
        }
    }
}

/// A copy of optional key metadata.
pub(crate) fn clone_key_metadata(key_metadata: &Option<Vec<u8>>) -> (result: Option<Vec<u8>>)
    ensures
        optional_seq(result) == optional_seq(*key_metadata),
{
    match key_metadata {
        Some(bytes) => {
            let copy = bytes.clone();
            assert(copy@ =~= bytes@);
            Some(copy)
        },
        None => None,
    }
}

/// A copy of a list of files.
pub(crate) fn clone_files(files: &Vec<DataFile>) -> (result: Vec<DataFile>)
    ensures
        files_view(result@) == files_view(files@),
{
    let result = files.clone();
    assert(files_view(result@) =~= files_view(files@));
    result
}

} // verus!
