use std::collections::HashMap;

use iceberg_transaction::data_file::{
    DataContentType, DataFile, DataFileFormat, FormatVersion,
};
use iceberg_transaction::error::{Error, ErrorKind};
use iceberg_transaction::manifest::{
    ManifestContentType, ManifestEntry, ManifestFile, ManifestStatus,
};
use iceberg_transaction::row_delta::{
    copy_with_deleted_status, RowDeltaAction, RowDeltaCommit, RowDeltaOperation, TableCheck,
};
use iceberg_transaction::snapshot::Operation;
use iceberg_transaction::walk::{DeleteEntries, ExistingManifests, RemovalRule};
use uuid::Uuid;

fn file(path: &str, content: DataContentType, file_format: DataFileFormat) -> DataFile {
    DataFile {
        content,
        file_path: path.to_string(),
        file_format,
        partition: vec![Some(100i64.to_le_bytes().to_vec())],
        partition_spec_id: 0,
        record_count: 1,
        file_size_in_bytes: 100,
        equality_ids: None,
        referenced_data_file: None,
        content_offset: None,
        content_size_in_bytes: None,
    }
}

fn data_file(path: &str) -> DataFile {
    file(path, DataContentType::Data, DataFileFormat::Parquet)
}

fn pos_delete_v2(path: &str) -> DataFile {
    let mut delete = file(path, DataContentType::PositionDeletes, DataFileFormat::Parquet);
    delete.record_count = 5;
    delete
}

fn equality_delete(path: &str, equality_ids: Option<Vec<i32>>) -> DataFile {
    let mut delete = file(path, DataContentType::EqualityDeletes, DataFileFormat::Parquet);
    delete.equality_ids = equality_ids;
    delete
}

fn entry(status: ManifestStatus, sequence_number: i64, data_file: DataFile) -> ManifestEntry {
    ManifestEntry {
        status,
        snapshot_id: Some(7),
        sequence_number: Some(sequence_number),
        file_sequence_number: Some(sequence_number),
        data_file,
    }
}

fn manifest_file(path: &str, content: ManifestContentType, live: bool) -> ManifestFile {
    ManifestFile {
        manifest_path: path.to_string(),
        content,
        partition_spec_id: 3,
        has_added_files: live,
        has_existing_files: false,
    }
}

/// Manifests in memory, with the paths of those that were read.
struct Storage {
    manifests: Vec<(ManifestFile, Vec<ManifestEntry>)>,
    read: Vec<String>,
    written: Vec<(ManifestFile, Vec<ManifestEntry>)>,
}

impl Storage {
    fn new(manifests: Vec<(ManifestFile, Vec<ManifestEntry>)>) -> Self {
        Storage {
            manifests,
            read: vec![],
            written: vec![],
        }
    }

    fn list(&self) -> Vec<ManifestFile> {
        self.manifests.iter().map(|(file, _)| file.clone()).collect()
    }

    fn load(&mut self, file: &ManifestFile) -> &Vec<ManifestEntry> {
        self.read.push(file.manifest_path.clone());
        &self
            .manifests
            .iter()
            .find(|(stored, _)| stored.manifest_path == file.manifest_path)
            .unwrap()
            .1
    }

    fn delete_entries<R: RemovalRule>(&mut self, walk: DeleteEntries<R>) -> Vec<ManifestEntry> {
        let mut walk = walk;
        loop {
            walk = match walk {
                DeleteEntries::LoadManifestList(start) => start.list_loaded(self.list()),
                DeleteEntries::LoadManifest(step) => {
                    let file = step.manifest().clone();
                    step.manifest_loaded(self.load(&file))
                }
                DeleteEntries::Done(entries) => return entries,
            }
        }
    }

    fn existing_manifest<R: RemovalRule>(
        &mut self,
        walk: ExistingManifests<R>,
    ) -> Vec<ManifestFile> {
        let mut walk = walk;
        loop {
            walk = match walk {
                ExistingManifests::LoadManifestList(start) => start.list_loaded(self.list()),
                ExistingManifests::LoadManifest(step) => {
                    let file = step.manifest().clone();
                    step.manifest_loaded(self.load(&file))
                }
                ExistingManifests::WriteManifest(write) => {
                    let draft = write.draft();
                    let file = ManifestFile {
                        manifest_path: format!("written-{}", self.written.len()),
                        content: draft.content,
                        partition_spec_id: draft.partition_spec_id,
                        has_added_files: false,
                        has_existing_files: true,
                    };
                    let entries = draft
                        .entries
                        .iter()
                        .map(|entry| entry.copy_with_status(entry.status))
                        .collect();
                    self.written.push((file.clone(), entries));
                    write.manifest_written(file)
                }
                ExistingManifests::Done(manifests) => return manifests,
            }
        }
    }
}

fn commit(action: RowDeltaAction) -> RowDeltaCommit {
    match action.commit(FormatVersion::V2) {
        Ok(commit) => commit,
        Err(error) => panic!("{:?}", error),
    }
}

fn rejection(action: RowDeltaAction, format_version: FormatVersion) -> Error {
    match action.commit(format_version) {
        Ok(_) => panic!("expected the row delta to be rejected"),
        Err(error) => error,
    }
}

fn paths(manifests: &[ManifestFile]) -> Vec<&str> {
    manifests
        .iter()
        .map(|manifest| manifest.manifest_path.as_str())
        .collect()
}

#[test]
fn empty_row_delta_errors() {
    let result = RowDeltaAction::new().commit(FormatVersion::V2);
    assert!(result.is_err());
}

#[test]
fn empty_row_delta_error_is_a_failed_precondition() {
    let error = rejection(RowDeltaAction::default(), FormatVersion::V2);
    assert_eq!(error.kind, ErrorKind::PreconditionFailed);
    assert_eq!(
        error.message,
        "row delta requires at least one added or removed file"
    );
}

#[test]
fn snapshot_properties_alone_are_enough() {
    let mut props = HashMap::new();
    props.insert("k".to_string(), "v".to_string());
    let commit = commit(RowDeltaAction::new().set_snapshot_properties(props));
    assert_eq!(commit.operation.operation(), Operation::Overwrite);
}

#[test]
fn add_data_only_emits_append() {
    let commit = commit(RowDeltaAction::new().add_data_files(vec![data_file("test/data.parquet")]));
    assert_eq!(commit.operation.operation(), Operation::Append);
}

#[test]
fn add_deletes_only_emits_delete() {
    let commit = commit(
        RowDeltaAction::new().add_delete_files(vec![pos_delete_v2("test/delete.parquet")]),
    );
    assert_eq!(commit.operation.operation(), Operation::Delete);
}

#[test]
fn add_data_and_deletes_emits_overwrite() {
    let commit = commit(
        RowDeltaAction::new()
            .add_data_files(vec![data_file("test/data.parquet")])
            .add_delete_files(vec![pos_delete_v2("test/delete.parquet")]),
    );
    assert_eq!(commit.operation.operation(), Operation::Overwrite);
}

#[test]
fn add_data_and_remove_deletes_emits_append() {
    let commit = commit(
        RowDeltaAction::new()
            .add_data_files(vec![data_file("test/new.parquet")])
            .remove_delete_files(vec![pos_delete_v2("test/prior.parquet")]),
    );
    assert_eq!(commit.operation.operation(), Operation::Append);
}

#[test]
fn dv_merge_shape_emits_overwrite() {
    let commit = commit(
        RowDeltaAction::new()
            .add_data_files(vec![data_file("test/data.parquet")])
            .add_delete_files(vec![pos_delete_v2("test/new_del.parquet")])
            .remove_delete_files(vec![pos_delete_v2("test/prior_del.parquet")]),
    );
    assert_eq!(commit.operation.operation(), Operation::Overwrite);
}

#[test]
fn operation_table() {
    for (has_added_data, has_added_deletes, expected) in [
        (true, false, Operation::Append),
        (false, true, Operation::Delete),
        (true, true, Operation::Overwrite),
        (false, false, Operation::Overwrite),
    ] {
        let operation = RowDeltaOperation {
            has_added_data,
            has_added_deletes,
        };
        assert_eq!(operation.operation(), expected);
    }
}

#[test]
fn rejects_data_file_in_delete_bucket() {
    let action = RowDeltaAction::new().add_delete_files(vec![data_file("test/wrong.parquet")]);
    let result = action.commit(FormatVersion::V2);
    assert!(matches!(result, Err(Error { .. })));
}

#[test]
fn data_file_in_either_delete_bucket_is_named() {
    let error = rejection(
        RowDeltaAction::new().add_delete_files(vec![
            pos_delete_v2("test/fine.parquet"),
            data_file("test/wrong.parquet"),
            data_file("test/later.parquet"),
        ]),
        FormatVersion::V2,
    );
    assert_eq!(error.kind, ErrorKind::DataInvalid);
    assert_eq!(
        error.message,
        "added file test/wrong.parquet has content type Data; use add_data_files"
    );

    let error = rejection(
        RowDeltaAction::new().remove_delete_files(vec![data_file("test/wrong.parquet")]),
        FormatVersion::V2,
    );
    assert_eq!(
        error.message,
        "removed file test/wrong.parquet has content type Data; use add_data_files"
    );
}

#[test]
fn equality_deletes_need_field_ids() {
    for ids in [None, Some(vec![])] {
        let error = rejection(
            RowDeltaAction::new().add_delete_files(vec![equality_delete("test/eq.parquet", ids)]),
            FormatVersion::V2,
        );
        assert_eq!(error.kind, ErrorKind::DataInvalid);
        assert_eq!(
            error.message,
            "equality delete test/eq.parquet missing equality_ids"
        );
    }
    let action = RowDeltaAction::new()
        .add_delete_files(vec![equality_delete("test/eq.parquet", Some(vec![1]))]);
    assert!(action.commit(FormatVersion::V3).is_ok());
}

#[test]
fn v1_rejects_delete_files() {
    let error = rejection(
        RowDeltaAction::new()
            .add_delete_files(vec![equality_delete("test/eq.parquet", Some(vec![1]))]),
        FormatVersion::V1,
    );
    assert_eq!(error.kind, ErrorKind::DataInvalid);
    assert_eq!(error.message, "delete files are not supported in V1");

    // The version is not held against files that are removed.
    let action = RowDeltaAction::new().remove_delete_files(vec![pos_delete_v2("test/d.parquet")]);
    assert!(action.commit(FormatVersion::V1).is_ok());
}

#[test]
fn v3_rejects_parquet_position_deletes() {
    let action = RowDeltaAction::new().add_delete_files(vec![pos_delete_v2("test/del.parquet")]);
    let error = rejection(action, FormatVersion::V3);
    assert!(error.message.contains("V3 requires deletion vectors"));
    assert_eq!(
        error.message,
        "V3 requires deletion vectors for position deletes: test/del.parquet"
    );
}

#[test]
fn v2_rejects_puffin_position_deletes() {
    let dv = DataFile {
        content: DataContentType::PositionDeletes,
        file_path: "test/dv.puffin".to_string(),
        file_format: DataFileFormat::Puffin,
        file_size_in_bytes: 50,
        record_count: 5,
        partition_spec_id: 0,
        partition: vec![Some(100i64.to_le_bytes().to_vec())],
        equality_ids: None,
        referenced_data_file: Some("test/data.parquet".to_string()),
        content_offset: Some(0),
        content_size_in_bytes: Some(50),
    };
    let fits = RowDeltaAction::new().add_delete_files(vec![dv.clone()]);
    assert!(fits.commit(FormatVersion::V3).is_ok());

    let action = RowDeltaAction::new().add_delete_files(vec![dv]);
    let error = rejection(action, FormatVersion::V2);
    assert!(error.message.contains("V2 forbids deletion vectors"));
    assert_eq!(
        error.message,
        "V2 forbids deletion vectors for position deletes: test/dv.puffin"
    );
}

#[test]
fn checks_are_made_in_order() {
    // The removed file is looked at before the format version.
    let error = rejection(
        RowDeltaAction::new()
            .add_delete_files(vec![pos_delete_v2("test/del.parquet")])
            .remove_delete_files(vec![data_file("test/wrong.parquet")]),
        FormatVersion::V3,
    );
    assert_eq!(
        error.message,
        "removed file test/wrong.parquet has content type Data; use add_data_files"
    );
}

#[test]
fn passes_snapshot_properties_through() {
    let mut props = HashMap::new();
    props.insert("sm.connector_id".to_string(), "abc".to_string());
    let commit = commit(
        RowDeltaAction::new()
            .set_snapshot_properties(props)
            .add_data_files(vec![data_file("test/data.parquet")]),
    );
    assert_eq!(
        commit
            .snapshot_producer
            .snapshot_properties
            .get("sm.connector_id")
            .unwrap(),
        "abc"
    );
    assert_eq!(commit.operation.operation(), Operation::Append);
}

#[test]
fn files_and_settings_are_handed_over() {
    let commit_uuid = Uuid::from_u128(42);
    let commit = commit(
        RowDeltaAction::new()
            .with_check_duplicate(true)
            .set_commit_uuid(commit_uuid)
            .set_key_metadata(vec![1, 2, 3])
            .add_data_files(vec![data_file("a")])
            .add_data_files(vec![data_file("b"), data_file("c")])
            .add_delete_files(vec![pos_delete_v2("d")])
            .remove_delete_files(vec![pos_delete_v2("e")]),
    );
    let producer = commit.snapshot_producer;
    assert!(commit.check_duplicate);
    assert_eq!(producer.commit_uuid, commit_uuid);
    assert_eq!(producer.key_metadata, Some(vec![1, 2, 3]));
    assert_eq!(
        producer.added_data_files,
        vec![data_file("a"), data_file("b"), data_file("c")]
    );
    assert_eq!(producer.added_delete_files, vec![pos_delete_v2("d")]);
    assert_eq!(producer.deleted_data_files, vec![]);
    assert_eq!(producer.deleted_delete_files, vec![pos_delete_v2("e")]);
    assert_eq!(producer.added_data_sequence_number, None);
}

#[test]
fn duplicates_are_not_checked_by_default() {
    let commit = commit(RowDeltaAction::new().add_data_files(vec![data_file("a")]));
    assert!(!commit.check_duplicate);
}

#[test]
fn a_commit_uuid_is_generated_when_none_is_set() {
    let action = RowDeltaAction::new().add_data_files(vec![data_file("a")]);
    let first = action.commit(FormatVersion::V2).unwrap_or_else(|_| panic!("rejected"));
    let second = action.commit(FormatVersion::V2).unwrap_or_else(|_| panic!("rejected"));
    let first = first.snapshot_producer.commit_uuid;
    let second = second.snapshot_producer.commit_uuid;
    assert_eq!(first.get_version_num(), 7);
    assert_eq!(second.get_version_num(), 7);
    assert_ne!(first, second);
}

#[test]
fn deleted_copy_keeps_everything_but_the_status() {
    let source = entry(ManifestStatus::Added, 35, pos_delete_v2("p"));
    let copy = copy_with_deleted_status(&source).unwrap();
    assert_eq!(copy, entry(ManifestStatus::Deleted, 35, pos_delete_v2("p")));
}

#[test]
fn without_a_snapshot_there_is_nothing_to_carry_over() {
    let commit = commit(RowDeltaAction::new().remove_delete_files(vec![pos_delete_v2("p")]));
    let mut storage = Storage::new(vec![]);
    let walk = commit.operation.delete_entries(&commit.snapshot_producer, false);
    assert!(storage.delete_entries(walk).is_empty());
    let walk = commit.operation.existing_manifest(&commit.snapshot_producer, false);
    assert!(storage.existing_manifest(walk).is_empty());
}

#[test]
fn without_removals_no_manifest_is_read() {
    let commit = commit(RowDeltaAction::new().add_data_files(vec![data_file("new")]));
    let mut storage = Storage::new(vec![
        (
            manifest_file("m0", ManifestContentType::Data, true),
            vec![entry(ManifestStatus::Added, 1, data_file("a"))],
        ),
        (
            manifest_file("m1", ManifestContentType::Data, false),
            vec![entry(ManifestStatus::Deleted, 1, data_file("b"))],
        ),
        (
            manifest_file("m2", ManifestContentType::Deletes, true),
            vec![entry(ManifestStatus::Added, 1, pos_delete_v2("c"))],
        ),
    ]);
    let walk = commit.operation.delete_entries(&commit.snapshot_producer, true);
    assert!(matches!(walk, DeleteEntries::Done(_)));
    assert!(storage.delete_entries(walk).is_empty());
    let walk = commit.operation.existing_manifest(&commit.snapshot_producer, true);
    let existing = storage.existing_manifest(walk);
    assert_eq!(paths(&existing), ["m0", "m2"]);
    assert!(storage.read.is_empty());
}

#[test]
fn manifests_are_kept_rewritten_or_dropped() {
    let commit = commit(RowDeltaAction::new().remove_delete_files(vec![pos_delete_v2("gone")]));
    let mut storage = Storage::new(vec![
        // Nothing is removed from it.
        (
            manifest_file("keep", ManifestContentType::Data, true),
            vec![entry(ManifestStatus::Added, 1, data_file("a"))],
        ),
        // All of it is removed.
        (
            manifest_file("drop", ManifestContentType::Deletes, true),
            vec![entry(ManifestStatus::Existing, 2, pos_delete_v2("gone"))],
        ),
        // Some of it is removed.
        (
            manifest_file("rewrite", ManifestContentType::Deletes, true),
            vec![
                entry(ManifestStatus::Deleted, 3, pos_delete_v2("old")),
                entry(ManifestStatus::Added, 3, pos_delete_v2("gone")),
                entry(ManifestStatus::Added, 4, pos_delete_v2("stays")),
            ],
        ),
        // It lists no live files, and the manifest list says so.
        (
            manifest_file("dead", ManifestContentType::Deletes, false),
            vec![entry(ManifestStatus::Deleted, 5, pos_delete_v2("gone"))],
        ),
    ]);

    let walk = commit.operation.delete_entries(&commit.snapshot_producer, true);
    let deleted = storage.delete_entries(walk);
    assert_eq!(
        deleted,
        vec![
            entry(ManifestStatus::Deleted, 2, pos_delete_v2("gone")),
            entry(ManifestStatus::Deleted, 3, pos_delete_v2("gone")),
        ]
    );
    assert_eq!(storage.read, ["keep", "drop", "rewrite", "dead"]);

    let walk = commit.operation.existing_manifest(&commit.snapshot_producer, true);
    let existing = storage.existing_manifest(walk);
    assert_eq!(paths(&existing), ["keep", "written-0"]);
    assert_eq!(existing[1].content, ManifestContentType::Deletes);
    assert_eq!(existing[1].partition_spec_id, 3);
    assert_eq!(
        storage.written[0].1,
        vec![entry(ManifestStatus::Existing, 4, pos_delete_v2("stays"))]
    );
}

#[test]
fn a_data_file_at_a_removed_path_is_not_recorded_as_deleted() {
    let commit = commit(RowDeltaAction::new().remove_delete_files(vec![pos_delete_v2("shared")]));
    let mut storage = Storage::new(vec![(
        manifest_file("m", ManifestContentType::Data, true),
        vec![
            entry(ManifestStatus::Added, 1, data_file("shared")),
            entry(ManifestStatus::Added, 1, data_file("other")),
        ],
    )]);
    let walk = commit.operation.delete_entries(&commit.snapshot_producer, true);
    assert!(storage.delete_entries(walk).is_empty());
    let walk = commit.operation.existing_manifest(&commit.snapshot_producer, true);
    storage.existing_manifest(walk);
    assert_eq!(
        storage.written[0].1,
        vec![entry(ManifestStatus::Existing, 1, data_file("other"))]
    );
}

#[test]
fn remove_delete_file_rewrites_manifest_and_preserves_sequence_numbers() {
    let prior = pos_delete_v2("test/prior.parquet");
    let mut prior_shell = prior.clone();
    prior_shell.file_size_in_bytes = 0;
    prior_shell.record_count = 0;
    let survivor = pos_delete_v2("test/survivor.parquet");

    let s1_seq = 35;
    let mut storage = Storage::new(vec![(
        manifest_file("s1-m0", ManifestContentType::Deletes, true),
        vec![
            entry(ManifestStatus::Added, s1_seq, prior.clone()),
            entry(ManifestStatus::Added, s1_seq, survivor.clone()),
        ],
    )]);

    let commit_s2 = commit(
        RowDeltaAction::new()
            .add_data_files(vec![data_file("test/new.parquet")])
            .remove_delete_files(vec![prior_shell]),
    );
    assert_eq!(commit_s2.operation.operation(), Operation::Append);
    let producer = &commit_s2.snapshot_producer;

    let walk = commit_s2.operation.delete_entries(producer, true);
    let deleted = storage.delete_entries(walk);
    let walk = commit_s2.operation.existing_manifest(producer, true);
    let existing = storage.existing_manifest(walk);
    assert_eq!(paths(&existing), ["written-0"]);
    let carried = &storage.written[0].1;

    let removed_position_deletes: u64 = deleted.iter().map(|e| e.data_file.record_count).sum();
    assert_eq!(removed_position_deletes.to_string(), "5");
    let total_position_deletes: u64 = carried.iter().map(|e| e.data_file.record_count).sum();
    assert_eq!(total_position_deletes.to_string(), "5");

    let mut saw_prior_deleted = false;
    let mut saw_survivor_existing = false;
    for entry in deleted.iter().chain(carried.iter()) {
        let path = &entry.data_file.file_path;
        if *path == prior.file_path {
            assert_eq!(entry.status, ManifestStatus::Deleted);
            assert_eq!(entry.sequence_number, Some(s1_seq));
            assert_eq!(entry.file_sequence_number, Some(s1_seq));
            saw_prior_deleted = true;
        } else if *path == survivor.file_path {
            assert_eq!(entry.status, ManifestStatus::Existing);
            assert_eq!(entry.sequence_number, Some(s1_seq));
            assert_eq!(entry.file_sequence_number, Some(s1_seq));
            saw_survivor_existing = true;
        }
    }
    let saw_new_added = producer
        .added_data_files
        .iter()
        .any(|file| file.file_path == "test/new.parquet");

    assert!(saw_prior_deleted, "prior delete file missing DELETED entry");
    assert!(saw_survivor_existing, "survivor missing EXISTING entry");
    assert!(saw_new_added, "new data file missing ADDED entry");
}

#[test]
fn a_position_delete_file_fits_one_of_two_versions() {
    for format in [DataFileFormat::Parquet, DataFileFormat::Puffin] {
        let files = [file("test/del", DataContentType::PositionDeletes, format)];
        let v2 = RowDeltaAction::validate_format_version(&files, FormatVersion::V2);
        let v3 = RowDeltaAction::validate_format_version(&files, FormatVersion::V3);
        assert_ne!(v2.is_ok(), v3.is_ok());
    }
}

#[test]
fn joined_files_are_checked_in_turn() {
    let sound = vec![pos_delete_v2("test/sound.parquet")];
    let faulty = vec![data_file("test/data.parquet")];
    let nameless = vec![equality_delete("test/eq.parquet", None)];
    let message = |first: &Vec<DataFile>, second: &Vec<DataFile>| {
        let joined: Vec<DataFile> = first.iter().chain(second).cloned().collect();
        RowDeltaAction::validate_delete_files(&joined, "added").unwrap_err().message
    };

    assert_eq!(
        message(&faulty, &nameless),
        "added file test/data.parquet has content type Data; use add_data_files"
    );
    assert_eq!(
        message(&nameless, &faulty),
        "equality delete test/eq.parquet missing equality_ids"
    );
    assert_eq!(
        message(&sound, &nameless),
        "equality delete test/eq.parquet missing equality_ids"
    );
    let joined = [sound[0].clone(), pos_delete_v2("test/other.parquet")];
    assert!(RowDeltaAction::validate_delete_files(&joined, "added").is_ok());

    let vector = file(
        "test/dv.puffin",
        DataContentType::PositionDeletes,
        DataFileFormat::Puffin,
    );
    let mixed = [sound[0].clone(), vector];
    assert_eq!(
        RowDeltaAction::validate_format_version(&mixed, FormatVersion::V2).unwrap_err().message,
        "V2 forbids deletion vectors for position deletes: test/dv.puffin"
    );
    assert_eq!(
        RowDeltaAction::validate_format_version(&mixed, FormatVersion::V3).unwrap_err().message,
        "V3 requires deletion vectors for position deletes: test/sound.parquet"
    );
}

#[test]
fn added_files_are_checked_before_duplicates() {
    let action = || {
        RowDeltaAction::new()
            .add_data_files(vec![data_file("a")])
            .add_delete_files(vec![pos_delete_v2("d")])
            .remove_delete_files(vec![pos_delete_v2("e")])
    };
    let (data_files, delete_files) = (vec![data_file("a")], vec![pos_delete_v2("d")]);

    let unchecked = commit(action());
    assert_eq!(
        unchecked.table_checks(),
        vec![
            TableCheck::AddedFiles(&data_files),
            TableCheck::AddedFiles(&delete_files),
        ]
    );
    let checked = commit(action().with_check_duplicate(true));
    assert_eq!(
        checked.table_checks(),
        vec![
            TableCheck::AddedFiles(&data_files),
            TableCheck::AddedFiles(&delete_files),
            TableCheck::DuplicateFiles,
        ]
    );
}

#[test]
fn each_live_file_is_carried_over_or_recorded_as_deleted() {
    let commit = commit(RowDeltaAction::new().remove_delete_files(vec![pos_delete_v2("gone")]));
    let live = vec![
        entry(ManifestStatus::Added, 1, data_file("data")),
        entry(ManifestStatus::Existing, 2, pos_delete_v2("gone")),
        entry(ManifestStatus::Added, 3, pos_delete_v2("stays")),
    ];
    let copies = live.iter().map(|e| e.copy_with_status(e.status)).collect();
    let mut storage = Storage::new(vec![(
        manifest_file("m", ManifestContentType::Deletes, true),
        copies,
    )]);
    let walk = commit.operation.delete_entries(&commit.snapshot_producer, true);
    let deleted = storage.delete_entries(walk);
    let walk = commit.operation.existing_manifest(&commit.snapshot_producer, true);
    assert_eq!(paths(&storage.existing_manifest(walk)), ["written-0"]);
    let carried = &storage.written[0].1;
    for entry in &live {
        let is_deleted = deleted.contains(&entry.copy_with_status(ManifestStatus::Deleted));
        let is_carried = carried.contains(&entry.copy_with_status(ManifestStatus::Existing));
        assert_eq!(is_deleted, entry.data_file.file_path == "gone");
        assert_ne!(is_deleted, is_carried);
    }
}
