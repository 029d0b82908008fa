use std::collections::HashMap;

use iceberg_transaction::data_file::{DataContentType, DataFile, DataFileFormat};
use iceberg_transaction::error::{Error, ErrorKind};
use iceberg_transaction::manifest::{
    ManifestContentType, ManifestEntry, ManifestFile, ManifestStatus,
};
use iceberg_transaction::replace_files::{
    copy_with_deleted_status, Overwrite, OverwriteFilesAction, ReplaceFilesAction,
    ReplaceFilesMode, Rewrite, RewriteFilesAction,
};
use iceberg_transaction::snapshot::Operation;
use iceberg_transaction::walk::{DeleteEntries, ExistingManifests, RemovalRule};
use uuid::Uuid;

fn file(path: &str, content: DataContentType) -> DataFile {
    DataFile {
        content,
        file_path: path.to_string(),
        file_format: DataFileFormat::Parquet,
        partition: vec![Some(100i64.to_le_bytes().to_vec()), None],
        partition_spec_id: 0,
        record_count: 1,
        file_size_in_bytes: 100,
        equality_ids: None,
        referenced_data_file: None,
        content_offset: None,
        content_size_in_bytes: None,
    }
}

fn data_file(path: &str) -> DataFile {
    file(path, DataContentType::Data)
}

fn pos_delete(path: &str) -> DataFile {
    file(path, DataContentType::PositionDeletes)
}

fn equality_delete(path: &str) -> DataFile {
    let mut delete = file(path, DataContentType::EqualityDeletes);
    delete.equality_ids = Some(vec![1, 2]);
    delete
}

fn entry(status: ManifestStatus, sequence_number: i64, data_file: DataFile) -> ManifestEntry {
    ManifestEntry {
        status,
        snapshot_id: Some(7),
        sequence_number: Some(sequence_number),
        file_sequence_number: Some(sequence_number),
        data_file,
    }
}

fn manifest_file(path: &str, content: ManifestContentType, live: bool) -> ManifestFile {
    ManifestFile {
        manifest_path: path.to_string(),
        content,
        partition_spec_id: 3,
        has_added_files: false,
        has_existing_files: live,
    }
}

/// Manifests in memory, with those that were written.
struct Storage {
    manifests: Vec<(ManifestFile, Vec<ManifestEntry>)>,
    written: Vec<(ManifestFile, Vec<ManifestEntry>)>,
}

impl Storage {
    fn new(manifests: Vec<(ManifestFile, Vec<ManifestEntry>)>) -> Self {
        Storage {
            manifests,
            written: vec![],
        }
    }

    fn list(&self) -> Vec<ManifestFile> {
        self.manifests.iter().map(|(file, _)| file.clone()).collect()
    }

    fn load(&self, file: &ManifestFile) -> &Vec<ManifestEntry> {
        &self
            .manifests
            .iter()
            .find(|(stored, _)| stored.manifest_path == file.manifest_path)
            .unwrap()
            .1
    }

    fn delete_entries<R: RemovalRule>(&self, walk: DeleteEntries<R>) -> Vec<ManifestEntry> {
        let mut walk = walk;
        loop {
            walk = match walk {
                DeleteEntries::LoadManifestList(start) => start.list_loaded(self.list()),
                DeleteEntries::LoadManifest(step) => {
                    let entries = self.load(step.manifest());
                    step.manifest_loaded(entries)
                }
                DeleteEntries::Done(entries) => return entries,
            }
        }
    }

    fn existing_manifest<R: RemovalRule>(
        &mut self,
        walk: ExistingManifests<R>,
    ) -> Vec<ManifestFile> {
        let mut walk = walk;
        loop {
            walk = match walk {
                ExistingManifests::LoadManifestList(start) => start.list_loaded(self.list()),
                ExistingManifests::LoadManifest(step) => {
                    let entries = self.load(step.manifest());
                    step.manifest_loaded(entries)
                }
                ExistingManifests::WriteManifest(write) => {
                    let draft = write.draft();
                    let file = ManifestFile {
                        manifest_path: format!("written-{}", self.written.len()),
                        content: draft.content,
                        partition_spec_id: draft.partition_spec_id,
                        has_added_files: false,
                        has_existing_files: true,
                    };
                    let entries = draft
                        .entries
                        .iter()
                        .map(|entry| entry.copy_with_status(entry.status))
                        .collect();
                    self.written.push((file.clone(), entries));
                    write.manifest_written(file)
                }
                ExistingManifests::Done(manifests) => return manifests,
            }
        }
    }
}

fn paths(manifests: &[ManifestFile]) -> Vec<&str> {
    manifests
        .iter()
        .map(|manifest| manifest.manifest_path.as_str())
        .collect()
}

const CURRENT_SNAPSHOT_ID: i64 = 3051729675574597004;

fn table_with_existing_data() -> (Storage, DataFile) {
    let existing_file = data_file("test/existing.parquet");
    let storage = Storage::new(vec![(
        ManifestFile {
            manifest_path: "s1-m0".to_string(),
            content: ManifestContentType::Data,
            partition_spec_id: 0,
            has_added_files: true,
            has_existing_files: false,
        },
        vec![entry(ManifestStatus::Added, 1, existing_file.clone())],
    )]);
    (storage, existing_file)
}

fn truncate_snapshot_properties() -> HashMap<String, String> {
    HashMap::from([(
        "sm.truncated_from_snapshot".to_string(),
        CURRENT_SNAPSHOT_ID.to_string(),
    )])
}

fn rejection<M: ReplaceFilesMode>(action: ReplaceFilesAction<M>) -> Error {
    let (_, operation) = action.commit();
    let result = operation.validate(None);
    match result {
        Ok(_) => panic!("expected the replacement to be rejected"),
        Err(error) => error,
    }
}

fn assert_overwrite_validation_completes() {
    let (mut storage, existing_file) = table_with_existing_data();
    let action = ReplaceFilesAction::<Overwrite>::new()
        .set_starting_snapshot_id(CURRENT_SNAPSHOT_ID)
        .set_snapshot_properties(truncate_snapshot_properties())
        .delete_data_files(vec![existing_file.clone()])
        .unwrap()
        .full_table_overwrite();

    let (producer, operation) = action.commit();
    let check = operation
        .validate(Some(CURRENT_SNAPSHOT_ID))
        .expect("overwrite commit failed")
        .expect("deleted data files are checked for new deletes");
    assert_eq!(check.starting_snapshot_id, Some(CURRENT_SNAPSHOT_ID));
    assert_eq!(check.parent_snapshot_id, Some(CURRENT_SNAPSHOT_ID));
    assert_eq!(*check.data_files, vec![existing_file.clone()]);
    assert!(!check.has_data_sequence_number);

    assert_eq!(operation.operation(), Operation::Overwrite);
    assert!(operation.is_full_table_overwrite());
    let deleted = storage.delete_entries(operation.delete_entries(&producer, true));
    assert_eq!(deleted, vec![entry(ManifestStatus::Deleted, 1, existing_file)]);
    let existing = storage.existing_manifest(operation.existing_manifest(&producer, true));
    assert!(existing.is_empty());
    assert!(storage.written.is_empty());
}

fn assert_rewrite_validation_completes() {
    let (mut storage, existing_file) = table_with_existing_data();
    let replacement = data_file("test/rewrite-replacement.parquet");
    let action = ReplaceFilesAction::<Rewrite>::new()
        .delete_data_files(vec![existing_file.clone()])
        .unwrap()
        .add_data_files(vec![replacement])
        .unwrap();

    let (producer, operation) = action.commit();
    let check = operation
        .validate(Some(CURRENT_SNAPSHOT_ID))
        .expect("rewrite commit failed")
        .expect("deleted data files are checked for new deletes");
    assert_eq!(check.starting_snapshot_id, None);

    assert_eq!(operation.operation(), Operation::Replace);
    assert!(!operation.is_full_table_overwrite());
    let deleted = storage.delete_entries(operation.delete_entries(&producer, true));
    assert_eq!(deleted, vec![entry(ManifestStatus::Deleted, 1, existing_file)]);
    let existing = storage.existing_manifest(operation.existing_manifest(&producer, true));
    assert!(existing.is_empty());
}

#[test]
fn modes_map_to_snapshot_operations() {
    assert_eq!(Rewrite::OPERATION, Operation::Replace);
    assert_eq!(Overwrite::OPERATION, Operation::Overwrite);
}

#[test]
fn v2_overwrite_validation_completes() {
    assert_overwrite_validation_completes();
}

#[test]
fn v3_overwrite_validation_completes() {
    assert_overwrite_validation_completes();
}

#[test]
fn v2_rewrite_validation_completes() {
    assert_rewrite_validation_completes();
}

#[test]
fn v3_rewrite_validation_completes() {
    assert_rewrite_validation_completes();
}

#[test]
fn new_deletes_check_says_whether_a_data_sequence_number_is_set() {
    let action = OverwriteFilesAction::new()
        .delete_data_files(vec![data_file("a")])
        .unwrap()
        .set_data_sequence_number(35);
    let (producer, operation) = action.commit();
    assert_eq!(producer.added_data_sequence_number, Some(35));
    let check = operation.validate(Some(1)).unwrap().unwrap();
    assert!(check.has_data_sequence_number);
    assert_eq!(check.starting_snapshot_id, None);
    assert_eq!(check.parent_snapshot_id, Some(1));
}

#[test]
fn only_deleted_data_files_are_checked_for_new_deletes() {
    let action = RewriteFilesAction::new()
        .delete_data_files(vec![pos_delete("d")])
        .unwrap()
        .add_data_files(vec![equality_delete("e")])
        .unwrap();
    let (_, operation) = action.commit();
    assert_eq!(operation.validate(Some(1)).unwrap(), None);
}

#[test]
fn a_replacement_deletes_files() {
    let error = rejection(RewriteFilesAction::default());
    assert_eq!(error.kind, ErrorKind::DataInvalid);
    assert_eq!(error.message, "Files to delete cannot be empty");
    let error = rejection(
        RewriteFilesAction::new()
            .add_data_files(vec![data_file("a"), pos_delete("d")])
            .unwrap(),
    );
    assert_eq!(error.message, "Files to delete cannot be empty");
}

#[test]
fn data_files_only_replace_data_files() {
    let error = rejection(
        RewriteFilesAction::new()
            .add_data_files(vec![data_file("a")])
            .unwrap()
            .delete_data_files(vec![pos_delete("d")])
            .unwrap(),
    );
    assert_eq!(error.kind, ErrorKind::DataInvalid);
    assert_eq!(
        error.message,
        "Data files to add must be empty because there's no data file to be rewritten"
    );
}

#[test]
fn delete_files_only_replace_delete_files() {
    let error = rejection(
        RewriteFilesAction::new()
            .add_data_files(vec![pos_delete("d")])
            .unwrap()
            .delete_data_files(vec![data_file("a")])
            .unwrap(),
    );
    assert_eq!(error.kind, ErrorKind::DataInvalid);
    assert_eq!(
        error.message,
        "Delete files to add must be empty because there's no delete file to be rewritten"
    );
}

#[test]
fn files_are_split_by_content_in_order() {
    let commit_uuid = Uuid::from_u128(42);
    let action = RewriteFilesAction::new()
        .set_commit_uuid(commit_uuid)
        .set_key_metadata(vec![9])
        .set_snapshot_properties(truncate_snapshot_properties())
        .add_data_files(vec![data_file("a"), pos_delete("b"), data_file("c")])
        .unwrap()
        .delete_data_files(vec![equality_delete("d"), data_file("e"), pos_delete("f")])
        .unwrap();
    let (producer, _) = action.commit();
    assert_eq!(producer.commit_uuid, commit_uuid);
    assert_eq!(producer.key_metadata, Some(vec![9]));
    assert_eq!(producer.snapshot_properties, truncate_snapshot_properties());
    assert_eq!(producer.added_data_files, vec![data_file("a"), data_file("c")]);
    assert_eq!(producer.added_delete_files, vec![pos_delete("b")]);
    assert_eq!(producer.deleted_data_files, vec![data_file("e")]);
    assert_eq!(
        producer.deleted_delete_files,
        vec![equality_delete("d"), pos_delete("f")]
    );
}

#[test]
fn batches_add_up() {
    let batch = || vec![data_file("a"), pos_delete("b")];
    let more = || vec![equality_delete("c"), data_file("d")];
    let commit_uuid = Uuid::from_u128(1);
    let twice = RewriteFilesAction::new()
        .add_data_files(batch())
        .unwrap()
        .add_data_files(more())
        .unwrap()
        .delete_data_files(more())
        .unwrap()
        .delete_data_files(batch())
        .unwrap();
    let once = RewriteFilesAction::new()
        .add_data_files(batch().into_iter().chain(more()).collect())
        .unwrap()
        .delete_data_files(more().into_iter().chain(batch()).collect())
        .unwrap();
    assert_eq!(twice.commit_as(commit_uuid).0, once.commit_as(commit_uuid).0);
}

#[test]
fn generated_commit_uuids_differ() {
    let action = RewriteFilesAction::new();
    let first = action.commit().0.commit_uuid;
    let second = action.commit().0.commit_uuid;
    assert_eq!(first.get_version_num(), 7);
    assert_ne!(first, second);
}

#[test]
fn deleted_copy_of_a_replaced_file_keeps_everything_but_the_status() {
    let source = entry(ManifestStatus::Existing, 35, data_file("p"));
    let copy = copy_with_deleted_status(&source).unwrap();
    assert_eq!(copy, entry(ManifestStatus::Deleted, 35, data_file("p")));
}

#[test]
fn replacement_without_a_snapshot_has_nothing_to_carry_over() {
    let action = RewriteFilesAction::new()
        .delete_data_files(vec![data_file("a")])
        .unwrap();
    let (producer, operation) = action.commit();
    let mut storage = Storage::new(vec![]);
    assert!(storage
        .delete_entries(operation.delete_entries(&producer, false))
        .is_empty());
    assert!(storage
        .existing_manifest(operation.existing_manifest(&producer, false))
        .is_empty());
}

#[test]
fn manifests_of_replaced_files_are_kept_rewritten_or_dropped() {
    let action = RewriteFilesAction::new()
        .delete_data_files(vec![data_file("gone"), pos_delete("gone-deletes")])
        .unwrap();
    let (producer, operation) = action.commit();
    let mut storage = Storage::new(vec![
        // No file of it is replaced.
        (
            manifest_file("keep", ManifestContentType::Data, true),
            vec![entry(ManifestStatus::Added, 1, data_file("a"))],
        ),
        // All its live files are replaced.
        (
            manifest_file("drop", ManifestContentType::Deletes, true),
            vec![entry(ManifestStatus::Added, 2, pos_delete("gone-deletes"))],
        ),
        // Some of its live files are replaced.
        (
            manifest_file("rewrite", ManifestContentType::Data, true),
            vec![
                entry(ManifestStatus::Existing, 3, data_file("b")),
                entry(ManifestStatus::Added, 4, data_file("gone")),
                entry(ManifestStatus::Deleted, 5, data_file("c")),
                entry(ManifestStatus::Added, 6, data_file("d")),
            ],
        ),
        // A replaced file that was gone before is recorded once more.
        (
            manifest_file("dead", ManifestContentType::Data, false),
            vec![entry(ManifestStatus::Deleted, 7, data_file("gone"))],
        ),
        // A delete file is not looked for among the data files.
        (
            manifest_file("deletes", ManifestContentType::Deletes, true),
            vec![entry(ManifestStatus::Added, 8, pos_delete("gone"))],
        ),
        // The manifest list does not know of its live file.
        (
            manifest_file("unknown", ManifestContentType::Data, false),
            vec![entry(ManifestStatus::Added, 9, data_file("e"))],
        ),
    ]);

    let deleted = storage.delete_entries(operation.delete_entries(&producer, true));
    assert_eq!(
        deleted,
        vec![
            entry(ManifestStatus::Deleted, 2, pos_delete("gone-deletes")),
            entry(ManifestStatus::Deleted, 4, data_file("gone")),
            entry(ManifestStatus::Deleted, 7, data_file("gone")),
        ]
    );

    let existing = storage.existing_manifest(operation.existing_manifest(&producer, true));
    assert_eq!(
        paths(&existing),
        ["keep", "written-0", "deletes", "written-1"]
    );
    assert_eq!(existing[1].content, ManifestContentType::Data);
    assert_eq!(existing[1].partition_spec_id, 3);
    assert_eq!(
        storage.written[0].1,
        vec![
            entry(ManifestStatus::Existing, 3, data_file("b")),
            entry(ManifestStatus::Existing, 6, data_file("d")),
        ]
    );
    assert_eq!(
        storage.written[1].1,
        vec![entry(ManifestStatus::Existing, 9, data_file("e"))]
    );
}

#[test]
fn a_manifest_of_both_kinds_loses_a_file_at_a_shared_path() {
    let action = RewriteFilesAction::new()
        .delete_data_files(vec![data_file("shared")])
        .unwrap();
    let (producer, operation) = action.commit();
    let mut storage = Storage::new(vec![(
        manifest_file("mixed", ManifestContentType::Data, true),
        vec![
            entry(ManifestStatus::Added, 1, data_file("shared")),
            entry(ManifestStatus::Added, 1, pos_delete("shared")),
        ],
    )]);
    let deleted = storage.delete_entries(operation.delete_entries(&producer, true));
    assert_eq!(
        deleted,
        vec![entry(ManifestStatus::Deleted, 1, data_file("shared"))]
    );
    let existing = storage.existing_manifest(operation.existing_manifest(&producer, true));
    assert!(existing.is_empty());
}

#[test]
fn each_live_file_is_carried_over_or_replaced() {
    let (producer, operation) = RewriteFilesAction::new()
        .delete_data_files(vec![data_file("old"), pos_delete("kept")])
        .unwrap()
        .commit();
    let live = vec![
        entry(ManifestStatus::Added, 1, data_file("old")),
        entry(ManifestStatus::Existing, 2, data_file("other")),
        // A data file at the path of a replaced delete file is another file.
        entry(ManifestStatus::Added, 3, data_file("kept")),
    ];
    let copies = live.iter().map(|e| e.copy_with_status(e.status)).collect();
    let mut storage = Storage::new(vec![(
        manifest_file("m", ManifestContentType::Data, true),
        copies,
    )]);
    let deleted = storage.delete_entries(operation.delete_entries(&producer, true));
    let existing = storage.existing_manifest(operation.existing_manifest(&producer, true));
    assert_eq!(paths(&existing), ["written-0"]);
    let carried = &storage.written[0].1;
    for entry in &live {
        let is_deleted = deleted.contains(&entry.copy_with_status(ManifestStatus::Deleted));
        let is_carried = carried.contains(&entry.copy_with_status(ManifestStatus::Existing));
        assert_eq!(is_deleted, entry.data_file.file_path == "old");
        assert_ne!(is_deleted, is_carried);
    }
}
