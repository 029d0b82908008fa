//! Files, manifest entries and manifests: what a model shows, and what a copy keeps.
use vstd::hash_set::StringHashSet;
use vstd::prelude::*;

use crate::data_file::{files_view, DataContentType, DataFile};
use crate::error::{Error, ErrorKind};
use crate::manifest::{
    entries_view, manifests_view, ManifestDraft, ManifestEntry, ManifestEntryView, ManifestFile,
    ManifestStatus,
};
use crate::removal::{
    collect_paths, contains_path, entry_survives, has_survivor, rewrite_manifest, survives,
    survivors,
};
use crate::replace_files;
use crate::row_delta;
use crate::seqs::lemma_filter_agree;
use crate::snapshot::SnapshotProducer;

verus! {

/// The model of a file shows every field of the file.
pub proof fn law_file_models_show_every_field(file: DataFile)
    ensures
        file@.content == file.content,
        file@.file_path == file.file_path@,
        file@.file_format == file.file_format,
        file@.partition.len() == file.partition@.len(),
        forall|i: int|
            0 <= i < file.partition@.len() ==> match #[trigger] file.partition@[i] {
                Some(value) => file@.partition[i] == Some(value@),
                None => file@.partition[i] is None,
            },
        file@.partition_spec_id == file.partition_spec_id,
        file@.record_count == file.record_count,
        file@.file_size_in_bytes == file.file_size_in_bytes,
        match file.equality_ids {
            Some(ids) => file@.equality_ids == Some(ids@),
            None => file@.equality_ids is None,
        },
        match file.referenced_data_file {
            Some(path) => file@.referenced_data_file == Some(path@),
            None => file@.referenced_data_file is None,
        },
        file@.content_offset == file.content_offset,
        file@.content_size_in_bytes == file.content_size_in_bytes,
{
}

/// The model of an entry, and that of a manifest, shows every field.
pub proof fn law_manifest_models_show_every_field(
    entry: ManifestEntry,
    manifest: ManifestFile,
    draft: ManifestDraft,
)
    ensures
        entry@.status == entry.status,
        entry@.snapshot_id == entry.snapshot_id,
        entry@.sequence_number == entry.sequence_number,
        entry@.file_sequence_number == entry.file_sequence_number,
        entry@.data_file == entry.data_file@,
        manifest@.manifest_path == manifest.manifest_path@,
        manifest@.content == manifest.content,
        manifest@.partition_spec_id == manifest.partition_spec_id,
        manifest@.has_added_files == manifest.has_added_files,
        manifest@.has_existing_files == manifest.has_existing_files,
        draft@.content == draft.content,
        draft@.partition_spec_id == draft.partition_spec_id,
        draft@.entries.len() == draft.entries@.len(),
        forall|i: int|
            0 <= i < draft.entries@.len() ==> draft@.entries[i] == (#[trigger] draft.entries@[i])@,
{
}

/// The model of a list shows the model of each item, in order.
pub proof fn law_list_models_show_every_item(
    files: Seq<DataFile>,
    entries: Seq<ManifestEntry>,
    manifests: Seq<ManifestFile>,
)
    ensures
        files_view(files).len() == files.len(),
        forall|i: int| 0 <= i < files.len() ==> files_view(files)[i] == (#[trigger] files[i])@,
        entries_view(entries).len() == entries.len(),
        forall|i: int|
            0 <= i < entries.len() ==> entries_view(entries)[i] == (#[trigger] entries[i])@,
        manifests_view(manifests).len() == manifests.len(),
        forall|i: int|
            0 <= i < manifests.len() ==> manifests_view(manifests)[i] == (#[trigger] manifests[i])@,
{
}

/// The model of what an action hands over shows every field.
pub proof fn law_producer_models_show_every_field(producer: SnapshotProducer)
    ensures
        producer@.commit_uuid == producer.commit_uuid,
        match producer.key_metadata {
            Some(bytes) => producer@.key_metadata == Some(bytes@),
            None => producer@.key_metadata is None,
        },
        producer@.snapshot_properties == producer.snapshot_properties@,
        producer@.added_data_files == producer.added_data_files@.map_values(
            |file: DataFile| file@,
        ),
        producer@.added_delete_files == producer.added_delete_files@.map_values(
            |file: DataFile| file@,
        ),
        producer@.deleted_data_files == producer.deleted_data_files@.map_values(
            |file: DataFile| file@,
        ),
        producer@.deleted_delete_files == producer.deleted_delete_files@.map_values(
            |file: DataFile| file@,
        ),
        producer@.added_data_sequence_number == producer.added_data_sequence_number,
{
}

/// The model of an error shows its kind and message, and an error has those it was made
/// with.
pub proof fn law_errors_are_what_they_were_made_of(kind: ErrorKind, message: String, error: Error)
    requires
        call_ensures(Error::new, (kind, message), error),
    ensures
        error.kind == kind,
        error.message@ == message@,
        error@.kind == error.kind,
        error@.message == error.message@,
{
}

/// A copy of a file is the same file in every field.
pub proof fn law_file_copies_are_equal(file: DataFile, copy: DataFile)
    requires
        call_ensures(DataFile::clone, (&file,), copy),
    ensures
        copy.content == file.content,
        copy.file_path@ == file.file_path@,
        copy.file_format == file.file_format,
        copy.partition@.len() == file.partition@.len(),
        forall|i: int|
            0 <= i < file.partition@.len() ==> match #[trigger] file.partition@[i] {
                Some(value) => copy.partition@[i] matches Some(copied) && copied@ == value@,
                None => copy.partition@[i] is None,
            },
        copy.partition_spec_id == file.partition_spec_id,
        copy.record_count == file.record_count,
        copy.file_size_in_bytes == file.file_size_in_bytes,
        match file.equality_ids {
            Some(ids) => copy.equality_ids matches Some(copied) && copied@ == ids@,
            None => copy.equality_ids is None,
        },
        match file.referenced_data_file {
            Some(path) => copy.referenced_data_file matches Some(copied) && copied@ == path@,
            None => copy.referenced_data_file is None,
        },
        copy.content_offset == file.content_offset,
        copy.content_size_in_bytes == file.content_size_in_bytes,
{
    law_file_models_show_every_field(file);
    law_file_models_show_every_field(copy);
    assert forall|i: int| 0 <= i < file.partition@.len() implies match #[trigger] file.partition@[i] {
        Some(value) => copy.partition@[i] matches Some(copied) && copied@ == value@,
        None => copy.partition@[i] is None,
    } by {
        assert(copy@.partition[i] == file@.partition[i]);
        assert(copy.partition@[i] is Some || copy.partition@[i] is None);
    }
}

/// A copy of a manifest is the same manifest in every field.
pub proof fn law_manifest_copies_are_equal(manifest: ManifestFile, copy: ManifestFile)
    requires
        call_ensures(ManifestFile::clone, (&manifest,), copy),
    ensures
        copy.manifest_path@ == manifest.manifest_path@,
        copy.content == manifest.content,
        copy.partition_spec_id == manifest.partition_spec_id,
        copy.has_added_files == manifest.has_added_files,
        copy.has_existing_files == manifest.has_existing_files,
{
}

/// A copy of an entry with another status differs in nothing but the status.
pub proof fn law_entry_copies_differ_in_status_only(
    entry: ManifestEntry,
    status: ManifestStatus,
    copy: ManifestEntry,
)
    requires
        call_ensures(ManifestEntry::copy_with_status, (&entry, status), copy),
    ensures
        copy.status == status,
        copy.snapshot_id == entry.snapshot_id,
        copy.sequence_number == entry.sequence_number,
        copy.file_sequence_number == entry.file_sequence_number,
        copy.data_file@ == entry.data_file@,
{
}

/// Recording an entry as deleted always works out, and changes nothing but the status.
pub proof fn law_deleted_copies_differ_in_status_only(
    entry: ManifestEntry,
    replaced: Result<ManifestEntry, Error>,
    removed: Result<ManifestEntry, Error>,
)
    requires
        call_ensures(replace_files::copy_with_deleted_status, (&entry,), replaced),
        call_ensures(row_delta::copy_with_deleted_status, (&entry,), removed),
    ensures
        replaced is Ok,
        replaced->Ok_0.status == ManifestStatus::Deleted,
        replaced->Ok_0.snapshot_id == entry.snapshot_id,
        replaced->Ok_0.sequence_number == entry.sequence_number,
        replaced->Ok_0.file_sequence_number == entry.file_sequence_number,
        replaced->Ok_0.data_file@ == entry.data_file@,
        removed is Ok,
        removed->Ok_0@ == replaced->Ok_0@,
{
}

/// An entry is live unless its status is deleted, it is of a data file by the content of
/// its file, and a manifest has live files if the manifest list knows of added or of
/// existing ones.
pub proof fn law_entries_and_manifests_are_told_apart(
    entry: ManifestEntry,
    manifest: ManifestFile,
    alive: bool,
    data: bool,
    live: bool,
)
    requires
        call_ensures(ManifestEntry::is_alive, (&entry,), alive),
        call_ensures(ManifestEntry::is_data, (&entry,), data),
        call_ensures(ManifestFile::has_live_files, (&manifest,), live),
    ensures
        alive <==> entry.status != ManifestStatus::Deleted,
        data <==> entry.data_file.content == DataContentType::Data,
        live <==> manifest.has_added_files || manifest.has_existing_files,
{
}

/// A path counts as that of one of some files exactly if one of them has it as its file
/// path, whatever else the files refer to.
pub proof fn law_paths_are_file_paths(
    files: Vec<DataFile>,
    path: String,
    found: bool,
    paths: StringHashSet,
)
    requires
        call_ensures(contains_path, (&files, &path), found),
        call_ensures(collect_paths, (&files,), paths),
    ensures
        found <==> exists|i: int| 0 <= i < files@.len() && (#[trigger] files@[i]).file_path@ == path@,
        forall|other: Seq<char>|
            paths@.contains(other) <==> exists|i: int|
                0 <= i < files@.len() && (#[trigger] files@[i]).file_path@ == other,
{
    assert forall|other: Seq<char>|
        crate::removal::has_path(files_view(files@), other) <==> exists|i: int|
            0 <= i < files@.len() && (#[trigger] files@[i]).file_path@ == other by {
        lemma_has_path(files@, other);
    }
    assert(crate::removal::has_path(files_view(files@), path@) == found);
    assert forall|other: Seq<char>|
        paths@.contains(other) <==> exists|i: int|
            0 <= i < files@.len() && (#[trigger] files@[i]).file_path@ == other by {
        assert(paths@.contains(other) == crate::removal::has_path(files_view(files@), other));
    }
}

/// [`crate::removal::has_path`] over the files themselves.
pub(crate) proof fn lemma_has_path(files: Seq<DataFile>, path: Seq<char>)
    ensures
        crate::removal::has_path(files_view(files), path) <==> exists|i: int|
            0 <= i < files.len() && (#[trigger] files[i]).file_path@ == path,
{
    if crate::removal::has_path(files_view(files), path) {
        let i = choose|i: int|
            0 <= i < files_view(files).len() && (#[trigger] files_view(files)[i]).file_path == path;
        assert(files[i].file_path@ == path);
    }
    if exists|i: int| 0 <= i < files.len() && (#[trigger] files[i]).file_path@ == path {
        let i = choose|i: int| 0 <= i < files.len() && (#[trigger] files[i]).file_path@ == path;
        assert(files_view(files)[i].file_path == path);
    }
}

/// A manifest that is written in the place of another one has its content and partition
/// spec, and lists, as existing, the live entries whose path is not among the given ones.
pub proof fn law_rewritten_manifests_list_the_survivors(
    manifest: ManifestFile,
    entries: Vec<ManifestEntry>,
    removed: StringHashSet,
    any: bool,
    draft: ManifestDraft,
)
    requires
        call_ensures(has_survivor, (&entries, &removed), any),
        call_ensures(rewrite_manifest, (&manifest, &entries, &removed), draft),
    ensures
        any <==> exists|i: int|
            0 <= i < entries@.len() && (#[trigger] entries@[i]).status != ManifestStatus::Deleted
                && !removed@.contains(entries@[i].data_file.file_path@),
        draft.content == manifest.content,
        draft.partition_spec_id == manifest.partition_spec_id,
        entries_view(draft.entries@) == entries_view(entries@).filter(
            |entry: ManifestEntryView|
                entry.status != ManifestStatus::Deleted && !removed@.contains(
                    entry.data_file.file_path,
                ),
        ).map_values(
            |entry: ManifestEntryView|
                ManifestEntryView { status: ManifestStatus::Existing, ..entry },
        ),
{
    let all = entries_view(entries@);
    lemma_survivors_said_directly(all, removed@);
    if any {
        let i = choose|i: int| 0 <= i < all.len() && survives(#[trigger] all[i], removed@);
        assert(entries@[i].status != ManifestStatus::Deleted);
    }
    if exists|i: int|
        0 <= i < entries@.len() && (#[trigger] entries@[i]).status != ManifestStatus::Deleted
            && !removed@.contains(entries@[i].data_file.file_path@) {
        let i = choose|i: int|
            0 <= i < entries@.len() && (#[trigger] entries@[i]).status != ManifestStatus::Deleted
                && !removed@.contains(entries@[i].data_file.file_path@);
        assert(survives(all[i], removed@));
    }
    assert(draft@.entries == survivors(all, removed@));
}

/// [`survivors`] by the fields of the entries.
pub(crate) proof fn lemma_survivors_said_directly(
    entries: Seq<ManifestEntryView>,
    removed: Set<Seq<char>>,
)
    ensures
        survivors(entries, removed) == entries.filter(
            |entry: ManifestEntryView|
                entry.status != ManifestStatus::Deleted && !removed.contains(
                    entry.data_file.file_path,
                ),
        ).map_values(
            |entry: ManifestEntryView|
                ManifestEntryView { status: ManifestStatus::Existing, ..entry },
        ),
{
    let direct = |entry: ManifestEntryView|
        entry.status != ManifestStatus::Deleted && !removed.contains(entry.data_file.file_path);
    lemma_filter_agree(entries, |entry: ManifestEntryView| survives(entry, removed), direct);
    assert(survivors(entries, removed) =~= entries.filter(direct).map_values(
        |entry: ManifestEntryView|
            ManifestEntryView { status: ManifestStatus::Existing, ..entry },
    ));
}

/// One entry survives a removal exactly if it is live and its path is not among the
/// removed ones.
pub proof fn law_an_entry_survives_by_status_and_path(
    entry: ManifestEntry,
    removed: StringHashSet,
    result: bool,
)
    requires
        call_ensures(entry_survives, (&entry, &removed), result),
    ensures
        result <==> entry.status != ManifestStatus::Deleted && !removed@.contains(
            entry.data_file.file_path@,
        ),
{
}

} // verus!
