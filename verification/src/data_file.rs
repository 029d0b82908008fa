//! Files of a table: data files and delete files.
use vstd::prelude::*;

verus! {

/// What a file holds.
#[derive(Debug, Clone, Copy, PartialEq, Eq, Structural)]
pub enum DataContentType {
    /// Rows of the table.
    Data,
    /// Positions of deleted rows.
    PositionDeletes,
    /// Column values that identify deleted rows.
    EqualityDeletes,
}

/// The format a file is stored in.
#[derive(Debug, Clone, Copy, PartialEq, Eq, Structural)]
pub enum DataFileFormat {
    Avro,
    Orc,
    Parquet,
    /// The container of deletion vectors.
    Puffin,
}

/// The version of the table format.
#[derive(Debug, Clone, Copy, PartialEq, Eq, Structural)]
pub enum FormatVersion {
    V1,
    V2,
    V3,
}

/// A file that a snapshot refers to.
#[derive(Debug, PartialEq, Eq)]
pub struct DataFile {
    pub content: DataContentType,
    pub file_path: String,
    pub file_format: DataFileFormat,
    /// The partition values, one per partition field, each in Iceberg's binary
    /// single-value form.
    pub partition: Vec<Option<Vec<u8>>>,
    pub partition_spec_id: i32,
    pub record_count: u64,
    pub file_size_in_bytes: u64,
    /// The ids of the fields that identify a row in an equality delete file.
    pub equality_ids: Option<Vec<i32>>,
    /// The data file whose rows a deletion vector deletes.
    pub referenced_data_file: Option<String>,
    /// Where a deletion vector starts in its file.
    pub content_offset: Option<i64>,
    /// How long a deletion vector is in its file.
    pub content_size_in_bytes: Option<i64>,
}

/// The model of a [`DataFile`].
#[verifier::ext_equal]
pub struct DataFileView {
    pub content: DataContentType,
    pub file_path: Seq<char>,
    pub file_format: DataFileFormat,
    pub partition: Seq<Option<Seq<u8>>>,
    pub partition_spec_id: i32,
    pub record_count: u64,
    pub file_size_in_bytes: u64,
    pub equality_ids: Option<Seq<i32>>,
    pub referenced_data_file: Option<Seq<char>>,
    pub content_offset: Option<i64>,
    pub content_size_in_bytes: Option<i64>,
}

/// The model of an optional vector.
pub open spec fn optional_seq<T>(values: Option<Vec<T>>) -> Option<Seq<T>> {
    match values {
        Some(values) => Some(values@),
        None => None,
    }
}

/// The model of an optional string.
pub open spec fn optional_text(text: Option<String>) -> Option<Seq<char>> {
    match text {
        Some(text) => Some(text@),
        None => None,
    }
}

impl View for DataFile {
    type V = DataFileView;

    open spec fn view(&self) -> DataFileView {
        DataFileView {
            content: self.content,
            file_path: self.file_path@,
            file_format: self.file_format,
            partition: self.partition@.map_values(|value: Option<Vec<u8>>| optional_seq(value)),
            partition_spec_id: self.partition_spec_id,
            record_count: self.record_count,
            file_size_in_bytes: self.file_size_in_bytes,
            equality_ids: optional_seq(self.equality_ids),
            referenced_data_file: optional_text(self.referenced_data_file),
            content_offset: self.content_offset,
            content_size_in_bytes: self.content_size_in_bytes,
        }
    }
}

/// The models of a sequence of files.
pub open spec fn files_view(files: Seq<DataFile>) -> Seq<DataFileView> {
    files.map_values(|file: DataFile| file@)
}

impl Clone for DataFile {
    fn clone(&self) -> (result: Self)
        ensures
            result@ == self@,
    {
        let result = Self {
            content: self.content,
            file_path: self.file_path.clone(),
            file_format: self.file_format,
            partition: self.partition.clone(),
            partition_spec_id: self.partition_spec_id,
            record_count: self.record_count,
            file_size_in_bytes: self.file_size_in_bytes,
            equality_ids: clone_optional_ids(&self.equality_ids),
            referenced_data_file: self.referenced_data_file.clone(),
            content_offset: self.content_offset,
            content_size_in_bytes: self.content_size_in_bytes,
        };
        assert(result@.partition =~= self@.partition);
        result
    }
}

fn clone_optional_ids(ids: &Option<Vec<i32>>) -> (result: Option<Vec<i32>>)
    ensures
        optional_seq(result) == optional_seq(*ids),
{
    match ids {
        Some(ids) => {
            let copy = ids.clone();
            assert(copy@ =~= ids@);
            Some(copy)
        },
        None => None,
    }
}

} // verus!
