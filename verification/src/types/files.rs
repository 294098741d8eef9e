//! Where and how collected tables are written.

use crate::types::datatypes::Datatype;
use crate::types::errors::CollectError;
use crate::types::maps::DatatypeMap;
use crate::types::partitions::{Partition, PartitionView};
use crate::types::queries::Query;
use vstd::prelude::*;

verus! {

/// `polars::prelude::ParquetCompression`: how a parquet file is compressed.
/// The value is carried to the writer; nothing is said of what it holds.
#[verifier::external_type_specification]
#[verifier::external_body]
pub struct ExParquetCompression(polars::prelude::ParquetCompression);

/// Options for file output.
#[derive(Debug)]
pub struct FileOutput {
    /// Path of directory where to save files. It is kept as text and put
    /// before the file name with `/` between them, whatever it holds: an
    /// empty directory gives a path that starts with `/`, and a directory
    /// that ends in `/` gives a path with `//` in it.
    pub output_dir: String,
    /// Prefix of file name
    pub prefix: String,
    /// Suffix to use at the end of file names
    pub suffix: Option<String>,
    /// Whether to overwrite existing files or skip them
    pub overwrite: bool,
    /// File format to used for output files
    pub format: FileFormat,
    /// Number of rows per parquet row group
    pub row_group_size: Option<usize>,
    /// Parquet statistics recording flag
    pub parquet_statistics: bool,
    /// Parquet compression options
    pub parquet_compression: polars::prelude::ParquetCompression,
}

impl Clone for FileOutput {
    fn clone(&self) -> (copy: Self)
        ensures
            copy.output_dir@ == self.output_dir@,
            copy.prefix@ == self.prefix@,
            copy.suffix.deep_view() == self.suffix.deep_view(),
            copy.overwrite == self.overwrite,
            copy.format == self.format,
            copy.row_group_size == self.row_group_size,
            copy.parquet_statistics == self.parquet_statistics,
            copy.parquet_compression == self.parquet_compression,
    {
        FileOutput {
            output_dir: self.output_dir.clone(),
            prefix: self.prefix.clone(),
            suffix: match &self.suffix {
                Some(suffix) => Some(suffix.clone()),
                None => None,
            },
            overwrite: self.overwrite,
            format: self.format,
            row_group_size: self.row_group_size,
            parquet_statistics: self.parquet_statistics,
            parquet_compression: self.parquet_compression,
        }
    }
}

impl FileOutput {
    /// The path of the file for a dataset type and a partition label:
    /// `{output_dir}/{prefix}__{datatype}__{label}.{extension}`. The parts
    /// are put together as text. Nothing is treated specially: not an empty
    /// `output_dir`, not one that ends in `/`, not a prefix that starts with
    /// `/`. This is not how a platform joins path components.
    pub open spec fn file_path(&self, datatype: Datatype, label: Seq<char>) -> Seq<char> {
        self.output_dir@ + seq!['/'] + self.prefix@ + seq!['_', '_'] + datatype.spec_name() + seq![
            '_',
            '_',
        ] + label + seq!['.'] + self.format.extension()
    }

    /// The path for `datatype` and `partition`, or the reason why none can be
    /// derived: the query cannot resolve the dataset type to table metadata,
    /// or else the partition has no label along the dimensions that the
    /// query was partitioned by.
    pub open spec fn derive_path(
        &self,
        query: &Query,
        partition: PartitionView,
        datatype: Datatype,
    ) -> Result<Seq<char>, CollectError> {
        if !query.schemas@.contains_key(datatype) {
            Err(CollectError::UnknownDatatype(datatype))
        } else {
            match partition.label_result(query.partitioned_by@) {
                Ok(label) => Ok(self.file_path(datatype, label)),
                Err(e) => Err(e),
            }
        }
    }

    /// Whether a path can be derived for each of the first `n` dataset types
    /// of `datatypes`.
    pub open spec fn derivable(
        &self,
        query: &Query,
        partition: PartitionView,
        datatypes: Seq<Datatype>,
        n: int,
    ) -> bool {
        forall|i: int|
            0 <= i < n ==> self.derive_path(query, partition, #[trigger] datatypes[i]) is Ok
    }

    /// get output file paths: one for each concrete dataset type behind the
    /// dataset types that the query asks for. A dataset type that is reached
    /// twice gets the same path both times. Fails as `get_path` fails for the
    /// first dataset type, in the order of the query, that has no path.
    pub fn get_paths(&self, query: &Query, partition: &Partition) -> (r: Result<
        DatatypeMap<String>,
        CollectError,
    >)
        ensures
            match r {
                Ok(paths) => {
                    let datatypes = query.spec_concrete_datatypes();
                    &&& self.derivable(query, partition@, datatypes, datatypes.len() as int)
                    &&& forall|datatype: Datatype|
                        paths@.contains_key(datatype) <==> datatypes.contains(datatype)
                    &&& forall|datatype: Datatype| #[trigger]
                        paths@.contains_key(datatype) ==> Ok::<_, CollectError>(paths@[datatype]@)
                            == self.derive_path(query, partition@, datatype)
                },
                Err(e) => {
                    let datatypes = query.spec_concrete_datatypes();
                    exists|k: int|
                        0 <= k < datatypes.len() && self.derivable(query, partition@, datatypes, k)
                            && self.derive_path(query, partition@, #[trigger] datatypes[k])
                            == Err::<Seq<char>, _>(e)
                },
            },
    {
        let datatypes = query.concrete_datatypes();
        let mut paths: DatatypeMap<String> = DatatypeMap::new();
        let mut i: usize = 0;
        while i < datatypes.len()
            invariant
                i <= datatypes.len(),
                datatypes@ == query.spec_concrete_datatypes(),
                self.derivable(query, partition@, datatypes@, i as int),
                forall|datatype: Datatype|
                    paths@.contains_key(datatype) <==> datatypes@.take(i as int).contains(
                        datatype,
                    ),
                forall|datatype: Datatype| #[trigger]
                    paths@.contains_key(datatype) ==> Ok::<_, CollectError>(paths@[datatype]@)
                        == self.derive_path(query, partition@, datatype),
            decreases datatypes.len() - i,
        {
            let datatype = datatypes[i];
            let path = match self.get_path(query, partition, datatype) {
                Ok(path) => path,
                Err(e) => {
                    return Err(e);
                },
            };
            let ghost before = paths@;
            paths.insert(datatype, path);
            proof {
                let sofar = datatypes@.take(i as int);
                let next = datatypes@.take(i + 1);
                assert(next =~= sofar.push(datatype));
                assert forall|d: Datatype| paths@.contains_key(d) <==> next.contains(d) by {
                    if next.contains(d) {
                        let j = choose|j: int| 0 <= j < next.len() && next[j] == d;
                        if j < i {
                            assert(sofar[j] == d);
                            assert(sofar.contains(d));
                        }
                    }
                    if sofar.contains(d) {
                        let j = choose|j: int| 0 <= j < sofar.len() && sofar[j] == d;
                        assert(next[j] == d);
                    }
                    assert(next[i as int] == datatype);
                }
            }
            i += 1;
        }
        proof {
            assert(datatypes@.take(i as int) =~= datatypes@);
        }
        Ok(paths)
    }

    /// get output file path:
    /// `{output_dir}/{prefix}__{datatype}__{label}.{extension}`, where the
    /// label is that of the partition along the dimensions that the query
    /// was partitioned by. The path is text, with `/` after `output_dir`
    /// even where `output_dir` is empty or ends in `/`. Fails if the query
    /// cannot resolve the dataset type to table metadata, or else if the
    /// partition has no such label.
    pub fn get_path(&self, query: &Query, partition: &Partition, datatype: Datatype) -> (r: Result<
        String,
        CollectError,
    >)
        ensures
            match r {
                Ok(path) => self.derive_path(query, partition@, datatype) == Ok::<_, CollectError>(
                    path@,
                ),
                Err(e) => self.derive_path(query, partition@, datatype) == Err::<Seq<char>, _>(e),
            },
    {
        if !query.schemas.contains_key(&datatype) {
            return Err(CollectError::UnknownDatatype(datatype));
        }
        let label = match partition.label(query.partitioned_by.as_slice()) {
            Ok(label) => label,
            Err(e) => {
                return Err(e);
            },
        };
        let mut path = self.output_dir.clone();
        path.append("/");
        path.append(self.prefix.as_str());
        path.append("__");
        path.append(datatype.name());
        path.append("__");
        path.append(label.as_str());
        path.append(".");
        path.append(self.format.as_str());
        proof {
            reveal_strlit("/");
            reveal_strlit("__");
            reveal_strlit(".");
            assert(path@ =~= self.file_path(datatype, label@));
        }
        Ok(path)
    }

    /// Paths do not collide: under one configuration and one query, the
    /// paths of two dataset types differ, and so do the paths of two
    /// partitions that hold different values along a dimension that the
    /// query was partitioned by.
    pub proof fn paths_differ(
        &self,
        query: &Query,
        partition: PartitionView,
        datatype: Datatype,
        other_partition: PartitionView,
        other_datatype: Datatype,
    )
        requires
            self.derive_path(query, partition, datatype) is Ok,
            self.derive_path(query, other_partition, other_datatype) is Ok,
            datatype != other_datatype || exists|i: int|
                0 <= i < query.partitioned_by@.len() && !partition.same_along(
                    other_partition,
                    #[trigger] query.partitioned_by@[i],
                ),
        ensures
            self.derive_path(query, partition, datatype) != self.derive_path(
                query,
                other_partition,
                other_datatype,
            ),
    {
        let dims = query.partitioned_by@;
        let label = partition.label(dims);
        let other_label = other_partition.label(dims);
        let path = self.file_path(datatype, label);
        let other_path = self.file_path(other_datatype, other_label);
        let stem = self.output_dir@ + seq!['/'] + self.prefix@ + seq!['_', '_'];
        let end = seq!['.'] + self.format.extension();
        let name = datatype.spec_name();
        let other_name = other_datatype.spec_name();
        reveal_strlit("blocks");
        reveal_strlit("transactions");
        reveal_strlit("erc721_metadata");
        assert(path =~= stem + name + seq!['_', '_'] + label + end);
        assert(other_path =~= stem + other_name + seq!['_', '_'] + other_label + end);
        if path == other_path {
            assert(path[stem.len() as int] == name[0]);
            assert(other_path[stem.len() as int] == other_name[0]);
            assert(datatype == other_datatype);
            let head = stem + name + seq!['_', '_'];
            assert(path.len() == head.len() + label.len() + end.len());
            assert(other_path.len() == head.len() + other_label.len() + end.len());
            assert forall|i: int| 0 <= i < label.len() implies label[i] == other_label[i] by {
                assert(path[head.len() + i] == label[i]);
                assert(other_path[head.len() + i] == other_label[i]);
            }
            assert(label =~= other_label);
            partition.label_unique(other_partition, dims);
        }
    }

    /// Whether a file is to be written: always if none exists at its path,
    /// and over an existing one only if the configuration says to overwrite.
    pub fn writes(&self, present: bool) -> (write: bool)
        ensures
            write == (!present || self.overwrite),
    {
        !present || self.overwrite
    }

    /// The path of a file depends on nothing but the plain values of the
    /// configuration, the dataset type and the partition: two derivations
    /// from the same values give the same path, or the same failure.
    pub proof fn path_deterministic(
        &self,
        other: &FileOutput,
        query: &Query,
        other_query: &Query,
        partition: PartitionView,
        datatype: Datatype,
    )
        requires
            self.output_dir@ == other.output_dir@,
            self.prefix@ == other.prefix@,
            self.format == other.format,
            query.partitioned_by@ == other_query.partitioned_by@,
            query.schemas@.contains_key(datatype) == other_query.schemas@.contains_key(datatype),
        ensures
            self.derive_path(query, partition, datatype) == other.derive_path(
                other_query,
                partition,
                datatype,
            ),
    {
    }
}

/// File format of an output file.
#[derive(Clone, Copy, Debug, PartialEq, Eq, Structural)]
pub enum FileFormat {
    /// Parquet file format
    Parquet,
    /// Csv file format
    Csv,
    /// Json file format
    Json,
}

impl FileFormat {
    /// The file extension of the format, as a sequence of characters.
    pub open spec fn extension(self) -> Seq<char> {
        match self {
            FileFormat::Parquet => "parquet"@,
            FileFormat::Csv => "csv"@,
            FileFormat::Json => "json"@,
        }
    }

    /// The file extension that names the format.
    pub fn as_str(&self) -> (s: &'static str)
        ensures
            s@ == self.extension(),
    {
        match *self {
            FileFormat::Parquet => "parquet",
            FileFormat::Csv => "csv",
            FileFormat::Json => "json",
        }
    }
}

/// Encoding for binary data in a column.
#[derive(Clone, Copy, Debug, PartialEq, Eq, Structural)]
pub enum ColumnEncoding {
    /// Raw binary encoding
    Binary,
    /// Hex binary encoding
    Hex,
}

impl ColumnEncoding {
    /// The name of the encoding, as a sequence of characters.
    pub open spec fn name(self) -> Seq<char> {
        match self {
            ColumnEncoding::Binary => "binary"@,
            ColumnEncoding::Hex => "hex"@,
        }
    }

    /// The name of the encoding.
    pub fn as_str(&self) -> (s: &'static str)
        ensures
            s@ == self.name(),
    {
        match *self {
            ColumnEncoding::Binary => "binary",
            ColumnEncoding::Hex => "hex",
        }
    }
}

} // verus!
