//! Loading one text column of a Parquet file.
use vstd::prelude::*;
use crate::supported_languages::strings_view;
use crate::text::{chars_of, chars_eq};

verus! {

/// Loads the values of one string column of a Parquet file, in batches.
pub struct Parquet {
    path: String,
    column_name: String,
    batch_size: usize,
}

/// Builder for [`Parquet`].
pub struct ParquetBuilder {
    pub path: Option<String>,
    pub column_name: Option<String>,
    pub batch_size: Option<usize>,
}

/// Why a [`Parquet`] loader could not be built.
#[derive(Debug, PartialEq, Eq, Structural, Clone, Copy)]
pub enum ParquetBuildError {
    /// No path was set.
    MissingPath,
    /// No column was set.
    MissingColumnName,
}

impl ParquetBuilder {
    /// Sets the path of the file.
    pub fn path(self, path: &str) -> (r: ParquetBuilder)
        ensures
            r.path matches Some(p) && p@ == path@,
            r.column_name == self.column_name,
            r.batch_size == self.batch_size,
    {
        ParquetBuilder { path: Some(path.to_owned()), column_name: self.column_name, batch_size: self.batch_size }
    }

    /// Sets the column to load.
    pub fn column_name(self, column_name: &str) -> (r: ParquetBuilder)
        ensures
            r.column_name matches Some(c) && c@ == column_name@,
            r.path == self.path,
            r.batch_size == self.batch_size,
    {
        ParquetBuilder { path: self.path, column_name: Some(column_name.to_owned()), batch_size: self.batch_size }
    }

    /// Sets how many rows are read at a time.
    pub fn batch_size(self, batch_size: usize) -> (r: ParquetBuilder)
        ensures
            r.batch_size == Some(batch_size),
            r.path == self.path,
            r.column_name == self.column_name,
    {
        ParquetBuilder { path: self.path, column_name: self.column_name, batch_size: Some(batch_size) }
    }

    /// Builds the loader: the path and the column are required, the batch size defaults to 1024.
    pub fn build(self) -> (r: Result<Parquet, ParquetBuildError>)
        ensures
            match (self.path, self.column_name) {
                (Some(p), Some(c)) => r matches Ok(l) && l.spec_path() == p@ && l.spec_column_name()
                    == c@ && l.spec_batch_size() == match self.batch_size {
                    Some(b) => b,
                    None => 1024,
                },
                (None, _) => r == Err::<Parquet, ParquetBuildError>(ParquetBuildError::MissingPath),
                (Some(_), None) => r == Err::<Parquet, ParquetBuildError>(
                    ParquetBuildError::MissingColumnName,
                ),
            },
    {
        match self.path {
            None => Err(ParquetBuildError::MissingPath),
            Some(path) => match self.column_name {
                None => Err(ParquetBuildError::MissingColumnName),
                Some(column_name) => {
                    let batch_size = match self.batch_size {
                        Some(b) => b,
                        None => 1024,
                    };
                    Ok(Parquet { path, column_name, batch_size })
                },
            },
        }
    }
}

impl Parquet {
    /// The path of the file.
    pub closed spec fn spec_path(&self) -> Seq<char> {
        self.path@
    }

    /// The column loaded.
    pub closed spec fn spec_column_name(&self) -> Seq<char> {
        self.column_name@
    }

    /// How many rows are read at a time.
    pub closed spec fn spec_batch_size(&self) -> usize {
        self.batch_size
    }

    /// A builder with nothing set.
    pub fn builder() -> (r: ParquetBuilder)
        ensures
            r.path is None,
            r.column_name is None,
            r.batch_size is None,
    {
        ParquetBuilder { path: None, column_name: None, batch_size: None }
    }

    /// The path of the file, as text (`std::path::Path::new` turns it into a path).
    pub fn path(&self) -> (r: &str)
        ensures
            r@ == self.spec_path(),
    {
        self.path.as_str()
    }

    /// The column loaded.
    pub fn column_name(&self) -> (r: &str)
        ensures
            r@ == self.spec_column_name(),
    {
        self.column_name.as_str()
    }

    /// How many rows are read at a time.
    pub fn batch_size(&self) -> (r: usize)
        ensures
            r == self.spec_batch_size(),
    {
        self.batch_size
    }

    /// The position of the loaded column among the file's columns: the first column with its
    /// name, if any.
    pub fn column_index(&self, columns: &Vec<String>) -> (r: Option<usize>)
        ensures
            match r {
                Some(i) => i < columns@.len() && columns@[i as int]@ == self.spec_column_name()
                    && forall|j: int| 0 <= j < i ==> (#[trigger] columns@[j])@ != self.spec_column_name(),
                None => !strings_view(columns@).contains(self.spec_column_name()),
            },
    {
        let target = chars_of(self.column_name.as_str());
        let mut i: usize = 0;
        while i < columns.len()
            invariant
                i <= columns@.len(),
                target@ == self.spec_column_name(),
                forall|j: int| 0 <= j < i ==> (#[trigger] columns@[j])@ != self.spec_column_name(),
            decreases columns@.len() - i,
        {
            let c = chars_of(columns[i].as_str());
            if chars_eq(c.as_slice(), target.as_slice()) {
                return Some(i);
            }
            i = i + 1;
        }
        proof {
            assert forall|k: int| 0 <= k < columns@.len() implies strings_view(columns@)[k] != self.spec_column_name() by {
                assert(columns@[k]@ != self.spec_column_name());
            }
        }
        None
    }
}

} // verus!
