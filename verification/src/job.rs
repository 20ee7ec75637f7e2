//! A job: one source file of a project and one example of a library that
//! clone pairs are looked for between.

use vstd::prelude::*;
use crate::clone_pair::ClonePair;
use crate::error::InvalidPathError;
use crate::path;
use crate::path::path_file_name;
use crate::path::path_join;

verus! {

/// Where a source file lies, relative to a root that the holder knows.
#[derive(Clone, Debug, PartialEq, Eq)]
pub struct SourceInfo {
    pub location: String,
}

impl SourceInfo {
    pub fn new(location: String) -> (info: Self)
        ensures
            info.location == location,
    {
        SourceInfo { location }
    }

    /// The location under `path`. The path is not looked up in the file
    /// system.
    pub fn get_non_canonical_path_from(&self, path: &str) -> (joined: String)
        ensures
            joined@ == path_join(path@, self.location@),
    {
        path::join(path, self.location.as_str())
    }

    /// The last component of the location, by which the file is told in a
    /// report of the detector.
    pub fn get_file_name(&self) -> (name: Result<String, InvalidPathError>)
        ensures
            match path_file_name(self.location@) {
                Some(last) => name matches Ok(name) && name@ == last,
                None => name matches Err(error) && error.path@ == self.location@,
            },
    {
        match path::file_name(self.location.as_str()) {
            Some(name) => Ok(name),
            None => Err(InvalidPathError::new(self.location.as_str())),
        }
    }

    pub fn duplicate(&self) -> (copy: Self)
        ensures
            copy == *self,
    {
        SourceInfo { location: self.location.clone() }
    }
}

/// The archive of a library in the database.
#[derive(Clone, Debug, PartialEq, Eq)]
pub struct LibraryInfo {
    pub name: String,
    /// The version of the library, as it is written.
    pub version: String,
    /// Where the archive lies under the `libraries` directory of the database.
    pub location: String,
    /// The directory inside the archive that holds the library.
    pub archive_root: String,
}

impl LibraryInfo {
    /// The location of the archive under the database at `database_path`. The
    /// path is not looked up in the file system.
    pub fn get_non_canonical_location(&self, database_path: &str) -> (joined: String)
        ensures
            joined@ == path_join(path_join(database_path@, "libraries"@), self.location@),
    {
        let libraries = path::join(database_path, "libraries");
        path::join(libraries.as_str(), self.location.as_str())
    }

    /// The directory inside the archive that holds the examples of the
    /// library.
    pub fn get_examples_root(&self) -> (joined: String)
        ensures
            joined@ == path_join(self.archive_root@, "examples"@),
    {
        path::join(self.archive_root.as_str(), "examples")
    }

    pub fn duplicate(&self) -> (copy: Self)
        ensures
            copy == *self,
    {
        LibraryInfo {
            name: self.name.clone(),
            version: self.version.clone(),
            location: self.location.clone(),
            archive_root: self.archive_root.clone(),
        }
    }
}

/// One source file of a project, one example of a library, and the archive
/// that holds the example.
#[derive(Clone, Debug, PartialEq, Eq)]
pub struct Job {
    pub project: SourceInfo,
    pub example_sketch: SourceInfo,
    pub library_info: LibraryInfo,
}

impl Job {
    /// The result of this job, which holds no list of pairs where none were
    /// found.
    pub fn create_result(&self, pairs: Vec<ClonePair>) -> (result: JobResult)
        ensures
            result.job == *self,
            pairs@.len() == 0 ==> result.clone_pairs is None,
            pairs@.len() > 0 ==> result.clone_pairs == Some(pairs),
    {
        if pairs.len() == 0 {
            JobResult { job: self.duplicate(), clone_pairs: None }
        } else {
            JobResult { job: self.duplicate(), clone_pairs: Some(pairs) }
        }
    }

    pub fn duplicate(&self) -> (copy: Self)
        ensures
            copy == *self,
    {
        Job {
            project: self.project.duplicate(),
            example_sketch: self.example_sketch.duplicate(),
            library_info: self.library_info.duplicate(),
        }
    }
}

/// A job and the clone pairs that were found for it.
#[derive(Clone, Debug, PartialEq, Eq)]
pub struct JobResult {
    pub job: Job,
    pub clone_pairs: Option<Vec<ClonePair>>,
}

/// The results of the jobs of a session.
#[derive(Clone, Debug, PartialEq, Eq)]
pub struct JobResults {
    pub results: Vec<JobResult>,
}

} // verus!
