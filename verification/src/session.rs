//! A session: a project and the jobs that were made for it.

use vstd::prelude::*;
use crate::path;
use crate::path::path_join;

verus! {

/// Where the project and the jobs of a session lie, relative to the directory
/// of the session.
#[derive(Clone, Debug, PartialEq, Eq)]
pub struct Session {
    pub project_path: String,
    pub jobs_path: String,
}

impl Session {
    pub fn new(project_path: String, jobs_path: String) -> (session: Self)
        ensures
            session.project_path == project_path,
            session.jobs_path == jobs_path,
    {
        Session { project_path, jobs_path }
    }

    /// The directory of the project under the session at `session_path`. The
    /// path is not looked up in the file system.
    pub fn get_non_canonical_project_path(&self, session_path: &str) -> (joined: String)
        ensures
            joined@ == path_join(session_path@, self.project_path@),
    {
        path::join(session_path, self.project_path.as_str())
    }

    /// The directory of the jobs under the session at `session_path`. The path
    /// is not looked up in the file system.
    pub fn get_non_canonical_jobs_path(&self, session_path: &str) -> (joined: String)
        ensures
            joined@ == path_join(session_path@, self.jobs_path@),
    {
        path::join(session_path, self.jobs_path.as_str())
    }
}

} // verus!
