//! The failures that the library reports.

use vstd::prelude::*;
use vstd::string::StringExecFns;
use crate::text::signed_decimal_string;
use crate::text::signed_decimal_text;

verus! {

/// The settings name no clone detector that can be used.
#[derive(Clone, Copy, Debug, PartialEq, Eq, Structural)]
pub struct NoValidConfigurationError;

impl NoValidConfigurationError {
    pub fn message(&self) -> (text: String)
        ensures
            text@ == "No valid configuration found."@,
    {
        String::from_str("No valid configuration found.")
    }
}

/// A path that has no last component to name a file by.
#[derive(Clone, Debug, PartialEq, Eq)]
pub struct InvalidPathError {
    pub path: String,
}

impl InvalidPathError {
    pub fn new(path: &str) -> (error: Self)
        ensures
            error.path@ == path@,
    {
        InvalidPathError { path: String::from_str(path) }
    }

    pub fn message(&self) -> (text: String)
        ensures
            text@ == "Invalid path was specified: "@ + self.path@ + "."@,
    {
        String::from_str("Invalid path was specified: ").concat(self.path.as_str()).concat(".")
    }
}

/// Settings from which no configuration of a detector can be made.
#[derive(Clone, Debug, PartialEq, Eq)]
pub struct InvalidConfigurationError {
    pub description: String,
}

impl InvalidConfigurationError {
    pub fn new(desc: &str) -> (error: Self)
        ensures
            error.description@ == desc@,
    {
        InvalidConfigurationError { description: String::from_str(desc) }
    }

    pub fn message(&self) -> (text: String)
        ensures
            text@ == self.description@,
    {
        self.description.clone()
    }
}

/// The detector ended with an exit code other than zero.
#[derive(Clone, Copy, Debug, PartialEq, Eq, Structural)]
pub struct RunnerProcessFailedError {
    pub status_code: i32,
}

impl RunnerProcessFailedError {
    pub fn new(status_code: i32) -> (error: Self)
        ensures
            error.status_code == status_code,
    {
        RunnerProcessFailedError { status_code }
    }

    pub fn message(&self) -> (text: String)
        ensures
            text@ == "Process exited abnormally with code: "@ + signed_decimal_text(
                self.status_code as int,
            ),
    {
        String::from_str("Process exited abnormally with code: ").concat(
            signed_decimal_string(self.status_code).as_str(),
        )
    }
}

/// What is wrong with a report whose text follows the grammar.
#[derive(Clone, Copy, Debug, PartialEq, Eq, Structural)]
pub enum InvalidResultKind {
    /// A second `file description` block.
    DuplicatedFileDescriptionBlocks,
    /// A second `clone` block.
    DuplicatedCloneBlocks,
    /// The `file description` block or the `clone` block is not there.
    MissingMandatoryBlocks,
    /// A clone set names the project file twice.
    DuplicatedProjectCodePart,
    /// A clone set names the example file twice.
    DuplicatedExampleCodePart,
}

/// A report that cannot be a result of the detector.
#[derive(Clone, Copy, Debug, PartialEq, Eq, Structural)]
pub struct InvalidCCFinderSWResult {
    pub kind: InvalidResultKind,
}

impl InvalidCCFinderSWResult {
    pub fn new(kind: InvalidResultKind) -> (error: Self)
        ensures
            error.kind == kind,
    {
        InvalidCCFinderSWResult { kind }
    }

    pub fn message(&self) -> (text: String)
        ensures
            text@ == "The result is in invalid format."@,
    {
        String::from_str("The result is in invalid format.")
    }

    /// What is wrong, in words.
    pub fn description(&self) -> (text: String)
        ensures
            text@ == match self.kind {
                InvalidResultKind::DuplicatedFileDescriptionBlocks => "Duplicated file description blocks."@,
                InvalidResultKind::DuplicatedCloneBlocks => "Duplicated clone blocks."@,
                InvalidResultKind::MissingMandatoryBlocks => "Missing mandatory result blocks."@,
                InvalidResultKind::DuplicatedProjectCodePart => "Duplicated project code part entries."@,
                InvalidResultKind::DuplicatedExampleCodePart => "Duplicated example code part entries."@,
            },
    {
        match self.kind {
            InvalidResultKind::DuplicatedFileDescriptionBlocks => String::from_str(
                "Duplicated file description blocks.",
            ),
            InvalidResultKind::DuplicatedCloneBlocks => String::from_str(
                "Duplicated clone blocks.",
            ),
            InvalidResultKind::MissingMandatoryBlocks => String::from_str(
                "Missing mandatory result blocks.",
            ),
            InvalidResultKind::DuplicatedProjectCodePart => String::from_str(
                "Duplicated project code part entries.",
            ),
            InvalidResultKind::DuplicatedExampleCodePart => String::from_str(
                "Duplicated example code part entries.",
            ),
        }
    }
}

/// Why a text could not be read as a report or as a part of one.
#[derive(Clone, Copy, Debug, PartialEq, Eq, Structural)]
pub enum ParseError {
    /// The text does not follow the grammar; a number too large for 32 bits
    /// counts as such.
    Malformed,
    /// The text follows the grammar, but its blocks make no result.
    Invalid(InvalidCCFinderSWResult),
}

impl ParseError {
    pub fn message(&self) -> (text: String)
        ensures
            text@ == match *self {
                ParseError::Malformed => "The result does not follow the grammar of a report."@,
                ParseError::Invalid(_) => "The result is in invalid format."@,
            },
    {
        match self {
            ParseError::Malformed => String::from_str(
                "The result does not follow the grammar of a report.",
            ),
            ParseError::Invalid(error) => error.message(),
        }
    }
}

/// One of the two files that clone pairs are looked for between.
#[derive(Clone, Copy, Debug, PartialEq, Eq, Structural)]
pub enum TrackedFile {
    /// The source file of the project.
    Project,
    /// The example file from the library archive.
    Example,
}

/// No path of the report's file description ends in the name of a tracked
/// file.
#[derive(Clone, Copy, Debug, PartialEq, Eq, Structural)]
pub struct FileNotFoundFromResultError {
    /// The file that was looked for.
    pub file: TrackedFile,
}

impl FileNotFoundFromResultError {
    pub fn message(&self) -> (text: String)
        ensures
            text@ == "The file is not found from the result."@,
    {
        String::from_str("The file is not found from the result.")
    }
}

/// Why a report gives no clone pairs for two files.
#[derive(Clone, Copy, Debug, PartialEq, Eq, Structural)]
pub enum ClonePairsError {
    FileNotFound(FileNotFoundFromResultError),
    InvalidResult(InvalidCCFinderSWResult),
}

impl ClonePairsError {
    pub fn message(&self) -> (text: String)
        ensures
            text@ == match *self {
                ClonePairsError::FileNotFound(_) => "The file is not found from the result."@,
                ClonePairsError::InvalidResult(_) => "The result is in invalid format."@,
            },
    {
        match self {
            ClonePairsError::FileNotFound(error) => error.message(),
            ClonePairsError::InvalidResult(error) => error.message(),
        }
    }
}

/// The archive of the library holds no entry for the example.
#[derive(Clone, Debug, PartialEq, Eq)]
pub struct ArchiveEntryMissingError {
    /// The location of the example, as the job gives it.
    pub location: String,
}

impl ArchiveEntryMissingError {
    pub fn new(location: &str) -> (error: Self)
        ensures
            error.location@ == location@,
    {
        ArchiveEntryMissingError { location: String::from_str(location) }
    }

    pub fn message(&self) -> (text: String)
        ensures
            text@ == "Could not open an example sketch source: "@ + self.location@,
    {
        String::from_str("Could not open an example sketch source: ").concat(
            self.location.as_str(),
        )
    }
}

/// Why a job gave no clone pairs.
#[derive(Clone, Debug, PartialEq, Eq)]
pub enum RunJobError {
    /// The location of the project file or of the example names no file.
    InvalidPath(InvalidPathError),
    /// A step in the file system or with the detector failed. The caller, who
    /// took the step, holds the cause.
    Io,
    /// The archive holds no entry for the example.
    ArchiveEntryMissing(ArchiveEntryMissingError),
    /// The detector ended with an exit code other than zero.
    ProcessFailed(RunnerProcessFailedError),
    /// The report of the detector could not be read.
    Parse(ParseError),
    /// The report holds no clone pairs for the two files.
    ClonePairs(ClonePairsError),
    /// The caller told of something that cannot happen at this stage.
    OutOfTurn,
}

impl RunJobError {
    /// What went wrong, in words.
    pub open spec fn message_text(self) -> Seq<char> {
        match self {
            RunJobError::InvalidPath(error) => "Invalid path was specified: "@ + error.path@
                + "."@,
            RunJobError::Io => "Input or output failed."@,
            RunJobError::ArchiveEntryMissing(error) => "Could not open an example sketch source: "@
                + error.location@,
            RunJobError::ProcessFailed(error) => "Process exited abnormally with code: "@
                + signed_decimal_text(error.status_code as int),
            RunJobError::Parse(ParseError::Malformed) => "The result does not follow the grammar of a report."@,
            RunJobError::Parse(ParseError::Invalid(_)) => "The result is in invalid format."@,
            RunJobError::ClonePairs(ClonePairsError::FileNotFound(_)) => "The file is not found from the result."@,
            RunJobError::ClonePairs(ClonePairsError::InvalidResult(_)) => "The result is in invalid format."@,
            RunJobError::OutOfTurn => "The steps of the job came out of turn."@,
        }
    }

    pub fn message(&self) -> (text: String)
        ensures
            text@ == self.message_text(),
    {
        match self {
            RunJobError::InvalidPath(error) => error.message(),
            RunJobError::Io => String::from_str("Input or output failed."),
            RunJobError::ArchiveEntryMissing(error) => error.message(),
            RunJobError::ProcessFailed(error) => error.message(),
            RunJobError::Parse(error) => error.message(),
            RunJobError::ClonePairs(error) => error.message(),
            RunJobError::OutOfTurn => String::from_str("The steps of the job came out of turn."),
        }
    }
}

} // verus!
