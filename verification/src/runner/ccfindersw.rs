//! The CCFinderSW detector: how a job is run with it, step by step.
//!
//! The library decides what is to be done; the caller does it. The caller
//! starts with the stage `Start` and the event `Begin`, performs the action
//! that `step` gives, and comes back with the stage that `step` gave and with
//! what happened, until `step` gives the action `Finish`.

use vstd::prelude::*;
use vstd::string::StringExecFns;
use crate::clone_pair::ClonePair;
use crate::config::ccfindersw::CCFinderSWConfig;
use crate::error::ArchiveEntryMissingError;
use crate::error::ClonePairsError;
use crate::error::RunJobError;
use crate::error::RunnerProcessFailedError;
use crate::job::Job;
use crate::path::path_file_name;
use crate::path::path_join;
use crate::runner::ccfindersw::parser::correlation;
use crate::runner::ccfindersw::parser::grammar;
use crate::runner::ccfindersw::parser::ResultParser;
use crate::text::decimal_text;
use crate::text::join_with;
use crate::text::texts;

pub mod parser;

verus! {

/// How far a job has come.
#[derive(Clone, Copy, Debug, PartialEq, Eq, Structural)]
pub enum Stage {
    /// Nothing was done yet.
    Start,
    /// The working directory is being made.
    PreparingWorkingDirectory,
    /// The source file of the project is being copied.
    CopyingProjectSource,
    /// The example is being taken out of the archive.
    ExtractingExample,
    /// The detector runs.
    RunningDetector,
    /// The report of the detector is being read.
    ReadingResult,
    /// The job is over.
    Finished,
}

/// What the caller tells of.
#[derive(Clone, Debug, PartialEq, Eq)]
pub enum Event {
    /// The job is taken up.
    Begin,
    /// The action was performed.
    Done,
    /// The action failed in the file system or when the detector was started
    /// or waited for.
    Failed,
    /// The archive was opened, but it holds no entry of the name asked for.
    EntryMissing,
    /// The detector ended with this exit code.
    Exited(i32),
    /// The report of the detector was read and holds this text.
    ResultRead(String),
}

/// What the caller is to do next.
#[derive(Debug, PartialEq, Eq)]
pub enum Action {
    /// Make a fresh working directory of its own for the job, and the
    /// directory `src` in it.
    PrepareWorkingDirectory,
    /// Copy the file at `from`, once the file system has resolved that path,
    /// into the directory `src` under the name `name`.
    CopyProjectSource { from: String, name: String },
    /// Open the archive at `archive`, once the file system has resolved that
    /// path, and write what its entry `entry` holds into the directory `src`
    /// under the name `name`.
    ExtractExample { archive: String, entry: String, name: String },
    /// Run `executable` with `arguments` in the working directory and wait
    /// for it to end.
    RunDetector { executable: String, arguments: Vec<String> },
    /// Read the file `file` of the working directory as text.
    ReadResult { file: String },
    /// Drop the working directory; the job is over with this outcome.
    Finish(Result<Vec<ClonePair>, RunJobError>),
}

/// Runs jobs with the CCFinderSW detector.
#[derive(Clone, Debug, PartialEq, Eq)]
pub struct CCFinderSWRunner {
    pub project_path: String,
    pub database_path: String,
    pub config: CCFinderSWConfig,
}

/// The arguments that the detector is run with: it works on the directory
/// `src`, on the language and with the token length of the configuration,
/// writes to `result`, with a window of 2, for the extensions of the
/// configuration, and finds the character set by itself.
pub open spec fn arguments_of(config: CCFinderSWConfig) -> Seq<Seq<char>> {
    seq![
        "D"@,
        "-d"@,
        "src"@,
        "-l"@,
        "cpp"@,
        "-o"@,
        "result"@,
        "-t"@,
        decimal_text(config.token_length as nat),
        "-w"@,
        "2"@,
        "-antlr"@,
        join_with(texts(config.extensions@), "|"@),
        "-charset"@,
        "auto"@,
    ]
}

/// Whether `outcome` is what the text of a report gives for a job whose
/// project file and example are told by `project_name` and `example_name`: the
/// reason why the text cannot be read, or else what the report gives for the
/// two files.
pub open spec fn is_outcome_of_report(
    text: Seq<char>,
    project_name: Seq<char>,
    example_name: Seq<char>,
    outcome: Result<Vec<ClonePair>, RunJobError>,
) -> bool {
    match grammar::report(text) {
        Err(error) => outcome == Err::<Vec<ClonePair>, RunJobError>(RunJobError::Parse(error)),
        Ok((report, _)) => match outcome {
            Ok(pairs) => correlation::is_outcome(
                report,
                project_name,
                example_name,
                Ok::<Seq<ClonePair>, ClonePairsError>(pairs@),
            ),
            Err(RunJobError::ClonePairs(error)) => correlation::is_outcome(
                report,
                project_name,
                example_name,
                Err::<Seq<ClonePair>, ClonePairsError>(error),
            ),
            Err(_) => false,
        },
    }
}

impl CCFinderSWRunner {
    pub fn create(config: CCFinderSWConfig, project_path: &str, database_path: &str) -> (runner:
        Self)
        ensures
            runner.project_path@ == project_path@,
            runner.database_path@ == database_path@,
            runner.config == config,
    {
        CCFinderSWRunner {
            project_path: String::from_str(project_path),
            database_path: String::from_str(database_path),
            config,
        }
    }

    /// The arguments that the detector is run with.
    pub fn detector_arguments(&self) -> (arguments: Vec<String>)
        ensures
            texts(arguments@) == arguments_of(self.config),
    {
        let mut arguments: Vec<String> = Vec::new();
        arguments.push(String::from_str("D"));
        arguments.push(String::from_str("-d"));
        arguments.push(String::from_str("src"));
        arguments.push(String::from_str("-l"));
        arguments.push(self.config.language_to_option_value());
        arguments.push(String::from_str("-o"));
        arguments.push(String::from_str("result"));
        arguments.push(String::from_str("-t"));
        arguments.push(self.config.token_length_to_option_value());
        arguments.push(String::from_str("-w"));
        arguments.push(String::from_str("2"));
        arguments.push(String::from_str("-antlr"));
        arguments.push(self.config.extensions_to_option_value());
        arguments.push(String::from_str("-charset"));
        arguments.push(String::from_str("auto"));
        assert(texts(arguments@) =~= arguments_of(self.config));
        arguments
    }

    /// Whether `next` is the stage and the action that follow when `event`
    /// happens at `stage` of `job`.
    ///
    /// A step that failed ends the job as a failure of input and output,
    /// whatever the stage. A job whose project file or example has no name
    /// never starts. The stages follow one another in one order: working
    /// directory, project source, example, detector, report. A detector that
    /// ends with another exit code than zero ends the job with that code. The
    /// text of the report decides the outcome at the end. Anything else that
    /// the caller tells of ends the job as told out of turn.
    pub open spec fn follows(self, job: Job, stage: Stage, event: Event, next: (Stage, Action))
        -> bool {
        let project_name = path_file_name(job.project.location@);
        let example_name = path_file_name(job.example_sketch.location@);
        let failed = |error: RunJobError|
            next.0 == Stage::Finished && next.1 == Action::Finish(
                Err::<Vec<ClonePair>, RunJobError>(error),
            );
        if stage == Stage::Finished {
            failed(RunJobError::OutOfTurn)
        } else if event == Event::Failed {
            failed(RunJobError::Io)
        } else if project_name is None {
            next.0 == Stage::Finished && (next.1 matches Action::Finish(
                Err(RunJobError::InvalidPath(error)),
            ) && error.path@ == job.project.location@)
        } else if example_name is None {
            next.0 == Stage::Finished && (next.1 matches Action::Finish(
                Err(RunJobError::InvalidPath(error)),
            ) && error.path@ == job.example_sketch.location@)
        } else {
            match (stage, event) {
                (Stage::Start, Event::Begin) => next.0 == Stage::PreparingWorkingDirectory
                    && next.1 == Action::PrepareWorkingDirectory,
                (Stage::PreparingWorkingDirectory, Event::Done) => next.0
                    == Stage::CopyingProjectSource && (next.1 matches Action::CopyProjectSource {
                    from,
                    name,
                } && from@ == path_join(self.project_path@, job.project.location@) && name@
                    == project_name->0),
                (Stage::CopyingProjectSource, Event::Done) => next.0 == Stage::ExtractingExample
                    && (next.1 matches Action::ExtractExample { archive, entry, name } && archive@
                    == path_join(
                    path_join(self.database_path@, "libraries"@),
                    job.library_info.location@,
                ) && entry@ == path_join(
                    path_join(job.library_info.archive_root@, "examples"@),
                    job.example_sketch.location@,
                ) && name@ == example_name->0),
                (Stage::ExtractingExample, Event::Done) => next.0 == Stage::RunningDetector && (
                next.1 matches Action::RunDetector { executable, arguments } && executable@
                    == self.config.executable_path@ && texts(arguments@) == arguments_of(
                    self.config,
                )),
                (Stage::ExtractingExample, Event::EntryMissing) => next.0 == Stage::Finished && (
                next.1 matches Action::Finish(Err(RunJobError::ArchiveEntryMissing(error)))
                    && error.location@ == job.example_sketch.location@),
                (Stage::RunningDetector, Event::Exited(code)) => if code == 0 {
                    next.0 == Stage::ReadingResult && (next.1 matches Action::ReadResult { file }
                        && file@ == "result.txt"@)
                } else {
                    failed(RunJobError::ProcessFailed(RunnerProcessFailedError { status_code: code }))
                },
                (Stage::ReadingResult, Event::ResultRead(text)) => next.0 == Stage::Finished && (
                next.1 matches Action::Finish(outcome) && is_outcome_of_report(
                    text@,
                    project_name->0,
                    example_name->0,
                    outcome,
                )),
                _ => failed(RunJobError::OutOfTurn),
            }
        }
    }

    /// The stage and the action that follow when `event` happens at `stage`
    /// of `job`.
    pub fn step(&self, job: &Job, stage: Stage, event: Event) -> (next: (Stage, Action))
        ensures
            self.follows(*job, stage, event, next),
    {
        if stage == Stage::Finished {
            return (Stage::Finished, Action::Finish(Err(RunJobError::OutOfTurn)));
        }
        if let Event::Failed = event {
            return (Stage::Finished, Action::Finish(Err(RunJobError::Io)));
        }
        let project_name = match job.project.get_file_name() {
            Ok(name) => name,
            Err(error) => {
                return (Stage::Finished, Action::Finish(Err(RunJobError::InvalidPath(error))));
            },
        };
        let example_name = match job.example_sketch.get_file_name() {
            Ok(name) => name,
            Err(error) => {
                return (Stage::Finished, Action::Finish(Err(RunJobError::InvalidPath(error))));
            },
        };
        match (stage, event) {
            (Stage::Start, Event::Begin) => (
                Stage::PreparingWorkingDirectory,
                Action::PrepareWorkingDirectory,
            ),
            (Stage::PreparingWorkingDirectory, Event::Done) => (
                Stage::CopyingProjectSource,
                Action::CopyProjectSource {
                    from: job.project.get_non_canonical_path_from(self.project_path.as_str()),
                    name: project_name,
                },
            ),
            (Stage::CopyingProjectSource, Event::Done) => {
                let examples = job.library_info.get_examples_root();
                (
                    Stage::ExtractingExample,
                    Action::ExtractExample {
                        archive: job.library_info.get_non_canonical_location(
                            self.database_path.as_str(),
                        ),
                        entry: job.example_sketch.get_non_canonical_path_from(examples.as_str()),
                        name: example_name,
                    },
                )
            },
            (Stage::ExtractingExample, Event::Done) => (
                Stage::RunningDetector,
                Action::RunDetector {
                    executable: self.config.get_executable_path_as_string(),
                    arguments: self.detector_arguments(),
                },
            ),
            (Stage::ExtractingExample, Event::EntryMissing) => (
                Stage::Finished,
                Action::Finish(
                    Err(
                        RunJobError::ArchiveEntryMissing(
                            ArchiveEntryMissingError::new(job.example_sketch.location.as_str()),
                        ),
                    ),
                ),
            ),
            (Stage::RunningDetector, Event::Exited(code)) => {
                if code == 0 {
                    (
                        Stage::ReadingResult,
                        Action::ReadResult { file: String::from_str("result.txt") },
                    )
                } else {
                    (
                        Stage::Finished,
                        Action::Finish(
                            Err(RunJobError::ProcessFailed(RunnerProcessFailedError::new(code))),
                        ),
                    )
                }
            },
            (Stage::ReadingResult, Event::ResultRead(text)) => (
                Stage::Finished,
                Action::Finish(
                    interpret(text.as_str(), project_name.as_str(), example_name.as_str()),
                ),
            ),
            _ => (Stage::Finished, Action::Finish(Err(RunJobError::OutOfTurn))),
        }
    }
}

/// What the text of a report gives for the project file and the example of the
/// given names.
pub fn interpret(text: &str, project_name: &str, example_name: &str) -> (outcome: Result<
    Vec<ClonePair>,
    RunJobError,
>)
    ensures
        is_outcome_of_report(text@, project_name@, example_name@, outcome),
{
    let parser = ResultParser::new();
    match parser.parse_result(text) {
        Err(error) => Err(RunJobError::Parse(error)),
        Ok((_, result)) => match result.get_clone_pairs(project_name, example_name) {
            Ok(pairs) => Ok(pairs),
            Err(error) => Err(RunJobError::ClonePairs(error)),
        },
    }
}

} // verus!
