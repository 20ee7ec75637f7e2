use hugin::clone_pair::{ClonePair, CodePosition, CodeSlice};
use hugin::config::ccfindersw::{CCFinderSWConfig, Languages};
use hugin::error::{
    ArchiveEntryMissingError, ClonePairsError, FileNotFoundFromResultError,
    InvalidCCFinderSWResult, InvalidPathError, InvalidResultKind, ParseError, RunJobError,
    RunnerProcessFailedError, TrackedFile,
};
use hugin::job::{Job, LibraryInfo, SourceInfo};
use hugin::runner::ccfindersw::{interpret, Action, CCFinderSWRunner, Event, Stage};

const REPORT: &str = "#format: classwise\n#begin{file description}\n0.0 100 444 /tmp/w/src/Blink.ino\n0.1 250 1202 /tmp/w/src/MyProject.ino\n#end{file description}\n#begin{clone}\n#begin{set}\n0.0 20,40,150 30,0,189 81\n0.1 130,40,656 141,4,692 81\n#end{set}\n#end{clone}\n";

fn runner() -> CCFinderSWRunner {
    let config = CCFinderSWConfig {
        executable_path: String::from("/opt/CCFinderSW"),
        token_length: 30,
        language: Languages::CPlusPlus,
        extensions: vec![String::from("pde"), String::from("ino")],
    };
    CCFinderSWRunner::create(config, "/home/user/project", "/srv/munin")
}

fn job() -> Job {
    Job {
        project: SourceInfo::new(String::from("sketch/MyProject.ino")),
        example_sketch: SourceInfo::new(String::from("Blink/Blink.ino")),
        library_info: LibraryInfo {
            name: String::from("Servo"),
            version: String::from("1.1.8"),
            location: String::from("Servo-1.1.8.zip"),
            archive_root: String::from("Servo-1.1.8"),
        },
    }
}

fn failed(error: RunJobError) -> (Stage, Action) {
    (Stage::Finished, Action::Finish(Err(error)))
}

fn pairs() -> Vec<ClonePair> {
    vec![ClonePair::new(
        CodeSlice::new(CodePosition::new(130, 40), CodePosition::new(141, 4)),
        CodeSlice::new(CodePosition::new(20, 40), CodePosition::new(30, 0)),
    )]
}

#[test]
fn runner_keeps_what_it_was_made_with() {
    let made = runner();
    assert_eq!(made.project_path, "/home/user/project");
    assert_eq!(made.database_path, "/srv/munin");
    assert_eq!(made.config.token_length, 30);
}

#[test]
fn detector_is_run_with_the_fixed_arguments() {
    let expected: Vec<String> = [
        "D", "-d", "src", "-l", "cpp", "-o", "result", "-t", "30", "-w", "2", "-antlr",
        "pde|ino", "-charset", "auto",
    ]
    .iter()
    .map(|argument| String::from(*argument))
    .collect();
    assert_eq!(runner().detector_arguments(), expected);
}

#[test]
fn job_begins_with_the_working_directory() {
    assert_eq!(
        runner().step(&job(), Stage::Start, Event::Begin),
        (Stage::PreparingWorkingDirectory, Action::PrepareWorkingDirectory)
    );
}

#[test]
fn project_source_is_copied_into_the_working_directory() {
    assert_eq!(
        runner().step(&job(), Stage::PreparingWorkingDirectory, Event::Done),
        (
            Stage::CopyingProjectSource,
            Action::CopyProjectSource {
                from: String::from("/home/user/project/sketch/MyProject.ino"),
                name: String::from("MyProject.ino"),
            }
        )
    );
}

#[test]
fn example_is_taken_out_of_the_archive() {
    assert_eq!(
        runner().step(&job(), Stage::CopyingProjectSource, Event::Done),
        (
            Stage::ExtractingExample,
            Action::ExtractExample {
                archive: String::from("/srv/munin/libraries/Servo-1.1.8.zip"),
                entry: String::from("Servo-1.1.8/examples/Blink/Blink.ino"),
                name: String::from("Blink.ino"),
            }
        )
    );
}

#[test]
fn detector_runs_when_the_sources_are_in_place() {
    assert_eq!(
        runner().step(&job(), Stage::ExtractingExample, Event::Done),
        (
            Stage::RunningDetector,
            Action::RunDetector {
                executable: String::from("/opt/CCFinderSW"),
                arguments: runner().detector_arguments(),
            }
        )
    );
}

#[test]
fn missing_archive_entry_ends_the_job() {
    assert_eq!(
        runner().step(&job(), Stage::ExtractingExample, Event::EntryMissing),
        failed(RunJobError::ArchiveEntryMissing(ArchiveEntryMissingError::new(
            "Blink/Blink.ino"
        )))
    );
}

#[test]
fn exit_code_two_ends_the_job_with_that_code() {
    assert_eq!(
        runner().step(&job(), Stage::RunningDetector, Event::Exited(2)),
        failed(RunJobError::ProcessFailed(RunnerProcessFailedError::new(2)))
    );
    assert_eq!(
        runner().step(&job(), Stage::RunningDetector, Event::Exited(-1)),
        failed(RunJobError::ProcessFailed(RunnerProcessFailedError::new(-1)))
    );
}

#[test]
fn exit_code_zero_has_the_report_read() {
    assert_eq!(
        runner().step(&job(), Stage::RunningDetector, Event::Exited(0)),
        (Stage::ReadingResult, Action::ReadResult { file: String::from("result.txt") })
    );
}

#[test]
fn unreadable_report_is_a_failure_of_input_and_output() {
    assert_eq!(
        runner().step(&job(), Stage::ReadingResult, Event::Failed),
        failed(RunJobError::Io)
    );
}

#[test]
fn any_failed_step_ends_the_job() {
    for stage in [
        Stage::Start,
        Stage::PreparingWorkingDirectory,
        Stage::CopyingProjectSource,
        Stage::ExtractingExample,
        Stage::RunningDetector,
        Stage::ReadingResult,
    ] {
        assert_eq!(runner().step(&job(), stage, Event::Failed), failed(RunJobError::Io));
    }
}

#[test]
fn report_gives_the_pairs_of_the_job() {
    assert_eq!(
        runner().step(&job(), Stage::ReadingResult, Event::ResultRead(String::from(REPORT))),
        (Stage::Finished, Action::Finish(Ok(pairs())))
    );
}

#[test]
fn report_without_clones_of_the_two_files_gives_no_pairs() {
    let report = "#begin{file description}\n0.0 1 1 /w/src/Blink.ino\n0.1 1 1 /w/src/MyProject.ino\n0.2 1 1 /w/src/Other.ino\n#end{file description}\n#begin{clone}\n#begin{set}\n0.0 1,1,1 2,2,2 3\n0.2 1,1,1 2,2,2 3\n#end{set}\n#end{clone}\n";
    assert_eq!(
        runner().step(&job(), Stage::ReadingResult, Event::ResultRead(String::from(report))),
        (Stage::Finished, Action::Finish(Ok(vec![])))
    );
}

#[test]
fn report_that_cannot_be_read_ends_the_job() {
    assert_eq!(
        runner().step(&job(), Stage::ReadingResult, Event::ResultRead(String::new())),
        failed(RunJobError::Parse(ParseError::Malformed))
    );
    assert_eq!(
        runner().step(&job(), Stage::ReadingResult, Event::ResultRead(String::from("#x\n"))),
        failed(RunJobError::Parse(ParseError::Invalid(InvalidCCFinderSWResult::new(
            InvalidResultKind::MissingMandatoryBlocks
        ))))
    );
}

#[test]
fn report_without_the_files_of_the_job_ends_the_job() {
    let report = REPORT.replace("MyProject.ino", "Another.ino");
    assert_eq!(
        runner().step(&job(), Stage::ReadingResult, Event::ResultRead(report)),
        failed(RunJobError::ClonePairs(ClonePairsError::FileNotFound(
            FileNotFoundFromResultError { file: TrackedFile::Project }
        )))
    );
}

#[test]
fn job_without_a_file_name_never_starts() {
    let mut unnamed = job();
    unnamed.project = SourceInfo::new(String::from("sketch/.."));
    assert_eq!(
        runner().step(&unnamed, Stage::Start, Event::Begin),
        failed(RunJobError::InvalidPath(InvalidPathError::new("sketch/..")))
    );
    let mut unnamed = job();
    unnamed.example_sketch = SourceInfo::new(String::from("/"));
    assert_eq!(
        runner().step(&unnamed, Stage::Start, Event::Begin),
        failed(RunJobError::InvalidPath(InvalidPathError::new("/")))
    );
}

#[test]
fn events_out_of_turn_end_the_job() {
    assert_eq!(
        runner().step(&job(), Stage::Start, Event::Done),
        failed(RunJobError::OutOfTurn)
    );
    assert_eq!(
        runner().step(&job(), Stage::RunningDetector, Event::Done),
        failed(RunJobError::OutOfTurn)
    );
    assert_eq!(
        runner().step(&job(), Stage::CopyingProjectSource, Event::EntryMissing),
        failed(RunJobError::OutOfTurn)
    );
    assert_eq!(
        runner().step(&job(), Stage::Finished, Event::Begin),
        failed(RunJobError::OutOfTurn)
    );
    assert_eq!(
        runner().step(&job(), Stage::Finished, Event::Failed),
        failed(RunJobError::OutOfTurn)
    );
}

#[test]
fn whole_job_runs_through_its_stages() {
    let events = vec![
        Event::Begin,
        Event::Done,
        Event::Done,
        Event::Done,
        Event::Exited(0),
        Event::ResultRead(String::from(REPORT)),
    ];
    let mut stage = Stage::Start;
    let mut last = None;
    for event in events {
        let (next, action) = runner().step(&job(), stage, event);
        stage = next;
        last = Some(action);
    }
    assert_eq!(stage, Stage::Finished);
    assert_eq!(last, Some(Action::Finish(Ok(pairs()))));
}

#[test]
fn report_is_interpreted_for_two_names() {
    assert_eq!(interpret(REPORT, "MyProject.ino", "Blink.ino"), Ok(pairs()));
    assert_eq!(
        interpret(REPORT, "MyProject.ino", "Missing.ino"),
        Err(RunJobError::ClonePairs(ClonePairsError::FileNotFound(
            FileNotFoundFromResultError { file: TrackedFile::Example }
        )))
    );
    assert_eq!(interpret("", "a", "b"), Err(RunJobError::Parse(ParseError::Malformed)));
}
