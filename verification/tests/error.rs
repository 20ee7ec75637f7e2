use hugin::error::{
    ArchiveEntryMissingError, ClonePairsError, FileNotFoundFromResultError,
    InvalidCCFinderSWResult, InvalidConfigurationError, InvalidPathError, InvalidResultKind,
    NoValidConfigurationError, ParseError, RunJobError, RunnerProcessFailedError, TrackedFile,
};

#[test]
fn no_valid_configuration_is_told() {
    assert_eq!(NoValidConfigurationError.message(), "No valid configuration found.");
}

#[test]
fn invalid_path_is_told_with_the_path() {
    let error = InvalidPathError::new("/a/..");
    assert_eq!(error.path, "/a/..");
    assert_eq!(error.message(), "Invalid path was specified: /a/...");
}

#[test]
fn invalid_configuration_is_told_by_its_description() {
    let error = InvalidConfigurationError::new("Missing key: `language`");
    assert_eq!(error.description, "Missing key: `language`");
    assert_eq!(error.message(), "Missing key: `language`");
}

#[test]
fn failed_process_is_told_with_its_code() {
    assert_eq!(
        RunnerProcessFailedError::new(2).message(),
        "Process exited abnormally with code: 2"
    );
    assert_eq!(
        RunnerProcessFailedError::new(-11).message(),
        "Process exited abnormally with code: -11"
    );
    assert_eq!(RunnerProcessFailedError::new(2).status_code, 2);
}

#[test]
fn invalid_result_is_told() {
    let error = InvalidCCFinderSWResult::new(InvalidResultKind::MissingMandatoryBlocks);
    assert_eq!(error.message(), "The result is in invalid format.");
    assert_eq!(error.description(), "Missing mandatory result blocks.");
    assert_eq!(
        InvalidCCFinderSWResult::new(InvalidResultKind::DuplicatedFileDescriptionBlocks)
            .description(),
        "Duplicated file description blocks."
    );
    assert_eq!(
        InvalidCCFinderSWResult::new(InvalidResultKind::DuplicatedCloneBlocks).description(),
        "Duplicated clone blocks."
    );
    assert_eq!(
        InvalidCCFinderSWResult::new(InvalidResultKind::DuplicatedProjectCodePart).description(),
        "Duplicated project code part entries."
    );
    assert_eq!(
        InvalidCCFinderSWResult::new(InvalidResultKind::DuplicatedExampleCodePart).description(),
        "Duplicated example code part entries."
    );
}

#[test]
fn file_not_found_is_told() {
    let error = FileNotFoundFromResultError { file: TrackedFile::Example };
    assert_eq!(error.message(), "The file is not found from the result.");
}

#[test]
fn missing_archive_entry_is_told_with_the_location() {
    let error = ArchiveEntryMissingError::new("Blink/Blink.ino");
    assert_eq!(
        error.message(),
        "Could not open an example sketch source: Blink/Blink.ino"
    );
}

#[test]
fn parse_errors_are_told() {
    assert_eq!(
        ParseError::Malformed.message(),
        "The result does not follow the grammar of a report."
    );
    assert_eq!(
        ParseError::Invalid(InvalidCCFinderSWResult::new(InvalidResultKind::DuplicatedCloneBlocks))
            .message(),
        "The result is in invalid format."
    );
}

#[test]
fn failures_of_a_job_are_told() {
    let not_found = ClonePairsError::FileNotFound(FileNotFoundFromResultError {
        file: TrackedFile::Project,
    });
    assert_eq!(not_found.message(), "The file is not found from the result.");
    assert_eq!(
        RunJobError::ClonePairs(not_found).message(),
        "The file is not found from the result."
    );
    assert_eq!(
        RunJobError::ClonePairs(ClonePairsError::InvalidResult(InvalidCCFinderSWResult::new(
            InvalidResultKind::DuplicatedProjectCodePart
        )))
        .message(),
        "The result is in invalid format."
    );
    assert_eq!(
        RunJobError::InvalidPath(InvalidPathError::new("/")).message(),
        "Invalid path was specified: /."
    );
    assert_eq!(RunJobError::Io.message(), "Input or output failed.");
    assert_eq!(
        RunJobError::ArchiveEntryMissing(ArchiveEntryMissingError::new("a/b.ino")).message(),
        "Could not open an example sketch source: a/b.ino"
    );
    assert_eq!(
        RunJobError::ProcessFailed(RunnerProcessFailedError::new(2)).message(),
        "Process exited abnormally with code: 2"
    );
    assert_eq!(
        RunJobError::Parse(ParseError::Malformed).message(),
        "The result does not follow the grammar of a report."
    );
    assert_eq!(RunJobError::OutOfTurn.message(), "The steps of the job came out of turn.");
}
