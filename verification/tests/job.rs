use hugin::clone_pair::{ClonePair, CodePosition, CodeSlice};
use hugin::error::InvalidPathError;
use hugin::job::{Job, JobResults, LibraryInfo, SourceInfo};
use hugin::session::Session;

fn job() -> Job {
    Job {
        project: SourceInfo::new(String::from("sketch/MyProject.ino")),
        example_sketch: SourceInfo::new(String::from("Blink/Blink.ino")),
        library_info: LibraryInfo {
            name: String::from("Servo"),
            version: String::from("1.1.8"),
            location: String::from("Servo-1.1.8.zip"),
            archive_root: String::from("Servo-1.1.8"),
        },
    }
}

fn pair() -> ClonePair {
    ClonePair::new(
        CodeSlice::new(CodePosition::new(1, 2), CodePosition::new(3, 4)),
        CodeSlice::new(CodePosition::new(5, 6), CodePosition::new(7, 8)),
    )
}

fn name_of(location: &str) -> Option<String> {
    SourceInfo::new(String::from(location)).get_file_name().ok()
}

fn under(root: &str, location: &str) -> String {
    SourceInfo::new(String::from(location)).get_non_canonical_path_from(root)
}

#[test]
fn file_name_is_the_last_component() {
    assert_eq!(name_of("/tmp/.foo/src/Example.ino"), Some(String::from("Example.ino")));
    assert_eq!(name_of("Example.ino"), Some(String::from("Example.ino")));
    assert_eq!(name_of("/usr/bin/"), Some(String::from("bin")));
    assert_eq!(name_of("foo.txt/."), Some(String::from("foo.txt")));
    assert_eq!(name_of("foo.txt/.."), None);
    assert_eq!(name_of("/"), None);
    assert_eq!(name_of(""), None);
}

#[test]
fn paths_are_adjoined() {
    assert_eq!(under("/database", "libraries"), "/database/libraries");
    assert_eq!(under("/database/", "libraries"), "/database/libraries");
    assert_eq!(under("/database", "/absolute"), "/absolute");
    assert_eq!(under("", "relative"), "relative");
}

#[test]
fn source_is_named_by_the_last_component_of_its_location() {
    assert_eq!(job().project.get_file_name(), Ok(String::from("MyProject.ino")));
    assert_eq!(job().example_sketch.get_file_name(), Ok(String::from("Blink.ino")));
}

#[test]
fn source_without_a_last_component_has_no_name() {
    assert_eq!(
        SourceInfo::new(String::from("sketch/..")).get_file_name(),
        Err(InvalidPathError::new("sketch/.."))
    );
    assert_eq!(
        SourceInfo::new(String::new()).get_file_name(),
        Err(InvalidPathError::new(""))
    );
}

#[test]
fn source_lies_under_a_root() {
    assert_eq!(
        job().project.get_non_canonical_path_from("/home/user/project"),
        "/home/user/project/sketch/MyProject.ino"
    );
    assert_eq!(
        job().example_sketch.get_non_canonical_path_from("Servo-1.1.8/examples"),
        "Servo-1.1.8/examples/Blink/Blink.ino"
    );
    assert_eq!(
        SourceInfo::new(String::from("/abs/x.ino")).get_non_canonical_path_from("/root"),
        "/abs/x.ino"
    );
}

#[test]
fn archive_lies_under_the_libraries_of_the_database() {
    assert_eq!(
        job().library_info.get_non_canonical_location("/srv/munin"),
        "/srv/munin/libraries/Servo-1.1.8.zip"
    );
    assert_eq!(job().library_info.get_examples_root(), "Servo-1.1.8/examples");
}

#[test]
fn result_without_pairs_holds_no_list() {
    let result = job().create_result(vec![]);
    assert_eq!(result.job, job());
    assert_eq!(result.clone_pairs, None);
}

#[test]
fn result_with_pairs_holds_them() {
    let result = job().create_result(vec![pair(), pair()]);
    assert_eq!(result.job, job());
    assert_eq!(result.clone_pairs, Some(vec![pair(), pair()]));
    let results = JobResults { results: vec![result.clone()] };
    assert_eq!(results.results[0], result);
}

#[test]
fn copies_are_equal() {
    assert_eq!(job().duplicate(), job());
    assert_eq!(job().project.duplicate(), job().project);
    assert_eq!(job().library_info.duplicate(), job().library_info);
}

#[test]
fn session_paths_lie_under_the_session() {
    let session = Session::new(String::from("project"), String::from("jobs"));
    assert_eq!(session.get_non_canonical_project_path("/tmp/session"), "/tmp/session/project");
    assert_eq!(session.get_non_canonical_jobs_path("/tmp/session"), "/tmp/session/jobs");
    let absolute = Session::new(String::from("/p"), String::from("../jobs"));
    assert_eq!(absolute.get_non_canonical_project_path("/tmp/session"), "/p");
    assert_eq!(absolute.get_non_canonical_jobs_path("/tmp/session"), "/tmp/session/../jobs");
}
