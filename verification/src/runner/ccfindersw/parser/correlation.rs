//! The reduction of the clone sets of a report to the clone pairs between two
//! of its files.

use vstd::prelude::*;
use crate::clone_pair::ClonePair;
use crate::clone_pair::CodeSlice;
use crate::error::ClonePairsError;
use crate::error::FileNotFoundFromResultError;
use crate::error::InvalidCCFinderSWResult;
use crate::error::InvalidResultKind;
use crate::error::TrackedFile;
use crate::path::path_file_name;
use crate::runner::ccfindersw::parser::grammar::Report;
use crate::runner::ccfindersw::parser::clone_sets;
use crate::runner::ccfindersw::parser::CloneSet;
use crate::runner::ccfindersw::parser::FileNumber;
use crate::runner::ccfindersw::parser::SetElement;

verus! {

/// Whether the path that `description` records for `number` ends in the
/// component `file_name`.
pub open spec fn names(
    description: Map<FileNumber, Seq<char>>,
    number: FileNumber,
    file_name: Seq<char>,
) -> bool {
    description.contains_key(number) && path_file_name(description[number]) == Some(file_name)
}

/// What a run of clone pairs, or the reason why there is none, is when the
/// pairs are held as a sequence.
pub open spec fn outcome_view(outcome: Result<Vec<ClonePair>, ClonePairsError>) -> Result<
    Seq<ClonePair>,
    ClonePairsError,
> {
    match outcome {
        Ok(pairs) => Ok(pairs@),
        Err(error) => Err(error),
    }
}

/// What the clone sets give for the files with the numbers `project` and
/// `example`, as the outcome of a search for clone pairs.
pub open spec fn outcome_of(sets: Seq<Seq<SetElement>>, project: FileNumber, example: FileNumber)
    -> Result<Seq<ClonePair>, ClonePairsError> {
    match pairs_of(sets, project, example) {
        Ok(pairs) => Ok(pairs),
        Err(kind) => Err(ClonePairsError::InvalidResult(InvalidCCFinderSWResult { kind })),
    }
}

/// Whether `outcome` is what a report gives for the project file and the
/// example file, each told by the last component of its path. Where no
/// recorded path ends in the name of the project file, the project file is not
/// found; else, where none ends in the name of the example file, the example
/// file is not found. Otherwise the outcome is what the clone sets give for a
/// number of the project file and a number of the example file. Where several
/// recorded paths end in one name, any of their numbers may have been taken.
pub open spec fn is_outcome(
    report: Report,
    project_name: Seq<char>,
    example_name: Seq<char>,
    outcome: Result<Seq<ClonePair>, ClonePairsError>,
) -> bool {
    if forall|number: FileNumber| !names(report.file_description, number, project_name) {
        outcome == Err::<Seq<ClonePair>, ClonePairsError>(
            ClonePairsError::FileNotFound(
                FileNotFoundFromResultError { file: TrackedFile::Project },
            ),
        )
    } else if forall|number: FileNumber| !names(report.file_description, number, example_name) {
        outcome == Err::<Seq<ClonePair>, ClonePairsError>(
            ClonePairsError::FileNotFound(
                FileNotFoundFromResultError { file: TrackedFile::Example },
            ),
        )
    } else {
        exists|project: FileNumber, example: FileNumber|
            #![trigger outcome_of(report.clone, project, example)]
            names(report.file_description, project, project_name) && names(
                report.file_description,
                example,
                example_name,
            ) && outcome == outcome_of(report.clone, project, example)
    }
}

/// The fragment that a set element names.
pub open spec fn slice_of(element: SetElement) -> CodeSlice {
    CodeSlice { start: element.start_position, end: element.end_position }
}

/// What a clone set gives for the files `project` and `example`, when its
/// elements from `at` on are gone through in order and `project_part` and
/// `example_part` are the fragments met before `at`. An element of another
/// file is passed over. A second element of the project file, or of the
/// example file, is refused where it stands. At the end the set gives a pair
/// where it had a fragment of each file, and nothing otherwise.
pub open spec fn pair_from(
    elements: Seq<SetElement>,
    at: int,
    project: FileNumber,
    example: FileNumber,
    project_part: Option<CodeSlice>,
    example_part: Option<CodeSlice>,
) -> Result<Option<ClonePair>, InvalidResultKind>
    decreases elements.len() - at,
{
    if at < 0 || at >= elements.len() {
        if project_part is Some && example_part is Some {
            Ok(Some(ClonePair { project: project_part->0, example_sketch: example_part->0 }))
        } else {
            Ok(None)
        }
    } else if elements[at].file_number == project && project_part is Some {
        Err(InvalidResultKind::DuplicatedProjectCodePart)
    } else if elements[at].file_number == example && example_part is Some {
        Err(InvalidResultKind::DuplicatedExampleCodePart)
    } else {
        pair_from(
            elements,
            at + 1,
            project,
            example,
            if elements[at].file_number == project {
                Some(slice_of(elements[at]))
            } else {
                project_part
            },
            if elements[at].file_number == example {
                Some(slice_of(elements[at]))
            } else {
                example_part
            },
        )
    }
}

/// What a clone set gives for the files `project` and `example`.
pub open spec fn pair_of(elements: Seq<SetElement>, project: FileNumber, example: FileNumber)
    -> Result<Option<ClonePair>, InvalidResultKind> {
    pair_from(elements, 0, project, example, None, None)
}

/// The clone pairs that a run of clone sets gives for the files `project` and
/// `example`: the pairs of its sets in their order, or what is wrong with the
/// first set that is refused.
pub open spec fn pairs_of(sets: Seq<Seq<SetElement>>, project: FileNumber, example: FileNumber)
    -> Result<Seq<ClonePair>, InvalidResultKind>
    decreases sets.len(),
{
    if sets.len() == 0 {
        Ok(Seq::empty())
    } else {
        match pairs_of(sets.drop_last(), project, example) {
            Err(kind) => Err(kind),
            Ok(pairs) => match pair_of(sets.last(), project, example) {
                Err(kind) => Err(kind),
                Ok(Some(pair)) => Ok(pairs.push(pair)),
                Ok(None) => Ok(pairs),
            },
        }
    }
}

fn same_number(a: FileNumber, b: FileNumber) -> (same: bool)
    ensures
        same == (a == b),
{
    a.0 == b.0 && a.1 == b.1
}

/// The pair that one clone set gives for the files `project` and `example`.
pub fn correlate_set(set: &CloneSet, project: FileNumber, example: FileNumber) -> (pair: Result<
    Option<ClonePair>,
    InvalidCCFinderSWResult,
>)
    ensures
        match pair_of(set@, project, example) {
            Ok(found) => pair == Ok::<Option<ClonePair>, InvalidCCFinderSWResult>(found),
            Err(kind) => pair matches Err(error) && error.kind == kind,
        },
{
    let mut project_part: Option<CodeSlice> = None;
    let mut example_part: Option<CodeSlice> = None;
    let mut at: usize = 0;
    while at < set.elements.len()
        invariant
            at <= set.elements.len(),
            pair_of(set@, project, example) == pair_from(
                set@,
                at as int,
                project,
                example,
                project_part,
                example_part,
            ),
        decreases set.elements.len() - at,
    {
        let element = set.elements[at];
        if same_number(element.file_number, project) {
            if project_part.is_some() {
                return Err(
                    InvalidCCFinderSWResult::new(InvalidResultKind::DuplicatedProjectCodePart),
                );
            }
            project_part = Some(CodeSlice::new(element.start_position, element.end_position));
        }
        if same_number(element.file_number, example) {
            if example_part.is_some() {
                return Err(
                    InvalidCCFinderSWResult::new(InvalidResultKind::DuplicatedExampleCodePart),
                );
            }
            example_part = Some(CodeSlice::new(element.start_position, element.end_position));
        }
        at += 1;
    }
    match (project_part, example_part) {
        (Some(project), Some(example_sketch)) => Ok(Some(ClonePair::new(project, example_sketch))),
        _ => Ok(None),
    }
}

/// The clone pairs that the clone sets give for the files `project` and
/// `example`, in the order of the sets.
pub fn correlate(sets: &Vec<CloneSet>, project: FileNumber, example: FileNumber) -> (pairs: Result<
    Vec<ClonePair>,
    InvalidCCFinderSWResult,
>)
    ensures
        match pairs_of(clone_sets(sets@), project, example) {
            Ok(found) => pairs matches Ok(pairs) && pairs@ == found,
            Err(kind) => pairs matches Err(error) && error.kind == kind,
        },
{
    let mut pairs: Vec<ClonePair> = Vec::new();
    let mut at: usize = 0;
    assert(clone_sets(sets@).take(0) =~= Seq::empty());
    while at < sets.len()
        invariant
            at <= sets.len(),
            pairs_of(clone_sets(sets@).take(at as int), project, example) == Ok::<
                Seq<ClonePair>,
                InvalidResultKind,
            >(pairs@),
        decreases sets.len() - at,
    {
        proof {
            let all = clone_sets(sets@);
            assert(all.take(at + 1).drop_last() =~= all.take(at as int));
            assert(all.take(at + 1).last() == sets@[at as int]@);
        }
        match correlate_set(&sets[at], project, example) {
            Ok(Some(pair)) => {
                pairs.push(pair);
            },
            Ok(None) => {},
            Err(error) => {
                proof {
                    lemma_refused_set_refuses_all(clone_sets(sets@), at + 1, project, example);
                }
                return Err(error);
            },
        }
        at += 1;
    }
    assert(clone_sets(sets@).take(at as int) =~= clone_sets(sets@));
    Ok(pairs)
}

/// Where the first `count` sets of a run are refused, the whole run is refused
/// for the same reason.
pub proof fn lemma_refused_set_refuses_all(
    sets: Seq<Seq<SetElement>>,
    count: int,
    project: FileNumber,
    example: FileNumber,
)
    requires
        0 <= count <= sets.len(),
        pairs_of(sets.take(count), project, example) is Err,
    ensures
        pairs_of(sets, project, example) == pairs_of(sets.take(count), project, example),
    decreases sets.len() - count,
{
    if count == sets.len() {
        assert(sets.take(count) =~= sets);
    } else {
        assert(sets.take(count + 1).drop_last() =~= sets.take(count));
        lemma_refused_set_refuses_all(sets, count + 1, project, example);
    }
}

/// How many of `elements` belong to the file `file`.
pub open spec fn occurrences(elements: Seq<SetElement>, file: FileNumber) -> nat
    decreases elements.len(),
{
    if elements.len() == 0 {
        0
    } else if elements[0].file_number == file {
        1 + occurrences(elements.drop_first(), file)
    } else {
        occurrences(elements.drop_first(), file)
    }
}

/// The fragment of the first of `elements` that belongs to the file `file`.
pub open spec fn part_of(elements: Seq<SetElement>, file: FileNumber) -> CodeSlice
    decreases elements.len(),
{
    if elements.len() == 0 {
        arbitrary()
    } else if elements[0].file_number == file {
        slice_of(elements[0])
    } else {
        part_of(elements.drop_first(), file)
    }
}

/// Whether `kind` says that a clone set names a tracked file twice.
pub open spec fn is_duplicated_part(kind: InvalidResultKind) -> bool {
    kind == InvalidResultKind::DuplicatedProjectCodePart || kind
        == InvalidResultKind::DuplicatedExampleCodePart
}

proof fn lemma_pair_from(
    elements: Seq<SetElement>,
    at: int,
    project: FileNumber,
    example: FileNumber,
    project_part: Option<CodeSlice>,
    example_part: Option<CodeSlice>,
)
    requires
        0 <= at <= elements.len(),
    ensures
        ({
            let of_project = occurrences(elements.skip(at), project);
            let of_example = occurrences(elements.skip(at), example);
            let given = pair_from(elements, at, project, example, project_part, example_part);
            if project_part is Some && of_project > 0 || of_project > 1 || example_part is Some
                && of_example > 0 || of_example > 1 {
                given matches Err(kind) && is_duplicated_part(kind)
            } else if (project_part is Some || of_project == 1) && (example_part is Some
                || of_example == 1) {
                given == Ok::<Option<ClonePair>, InvalidResultKind>(
                    Some(
                        ClonePair {
                            project: if project_part is Some {
                                project_part->0
                            } else {
                                part_of(elements.skip(at), project)
                            },
                            example_sketch: if example_part is Some {
                                example_part->0
                            } else {
                                part_of(elements.skip(at), example)
                            },
                        },
                    ),
                )
            } else {
                given == Ok::<Option<ClonePair>, InvalidResultKind>(None)
            }
        }),
    decreases elements.len() - at,
{
    if at < elements.len() {
        assert(elements.skip(at).drop_first() =~= elements.skip(at + 1));
        assert(elements.skip(at)[0] == elements[at]);
        let element = elements[at];
        if !(element.file_number == project && project_part is Some) && !(element.file_number
            == example && example_part is Some) {
            lemma_pair_from(
                elements,
                at + 1,
                project,
                example,
                if element.file_number == project {
                    Some(slice_of(element))
                } else {
                    project_part
                },
                if element.file_number == example {
                    Some(slice_of(element))
                } else {
                    example_part
                },
            );
        }
    }
}

/// What a clone set gives, told by how often it names each tracked file: it
/// is refused where it names one of them twice or more; it gives the pair of
/// their fragments where it names each once; it gives nothing where one of
/// them is not named.
pub proof fn lemma_pair_of(elements: Seq<SetElement>, project: FileNumber, example: FileNumber)
    ensures
        ({
            let of_project = occurrences(elements, project);
            let of_example = occurrences(elements, example);
            let given = pair_of(elements, project, example);
            if of_project > 1 || of_example > 1 {
                given matches Err(kind) && is_duplicated_part(kind)
            } else if of_project == 1 && of_example == 1 {
                given == Ok::<Option<ClonePair>, InvalidResultKind>(
                    Some(
                        ClonePair {
                            project: part_of(elements, project),
                            example_sketch: part_of(elements, example),
                        },
                    ),
                )
            } else {
                given == Ok::<Option<ClonePair>, InvalidResultKind>(None)
            }
        }),
{
    assert(elements.skip(0) =~= elements);
    lemma_pair_from(elements, 0, project, example, None, None);
}

/// A clone set that names the project file at most once and the example file
/// not at all gives no pair, and so does one that names the example file at
/// most once and the project file not at all.
pub proof fn lemma_set_of_one_file_gives_no_pair(
    elements: Seq<SetElement>,
    project: FileNumber,
    example: FileNumber,
)
    requires
        occurrences(elements, project) <= 1 && occurrences(elements, example) == 0
            || occurrences(elements, project) == 0 && occurrences(elements, example) <= 1,
    ensures
        pair_of(elements, project, example) == Ok::<Option<ClonePair>, InvalidResultKind>(None),
{
    lemma_pair_of(elements, project, example);
}

/// Two elements of a run that belong to one file make two occurrences of it.
pub proof fn lemma_two_elements_occur_twice(
    elements: Seq<SetElement>,
    first: int,
    second: int,
    file: FileNumber,
)
    requires
        0 <= first < second < elements.len(),
        elements[first].file_number == file,
        elements[second].file_number == file,
    ensures
        occurrences(elements, file) >= 2,
    decreases elements.len(),
{
    let others = elements.drop_first();
    if first == 0 {
        lemma_element_occurs(others, second - 1, file);
    } else {
        lemma_two_elements_occur_twice(others, first - 1, second - 1, file);
    }
}

/// An element of a run that belongs to a file makes an occurrence of it.
pub proof fn lemma_element_occurs(elements: Seq<SetElement>, at: int, file: FileNumber)
    requires
        0 <= at < elements.len(),
        elements[at].file_number == file,
    ensures
        occurrences(elements, file) >= 1,
    decreases elements.len(),
{
    if at > 0 {
        lemma_element_occurs(elements.drop_first(), at - 1, file);
    }
}

/// A run of elements none of which belongs to a file holds no occurrence of
/// it.
pub proof fn lemma_no_element_occurs(elements: Seq<SetElement>, file: FileNumber)
    requires
        forall|i: int| 0 <= i < elements.len() ==> (#[trigger] elements[i]).file_number != file,
    ensures
        occurrences(elements, file) == 0,
    decreases elements.len(),
{
    if elements.len() > 0 {
        let others = elements.drop_first();
        assert(elements[0].file_number != file);
        assert forall|i: int| 0 <= i < others.len() implies (#[trigger] others[i]).file_number
            != file by {
            assert(elements[i + 1].file_number != file);
        }
        lemma_no_element_occurs(others, file);
    }
}

/// A run of clone sets of which none is refused is not refused.
pub proof fn lemma_accepted_sets(
    sets: Seq<Seq<SetElement>>,
    project: FileNumber,
    example: FileNumber,
)
    requires
        forall|j: int| 0 <= j < sets.len() ==> pair_of(#[trigger] sets[j], project, example) is Ok,
    ensures
        pairs_of(sets, project, example) is Ok,
    decreases sets.len(),
{
    if sets.len() > 0 {
        let front = sets.drop_last();
        assert forall|j: int| 0 <= j < front.len() implies pair_of(
            #[trigger] front[j],
            project,
            example,
        ) is Ok by {
            assert(front[j] == sets[j]);
        }
        lemma_accepted_sets(front, project, example);
        assert(sets.last() == sets[sets.len() - 1]);
    }
}

/// A run of clone sets is refused for the reason for which the first of its
/// sets that is refused is refused.
pub proof fn lemma_first_refused_set(
    sets: Seq<Seq<SetElement>>,
    project: FileNumber,
    example: FileNumber,
    at: int,
)
    requires
        0 <= at < sets.len(),
        pair_of(sets[at], project, example) is Err,
        forall|j: int| 0 <= j < at ==> pair_of(#[trigger] sets[j], project, example) is Ok,
    ensures
        pairs_of(sets, project, example) == Err::<Seq<ClonePair>, InvalidResultKind>(
            pair_of(sets[at], project, example)->Err_0,
        ),
    decreases sets.len(),
{
    let front = sets.drop_last();
    if at == sets.len() - 1 {
        assert forall|j: int| 0 <= j < front.len() implies pair_of(
            #[trigger] front[j],
            project,
            example,
        ) is Ok by {
            assert(front[j] == sets[j]);
        }
        lemma_accepted_sets(front, project, example);
    } else {
        assert(front[at] == sets[at]);
        assert forall|j: int| 0 <= j < at implies pair_of(
            #[trigger] front[j],
            project,
            example,
        ) is Ok by {
            assert(front[j] == sets[j]);
        }
        lemma_first_refused_set(front, project, example, at);
    }
}

/// A run of clone sets of which one is refused is refused.
pub proof fn lemma_refused_set(
    sets: Seq<Seq<SetElement>>,
    project: FileNumber,
    example: FileNumber,
    at: int,
)
    requires
        0 <= at < sets.len(),
        pair_of(sets[at], project, example) is Err,
    ensures
        pairs_of(sets, project, example) is Err,
    decreases sets.len(),
{
    if at < sets.len() - 1 {
        let front = sets.drop_last();
        assert(front[at] == sets[at]);
        lemma_refused_set(front, project, example, at);
    }
}

/// A clone set with two elements of the project file, or with two elements of
/// the example file, has the whole run of sets refused as one that names a
/// tracked file twice.
pub proof fn lemma_repeated_part_is_refused(
    sets: Seq<Seq<SetElement>>,
    project: FileNumber,
    example: FileNumber,
    set: int,
    first: int,
    second: int,
)
    requires
        0 <= set < sets.len(),
        0 <= first < second < sets[set].len(),
        sets[set][first].file_number == sets[set][second].file_number,
        sets[set][first].file_number == project || sets[set][first].file_number == example,
    ensures
        pairs_of(sets, project, example) matches Err(kind) && is_duplicated_part(kind),
{
    lemma_two_elements_occur_twice(sets[set], first, second, sets[set][first].file_number);
    lemma_pair_of(sets[set], project, example);
    lemma_refused_set(sets, project, example, set);
    lemma_pairs_of_errors(sets, project, example);
}

/// A run of clone sets is refused only as one that names a tracked file
/// twice.
pub proof fn lemma_pairs_of_errors(
    sets: Seq<Seq<SetElement>>,
    project: FileNumber,
    example: FileNumber,
)
    ensures
        pairs_of(sets, project, example) matches Err(kind) ==> is_duplicated_part(kind),
    decreases sets.len(),
{
    if sets.len() > 0 {
        lemma_pairs_of_errors(sets.drop_last(), project, example);
        lemma_pair_of(sets.last(), project, example);
    }
}

/// Whether a clone set names neither tracked file twice, and not both of
/// them.
pub open spec fn names_one_file_at_most(
    elements: Seq<SetElement>,
    project: FileNumber,
    example: FileNumber,
) -> bool {
    occurrences(elements, project) <= 1 && occurrences(elements, example) <= 1 && (occurrences(
        elements,
        project,
    ) == 0 || occurrences(elements, example) == 0)
}

/// Clone sets of which none names both tracked files, and none names one of
/// them twice, give no pair and are not refused.
pub proof fn lemma_no_set_of_both_files_gives_no_pair(
    sets: Seq<Seq<SetElement>>,
    project: FileNumber,
    example: FileNumber,
)
    requires
        forall|i: int|
            0 <= i < sets.len() ==> names_one_file_at_most(#[trigger] sets[i], project, example),
    ensures
        pairs_of(sets, project, example) == Ok::<Seq<ClonePair>, InvalidResultKind>(Seq::empty()),
    decreases sets.len(),
{
    if sets.len() > 0 {
        let front = sets.drop_last();
        assert forall|i: int| 0 <= i < front.len() implies names_one_file_at_most(
            #[trigger] front[i],
            project,
            example,
        ) by {
            assert(front[i] == sets[i]);
        }
        lemma_no_set_of_both_files_gives_no_pair(front, project, example);
        assert(names_one_file_at_most(sets[sets.len() - 1], project, example));
        lemma_pair_of(sets.last(), project, example);
    }
}

/// Clone sets without any element of the two tracked files give no pair and
/// are not refused.
pub proof fn lemma_untouched_files_give_no_pair(
    sets: Seq<Seq<SetElement>>,
    project: FileNumber,
    example: FileNumber,
)
    requires
        forall|i: int, j: int|
            0 <= i < sets.len() && 0 <= j < sets[i].len() ==> (#[trigger] sets[i][j]).file_number
                != project && sets[i][j].file_number != example,
    ensures
        pairs_of(sets, project, example) == Ok::<Seq<ClonePair>, InvalidResultKind>(Seq::empty()),
{
    assert forall|i: int| 0 <= i < sets.len() implies names_one_file_at_most(
        #[trigger] sets[i],
        project,
        example,
    ) by {
        assert forall|j: int| 0 <= j < sets[i].len() implies (#[trigger] sets[i][j]).file_number
            != project && sets[i][j].file_number != example by {}
        lemma_no_element_occurs(sets[i], project);
        lemma_no_element_occurs(sets[i], example);
    }
    lemma_no_set_of_both_files_gives_no_pair(sets, project, example);
}

/// A file whose name ends none of the recorded paths is not found: the
/// project file first, and the example file where the project file is there.
pub proof fn lemma_outcome_without_a_file(
    report: Report,
    project_name: Seq<char>,
    example_name: Seq<char>,
    outcome: Result<Seq<ClonePair>, ClonePairsError>,
)
    requires
        is_outcome(report, project_name, example_name, outcome),
    ensures
        (forall|number: FileNumber| !names(report.file_description, number, project_name))
            ==> outcome == Err::<Seq<ClonePair>, ClonePairsError>(
            ClonePairsError::FileNotFound(
                FileNotFoundFromResultError { file: TrackedFile::Project },
            ),
        ),
        (exists|number: FileNumber| names(report.file_description, number, project_name))
            && (forall|number: FileNumber| !names(report.file_description, number, example_name))
            ==> outcome == Err::<Seq<ClonePair>, ClonePairsError>(
            ClonePairsError::FileNotFound(
                FileNotFoundFromResultError { file: TrackedFile::Example },
            ),
        ),
        outcome == Err::<Seq<ClonePair>, ClonePairsError>(
            ClonePairsError::FileNotFound(
                FileNotFoundFromResultError { file: TrackedFile::Project },
            ),
        ) ==> forall|number: FileNumber| !names(report.file_description, number, project_name),
        outcome == Err::<Seq<ClonePair>, ClonePairsError>(
            ClonePairsError::FileNotFound(
                FileNotFoundFromResultError { file: TrackedFile::Example },
            ),
        ) ==> forall|number: FileNumber| !names(report.file_description, number, example_name),
{
}

/// Where both files are found and no clone set names both of them, or one of
/// them twice, the outcome is an empty run of pairs and no error.
pub proof fn lemma_outcome_without_pairs(
    report: Report,
    project_name: Seq<char>,
    example_name: Seq<char>,
    outcome: Result<Seq<ClonePair>, ClonePairsError>,
)
    requires
        is_outcome(report, project_name, example_name, outcome),
        exists|number: FileNumber| names(report.file_description, number, project_name),
        exists|number: FileNumber| names(report.file_description, number, example_name),
        forall|project: FileNumber, example: FileNumber, i: int|
            names(report.file_description, project, project_name) && names(
                report.file_description,
                example,
                example_name,
            ) && 0 <= i < report.clone.len() ==> #[trigger] names_one_file_at_most(
                report.clone[i],
                project,
                example,
            ),
    ensures
        outcome == Ok::<Seq<ClonePair>, ClonePairsError>(Seq::empty()),
{
    let (project, example) = choose|project: FileNumber, example: FileNumber|
        #![trigger outcome_of(report.clone, project, example)]
        names(report.file_description, project, project_name) && names(
            report.file_description,
            example,
            example_name,
        ) && outcome == outcome_of(report.clone, project, example);
    lemma_no_set_of_both_files_gives_no_pair(report.clone, project, example);
}

} // verus!
