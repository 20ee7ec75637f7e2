//! The parsed model of a detector report and the parser that builds it.

use vstd::prelude::*;
use vstd::std_specs::iter::IteratorSpec;
use std::collections::HashMap;
use crate::clone_pair::ClonePair;
use crate::clone_pair::CodePosition;
use crate::error::ClonePairsError;
use crate::error::FileNotFoundFromResultError;
use crate::error::InvalidCCFinderSWResult;
use crate::error::InvalidResultKind;
use crate::error::ParseError;
use crate::error::TrackedFile;
use crate::path;
use crate::runner::ccfindersw::parser::scanner::DataBlock;
use crate::text::chars_of;
use crate::text::same_text;

pub mod correlation;
pub mod grammar;
pub mod scanner;

verus! {

/// The detector's own name for an input file: the index of the archive and
/// the index of the file in it.
pub type FileNumber = (u32, u32);

/// The part that one file has in one clone set.
#[derive(Clone, Copy, Debug, PartialEq, Eq)]
pub struct SetElement {
    pub file_number: FileNumber,
    pub start_position: CodePosition,
    pub end_position: CodePosition,
    /// A magnitude that the detector reports with the element.
    pub extent: u32,
}

impl SetElement {
    pub fn new(
        file_number: FileNumber,
        start_position: CodePosition,
        end_position: CodePosition,
        extent: u32,
    ) -> (element: Self)
        ensures
            element == (SetElement { file_number, start_position, end_position, extent }),
    {
        SetElement { file_number, start_position, end_position, extent }
    }
}

/// The fragments that the detector found to be clones of one another, in the
/// order of the report.
#[derive(Clone, Debug, PartialEq, Eq)]
pub struct CloneSet {
    pub elements: Vec<SetElement>,
}

impl View for CloneSet {
    type V = Seq<SetElement>;

    open spec fn view(&self) -> Seq<SetElement> {
        self.elements@
    }
}

impl CloneSet {
    pub fn new(elements: Vec<SetElement>) -> (set: Self)
        ensures
            set@ == elements@,
    {
        CloneSet { elements }
    }
}

/// The elements of each clone set of a run of them.
pub open spec fn clone_sets(sets: Seq<CloneSet>) -> Seq<Seq<SetElement>> {
    sets.map_values(|set: CloneSet| set@)
}

/// The key under which a file number is kept: both indices in one number.
pub closed spec fn key_of(number: FileNumber) -> u64 {
    (number.0 * 0x1_0000_0000 + number.1) as u64
}

/// The path that the detector recorded for each file number.
#[derive(Clone, Debug, PartialEq, Eq)]
pub struct FileDescription {
    paths: HashMap<u64, String>,
}

impl View for FileDescription {
    type V = Map<FileNumber, Seq<char>>;

    closed spec fn view(&self) -> Map<FileNumber, Seq<char>> {
        Map::new(
            |number: FileNumber| self.paths@.contains_key(key_of(number)),
            |number: FileNumber| self.paths@[key_of(number)]@,
        )
    }
}

fn key(number: FileNumber) -> (key: u64)
    ensures
        key == key_of(number),
{
    let high: u64 = number.0 as u64;
    let low: u64 = number.1 as u64;
    high * 0x1_0000_0000 + low
}

/// The file number that is kept under a key.
pub closed spec fn number_under(key: u64) -> FileNumber {
    ((key / 0x1_0000_0000) as u32, (key % 0x1_0000_0000) as u32)
}

fn number_of(key: u64) -> (number: FileNumber)
    ensures
        number == number_under(key),
        key_of(number) == key,
{
    ((key / 0x1_0000_0000) as u32, (key % 0x1_0000_0000) as u32)
}

proof fn lemma_key_of_is_injective(a: FileNumber, b: FileNumber)
    requires
        key_of(a) == key_of(b),
    ensures
        a == b,
{
}

impl FileDescription {
    /// A description of no file.
    pub fn new() -> (description: Self)
        ensures
            description@ == Map::<FileNumber, Seq<char>>::empty(),
    {
        let description = FileDescription { paths: HashMap::new() };
        assert(description@ =~= Map::<FileNumber, Seq<char>>::empty());
        description
    }

    /// Records `path` for `number`, in place of what was recorded for it
    /// before.
    pub fn insert(&mut self, number: FileNumber, path: String)
        ensures
            final(self)@ == old(self)@.insert(number, path@),
    {
        broadcast use vstd::std_specs::hash::group_hash_axioms;

        self.paths.insert(key(number), path);
        assert forall|other: FileNumber| key_of(other) == key_of(number) implies other
            == number by {
            lemma_key_of_is_injective(other, number);
        }
        assert(self@ =~= old(self)@.insert(number, path@));
    }

    /// The path recorded for `number`.
    pub fn get(&self, number: FileNumber) -> (path: Option<&String>)
        ensures
            match path {
                Some(path) => self@.contains_key(number) && self@[number] == path@,
                None => !self@.contains_key(number),
            },
    {
        broadcast use vstd::std_specs::hash::group_hash_axioms;

        let key = key(number);
        self.paths.get(&key)
    }

    /// The number of files that have a path.
    pub fn len(&self) -> (count: usize)
        ensures
            self@.dom().finite(),
            count == self@.dom().len(),
    {
        broadcast use vstd::std_specs::hash::group_hash_axioms;

        proof {
            let keys = self.paths@.dom();
            let under = |key: u64| number_under(key);
            assert forall|a: u64, b: u64| #[trigger] under(a) == #[trigger] under(b) implies a
                == b by {
                assert(key_of(number_under(a)) == a);
                assert(key_of(number_under(b)) == b);
            }
            assert(vstd::relations::injective_on(under, keys));
            assert forall|number: FileNumber| keys.map(under).contains(number) <==> self@.dom().contains(
                number,
            ) by {
                if self@.dom().contains(number) {
                    lemma_key_of_is_injective(number_under(key_of(number)), number);
                    assert(keys.contains(key_of(number)) && under(key_of(number)) == number);
                }
                if keys.map(under).contains(number) {
                    let key = choose|key: u64| keys.contains(key) && under(key) == number;
                    assert(key_of(number) == key);
                }
            }
            assert(keys.map(under) =~= self@.dom());
            vstd::set_lib::lemma_map_size(keys, self@.dom(), under);
        }
        self.paths.len()
    }

    pub fn contains_key(&self, number: FileNumber) -> (yes: bool)
        ensures
            yes == self@.contains_key(number),
    {
        self.get(number).is_some()
    }

    /// The file numbers that have a path, each once, in no particular order.
    pub fn file_numbers(&self) -> (numbers: Vec<FileNumber>)
        ensures
            numbers@.no_duplicates(),
            forall|number: FileNumber| numbers@.contains(number) <==> self@.contains_key(number),
    {
        broadcast use vstd::std_specs::hash::group_hash_axioms;

        let mut numbers: Vec<FileNumber> = Vec::new();
        let keys = self.paths.keys();
        let ghost all = keys.remaining().unref();
        for key in it: keys
            invariant
                it.seq().unref() == all,
                numbers@.len() == it.index(),
                forall|i: int| 0 <= i < numbers@.len() ==> key_of(#[trigger] numbers@[i]) == all[i],
        {
            numbers.push(number_of(*key));
        }
        proof {
            assert(all.no_duplicates());
            assert(all.to_set() == self.paths@.dom());
            assert(numbers@.len() == all.len());
            assert forall|number: FileNumber| numbers@.contains(number) <==> self@.contains_key(
                number,
            ) by {
                if numbers@.contains(number) {
                    let i = choose|i: int| 0 <= i < numbers@.len() && numbers@[i] == number;
                    assert(all[i] == key_of(number));
                    assert(all.to_set().contains(key_of(number)));
                }
                if self@.contains_key(number) {
                    assert(all.to_set().contains(key_of(number)));
                    let i = choose|i: int| 0 <= i < all.len() && all[i] == key_of(number);
                    lemma_key_of_is_injective(numbers@[i], number);
                }
            }
        }
        numbers
    }
}

/// What a report of the detector says.
#[derive(Debug, PartialEq, Eq)]
pub struct ParsedResult {
    pub file_description: FileDescription,
    pub clone: Vec<CloneSet>,
}

impl View for ParsedResult {
    type V = grammar::Report;

    open spec fn view(&self) -> grammar::Report {
        grammar::Report {
            file_description: self.file_description@,
            clone: clone_sets(self.clone@),
        }
    }
}

impl ParsedResult {
    pub fn new(file_description: FileDescription, clone: Vec<CloneSet>) -> (result: Self)
        ensures
            result.file_description == file_description,
            result.clone == clone,
    {
        ParsedResult { file_description, clone }
    }

    /// A file number whose recorded path ends in the component `file_name`.
    /// Where several paths do, any of their numbers may come back. `file`
    /// says which of the tracked files is looked for, for the error.
    pub fn get_file_number_from_file_name(&self, file_name: &str, file: TrackedFile) -> (number:
        Result<FileNumber, FileNotFoundFromResultError>)
        ensures
            match number {
                Ok(number) => correlation::names(self@.file_description, number, file_name@),
                Err(error) => error.file == file && forall|number: FileNumber|
                    !correlation::names(self@.file_description, number, file_name@),
            },
    {
        let numbers = self.file_description.file_numbers();
        let mut at: usize = 0;
        while at < numbers.len()
            invariant
                at <= numbers.len(),
                forall|i: int|
                    0 <= i < at ==> !correlation::names(
                        self@.file_description,
                        #[trigger] numbers@[i],
                        file_name@,
                    ),
            decreases numbers.len() - at,
        {
            let number = numbers[at];
            if let Some(recorded) = self.file_description.get(number) {
                if let Some(last) = path::file_name(recorded.as_str()) {
                    if same_text(last.as_str(), file_name) {
                        return Ok(number);
                    }
                }
            }
            at += 1;
        }
        assert forall|number: FileNumber|
            !correlation::names(self@.file_description, number, file_name@) by {
            if self@.file_description.contains_key(number) {
                assert(numbers@.contains(number));
            }
        }
        Err(FileNotFoundFromResultError { file })
    }

    /// The clone pairs that the report holds between the project file and the
    /// example file, in the order of its clone sets. Each file is given by the
    /// last component of its path. Where the paths of several files end in
    /// that component, any of them may be taken.
    pub fn get_clone_pairs(&self, project_file_name: &str, example_source_name: &str) -> (pairs:
        Result<Vec<ClonePair>, ClonePairsError>)
        ensures
            correlation::is_outcome(
                self@,
                project_file_name@,
                example_source_name@,
                correlation::outcome_view(pairs),
            ),
    {
        let project = match self.get_file_number_from_file_name(
            project_file_name,
            TrackedFile::Project,
        ) {
            Ok(number) => number,
            Err(error) => {
                return Err(ClonePairsError::FileNotFound(error));
            },
        };
        let example = match self.get_file_number_from_file_name(
            example_source_name,
            TrackedFile::Example,
        ) {
            Ok(number) => number,
            Err(error) => {
                return Err(ClonePairsError::FileNotFound(error));
            },
        };
        assert(correlation::names(self@.file_description, project, project_file_name@));
        assert(correlation::names(self@.file_description, example, example_source_name@));
        match correlation::correlate(&self.clone, project, example) {
            Ok(pairs) => {
                assert(correlation::outcome_of(self@.clone, project, example) == Ok::<
                    Seq<ClonePair>,
                    ClonePairsError,
                >(pairs@));
                Ok(pairs)
            },
            Err(error) => {
                assert(correlation::outcome_of(self@.clone, project, example) == Err::<
                    Seq<ClonePair>,
                    ClonePairsError,
                >(ClonePairsError::InvalidResult(error)));
                Err(ClonePairsError::InvalidResult(error))
            },
        }
    }
}

/// The reader of detector reports.
pub struct ResultParser {}

impl ResultParser {
    pub fn new() -> Self {
        ResultParser {  }
    }

    /// Reads an unsigned decimal number.
    pub fn parse_digits<'a>(&self, input: &'a str) -> (read: Result<(&'a str, u32), ParseError>)
        ensures
            match grammar::number(input@, 0) {
                Some((value, end)) => read matches Ok((rest, found)) && found == value && rest@
                    == input@.skip(end),
                None => read matches Err(error) && error == ParseError::Malformed,
            },
    {
        let text = chars_of(input);
        match scanner::number_at(&text, 0) {
            Some((value, end)) => Ok((input.substring_char(end, text.len()), value)),
            None => Err(ParseError::Malformed),
        }
    }

    /// Reads a text that runs to the end of its line.
    pub fn parse_string<'a>(&self, input: &'a str) -> (read: Result<(&'a str, String), ParseError>)
        ensures
            match grammar::text_line(input@, 0) {
                Some((value, end)) => read matches Ok((rest, found)) && found@ == value && rest@
                    == input@.skip(end),
                None => read matches Err(error) && error == ParseError::Malformed,
            },
    {
        let text = chars_of(input);
        match scanner::text_line_at(input, &text, 0) {
            Some((value, end)) => Ok((input.substring_char(end, text.len()), value)),
            None => Err(ParseError::Malformed),
        }
    }

    /// Skips the white space before a token. Fails where nothing but white
    /// space is left.
    pub fn parse_preceding_whitespace<'a>(&self, input: &'a str) -> (read: Result<
        (&'a str, ()),
        ParseError,
    >)
        ensures
            match grammar::token_start(input@, 0) {
                Some((_, end)) => read matches Ok((rest, _)) && rest@ == input@.skip(end),
                None => read matches Err(error) && error == ParseError::Malformed,
            },
    {
        let text = chars_of(input);
        match scanner::token_start_at(&text, 0) {
            Some(end) => Ok((input.substring_char(end, text.len()), ())),
            None => Err(ParseError::Malformed),
        }
    }

    /// Reads a position, written `line,column,offset`.
    pub fn parse_position<'a>(&self, input: &'a str) -> (read: Result<
        (&'a str, CodePosition),
        ParseError,
    >)
        ensures
            match grammar::position(input@, 0) {
                Some((value, end)) => read matches Ok((rest, found)) && found == value && rest@
                    == input@.skip(end),
                None => read matches Err(error) && error == ParseError::Malformed,
            },
    {
        let text = chars_of(input);
        match scanner::position_at(&text, 0) {
            Some((value, end)) => Ok((input.substring_char(end, text.len()), value)),
            None => Err(ParseError::Malformed),
        }
    }

    /// Reads a file number, written `archive.file`.
    pub fn parse_file_number<'a>(&self, input: &'a str) -> (read: Result<
        (&'a str, FileNumber),
        ParseError,
    >)
        ensures
            match grammar::file_number(input@, 0) {
                Some((value, end)) => read matches Ok((rest, found)) && found == value && rest@
                    == input@.skip(end),
                None => read matches Err(error) && error == ParseError::Malformed,
            },
    {
        let text = chars_of(input);
        match scanner::file_number_at(&text, 0) {
            Some((value, end)) => Ok((input.substring_char(end, text.len()), value)),
            None => Err(ParseError::Malformed),
        }
    }

    /// Reads one line of a clone set.
    pub fn parse_set_element<'a>(&self, input: &'a str) -> (read: Result<
        (&'a str, SetElement),
        ParseError,
    >)
        ensures
            match grammar::set_element(input@, 0) {
                Some((value, end)) => read matches Ok((rest, found)) && found == value && rest@
                    == input@.skip(end),
                None => read matches Err(error) && error == ParseError::Malformed,
            },
    {
        let text = chars_of(input);
        match scanner::set_element_at(&text, 0) {
            Some((value, end)) => Ok((input.substring_char(end, text.len()), value)),
            None => Err(ParseError::Malformed),
        }
    }

    /// Reads a clone set, from `#begin{set}` to `#end{set}`.
    pub fn parse_set<'a>(&self, input: &'a str) -> (read: Result<
        (&'a str, Vec<SetElement>),
        ParseError,
    >)
        ensures
            match grammar::set_block(input@, 0) {
                Some((value, end)) => read matches Ok((rest, found)) && found@ == value && rest@
                    == input@.skip(end),
                None => read matches Err(error) && error == ParseError::Malformed,
            },
    {
        let text = chars_of(input);
        match scanner::set_block_at(&text, 0) {
            Some((value, end)) => Ok((input.substring_char(end, text.len()), value)),
            None => Err(ParseError::Malformed),
        }
    }

    /// Reads the clone block, from `#begin{clone}` to `#end{clone}`.
    pub fn parse_clone<'a>(&self, input: &'a str) -> (read: Result<
        (&'a str, Vec<CloneSet>),
        ParseError,
    >)
        ensures
            match grammar::clone_block(input@, 0) {
                Some((value, end)) => read matches Ok((rest, found)) && clone_sets(found@)
                    == value && rest@ == input@.skip(end),
                None => read matches Err(error) && error == ParseError::Malformed,
            },
    {
        let text = chars_of(input);
        match scanner::clone_block_at(&text, 0) {
            Some((value, end)) => Ok((input.substring_char(end, text.len()), value)),
            None => Err(ParseError::Malformed),
        }
    }

    /// Reads one entry of the file description.
    pub fn parse_file_description_entry<'a>(&self, input: &'a str) -> (read: Result<
        (&'a str, (FileNumber, String)),
        ParseError,
    >)
        ensures
            match grammar::entry(input@, 0) {
                Some((value, end)) => read matches Ok((rest, found)) && found.0 == value.0
                    && found.1@ == value.1 && rest@ == input@.skip(end),
                None => read matches Err(error) && error == ParseError::Malformed,
            },
    {
        let text = chars_of(input);
        match scanner::entry_at(input, &text, 0) {
            Some((value, end)) => Ok((input.substring_char(end, text.len()), value)),
            None => Err(ParseError::Malformed),
        }
    }

    /// Reads the file description block, from `#begin{file description}` to
    /// `#end{file description}`. Of two entries with one file number the later
    /// one stays.
    pub fn parse_file_description<'a>(&self, input: &'a str) -> (read: Result<
        (&'a str, FileDescription),
        ParseError,
    >)
        ensures
            match grammar::file_description(input@, 0) {
                Some((value, end)) => read matches Ok((rest, found)) && found@
                    == grammar::entries_map(value) && rest@ == input@.skip(end),
                None => read matches Err(error) && error == ParseError::Malformed,
            },
    {
        let text = chars_of(input);
        match scanner::file_description_at(input, &text, 0) {
            Some((value, end)) => Ok((input.substring_char(end, text.len()), value)),
            None => Err(ParseError::Malformed),
        }
    }

    /// Skips a block of any name, from `#begin{` to the end of the line on
    /// which the next `#end{` stands.
    pub fn parse_block<'a>(&self, input: &'a str) -> (read: Result<(&'a str, ()), ParseError>)
        ensures
            match grammar::unknown_block(input@, 0) {
                Some((_, end)) => read matches Ok((rest, _)) && rest@ == input@.skip(end),
                None => read matches Err(error) && error == ParseError::Malformed,
            },
    {
        let text = chars_of(input);
        match scanner::unknown_block_at(&text, 0) {
            Some(end) => Ok((input.substring_char(end, text.len()), ())),
            None => Err(ParseError::Malformed),
        }
    }

    /// Skips a line that starts with `#`.
    pub fn parse_tag<'a>(&self, input: &'a str) -> (read: Result<(&'a str, ()), ParseError>)
        ensures
            match grammar::directive(input@, 0) {
                Some((_, end)) => read matches Ok((rest, _)) && rest@ == input@.skip(end),
                None => read matches Err(error) && error == ParseError::Malformed,
            },
    {
        let text = chars_of(input);
        match scanner::directive_at(&text, 0) {
            Some(end) => Ok((input.substring_char(end, text.len()), ())),
            None => Err(ParseError::Malformed),
        }
    }

    /// Reads a report. The result comes with the text that follows the last
    /// top-level item.
    pub fn parse_result<'a>(&self, input: &'a str) -> (read: Result<
        (&'a str, ParsedResult),
        ParseError,
    >)
        ensures
            match grammar::report(input@) {
                Ok((report, end)) => read matches Ok((rest, result)) && result@ == report
                    && rest@ == input@.skip(end),
                Err(error) => read matches Err(e) && e == error,
            },
    {
        let text = chars_of(input);
        let mut description: Option<FileDescription> = None;
        let mut clone: Option<Vec<CloneSet>> = None;
        let mut end: usize = 0;
        let ghost items = grammar::blocks(text@, 0).0;
        let ghost mut seen: Seq<grammar::Block> = Seq::empty();
        let ghost mut lines: Option<Seq<grammar::Entry>> = None;
        let ghost mut sets: Option<Seq<Seq<SetElement>>> = None;
        loop
            invariant
                input@ == text@,
                end <= text.len(),
                items == grammar::blocks(text@, 0).0,
                grammar::blocks(text@, 0) == (
                    seen + grammar::blocks(text@, end as int).0,
                    grammar::blocks(text@, end as int).1,
                ),
                seen.len() == 0 <==> end == 0,
                grammar::assemble(items) == grammar::assemble_from(
                    items,
                    seen.len() as int,
                    lines,
                    sets,
                ),
                description is Some <==> lines is Some,
                description is Some ==> description->0@ == grammar::entries_map(lines->0),
                clone is Some <==> sets is Some,
                clone is Some ==> clone_sets(clone->0@) == sets->0,
            decreases text.len() - end,
        {
            match scanner::block_at(input, &text, end) {
                Some((block, next)) => {
                    let ghost item = grammar::value_of(grammar::block(text@, end as int));
                    proof {
                        let others = grammar::blocks(text@, next as int).0;
                        assert(seen + (seq![item] + others) =~= seen.push(item) + others);
                        assert(items[seen.len() as int] == item);
                    }
                    match block {
                        DataBlock::FileDescription(found) => {
                            if description.is_some() {
                                return Err(
                                    ParseError::Invalid(
                                        InvalidCCFinderSWResult::new(
                                            InvalidResultKind::DuplicatedFileDescriptionBlocks,
                                        ),
                                    ),
                                );
                            }
                            proof {
                                lines = Some(item->FileDescription_0);
                            }
                            description = Some(found);
                        },
                        DataBlock::Clone(found) => {
                            if clone.is_some() {
                                return Err(
                                    ParseError::Invalid(
                                        InvalidCCFinderSWResult::new(
                                            InvalidResultKind::DuplicatedCloneBlocks,
                                        ),
                                    ),
                                );
                            }
                            proof {
                                sets = Some(item->Clone_0);
                            }
                            clone = Some(found);
                        },
                        DataBlock::Unknown => {},
                    }
                    proof {
                        seen = seen.push(item);
                    }
                    end = next;
                },
                None => {
                    proof {
                        assert(seen + Seq::<grammar::Block>::empty() =~= seen);
                    }
                    if end == 0 {
                        return Err(ParseError::Malformed);
                    }
                    return match (description, clone) {
                        (Some(file_description), Some(clone)) => Ok(
                            (
                                input.substring_char(end, text.len()),
                                ParsedResult::new(file_description, clone),
                            ),
                        ),
                        _ => Err(
                            ParseError::Invalid(
                                InvalidCCFinderSWResult::new(
                                    InvalidResultKind::MissingMandatoryBlocks,
                                ),
                            ),
                        ),
                    };
                },
            }
        }
    }
}

} // verus!
