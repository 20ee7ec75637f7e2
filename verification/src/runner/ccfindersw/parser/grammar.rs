//! The grammar of a detector report.
//!
//! A rule is a function of the whole text and of the position at which it is
//! tried. Where the text does not match there it gives `None`; otherwise it
//! gives what it read and the position just behind it. White space (blanks,
//! tabs and line breaks) may stand before any token, but a token is looked for
//! only while something other than white space is left.

use vstd::prelude::*;
use crate::clone_pair::CodePosition;
use crate::error::InvalidResultKind;
use crate::error::ParseError;
use crate::error::InvalidCCFinderSWResult;
use crate::runner::ccfindersw::parser::FileNumber;
use crate::runner::ccfindersw::parser::SetElement;
use crate::text::decimal_value;
use crate::text::is_digit;

verus! {

/// One line of a `file description` block: a file number and the path recorded
/// for it.
pub type Entry = (FileNumber, Seq<char>);

/// What one top-level item of a report holds.
pub enum Block {
    /// The entries of a `file description` block, in the order of the text.
    FileDescription(Seq<Entry>),
    /// The clone sets of a `clone` block, in the order of the text.
    Clone(Seq<Seq<SetElement>>),
    /// A block of another name, or a line that starts with `#`.
    Unknown,
}

/// What a report says: the path of each numbered file, and the clone sets.
pub struct Report {
    pub file_description: Map<FileNumber, Seq<char>>,
    pub clone: Seq<Seq<SetElement>>,
}

/// What a rule read, where it matched.
pub open spec fn value_of<T>(read: Option<(T, int)>) -> T {
    read.unwrap().0
}

/// The position behind what a rule read, where it matched.
pub open spec fn end_of<T>(read: Option<(T, int)>) -> int {
    read.unwrap().1
}

pub open spec fn is_space(c: char) -> bool {
    c == ' ' || c == '\t' || c == '\r' || c == '\n'
}

pub open spec fn is_line_break(c: char) -> bool {
    c == '\r' || c == '\n'
}

/// The first position from `from` on that holds no white space, or the length
/// of the text where only white space is left.
pub open spec fn spaces_end(text: Seq<char>, from: int) -> int
    decreases text.len() - from,
{
    if 0 <= from < text.len() && is_space(text[from]) {
        spaces_end(text, from + 1)
    } else {
        from
    }
}

/// The first position from `from` on that holds no decimal digit.
pub open spec fn digits_end(text: Seq<char>, from: int) -> int
    decreases text.len() - from,
{
    if 0 <= from < text.len() && is_digit(text[from]) {
        digits_end(text, from + 1)
    } else {
        from
    }
}

/// The first position from `from` on that holds a line break, or the length of
/// the text where the last line is not ended.
pub open spec fn line_end(text: Seq<char>, from: int) -> int
    decreases text.len() - from,
{
    if 0 <= from < text.len() && !is_line_break(text[from]) {
        line_end(text, from + 1)
    } else {
        from
    }
}

/// Where the next token starts: behind the white space at `from`. There is
/// none where nothing but white space is left.
pub open spec fn token_start(text: Seq<char>, from: int) -> Option<((), int)> {
    let start = spaces_end(text, from);
    if start < text.len() {
        Some(((), start))
    } else {
        None
    }
}

/// Whether `word` stands in the text at `from`.
pub open spec fn stands_at(text: Seq<char>, from: int, word: Seq<char>) -> bool {
    0 <= from && from + word.len() <= text.len() && text.subrange(from, from + word.len()) == word
}

/// The character `c`, with nothing before it.
pub open spec fn symbol(text: Seq<char>, from: int, c: char) -> Option<((), int)> {
    if 0 <= from < text.len() && text[from] == c {
        Some(((), from + 1))
    } else {
        None
    }
}

/// The token `word`.
pub open spec fn keyword(text: Seq<char>, from: int, word: Seq<char>) -> Option<((), int)> {
    let start = token_start(text, from);
    if start is Some && stands_at(text, end_of(start), word) {
        Some(((), end_of(start) + word.len()))
    } else {
        None
    }
}

/// An unsigned decimal number that fits in 32 bits.
pub open spec fn number(text: Seq<char>, from: int) -> Option<(u32, int)> {
    let start = token_start(text, from);
    let end = digits_end(text, end_of(start));
    let value = decimal_value(text.subrange(end_of(start), end));
    if start is Some && end_of(start) < end && value <= u32::MAX {
        Some((value as u32, end))
    } else {
        None
    }
}

/// A position, written `line,column,offset`. The offset is read and dropped.
pub open spec fn position(text: Seq<char>, from: int) -> Option<(CodePosition, int)> {
    let line = number(text, from);
    let first_comma = symbol(text, end_of(line), ',');
    let column = number(text, end_of(first_comma));
    let second_comma = symbol(text, end_of(column), ',');
    let offset = number(text, end_of(second_comma));
    if line is Some && first_comma is Some && column is Some && second_comma is Some
        && offset is Some {
        Some((CodePosition { line: value_of(line), column: value_of(column) }, end_of(offset)))
    } else {
        None
    }
}

/// A file number, written `archive.file`.
pub open spec fn file_number(text: Seq<char>, from: int) -> Option<(FileNumber, int)> {
    let archive = number(text, from);
    let dot = symbol(text, end_of(archive), '.');
    let file = number(text, end_of(dot));
    if archive is Some && dot is Some && file is Some {
        Some(((value_of(archive), value_of(file)), end_of(file)))
    } else {
        None
    }
}

/// One line of a clone set: a file number, the first and the last position of
/// the fragment, and the extent.
pub open spec fn set_element(text: Seq<char>, from: int) -> Option<(SetElement, int)> {
    let file = file_number(text, from);
    let start = position(text, end_of(file));
    let end = position(text, end_of(start));
    let extent = number(text, end_of(end));
    if file is Some && start is Some && end is Some && extent is Some {
        Some(
            (
                SetElement {
                    file_number: value_of(file),
                    start_position: value_of(start),
                    end_position: value_of(end),
                    extent: value_of(extent),
                },
                end_of(extent),
            ),
        )
    } else {
        None
    }
}

/// As many set elements as follow one another from `from` on.
pub open spec fn set_elements(text: Seq<char>, from: int) -> (Seq<SetElement>, int)
    decreases text.len() - from,
{
    let first = set_element(text, from);
    if first is Some && from < end_of(first) <= text.len() {
        let others = set_elements(text, end_of(first));
        (seq![value_of(first)] + others.0, others.1)
    } else {
        (Seq::empty(), from)
    }
}

/// A clone set: `#begin{set}`, one element or more, `#end{set}`.
pub open spec fn set_block(text: Seq<char>, from: int) -> Option<(Seq<SetElement>, int)> {
    let begin = keyword(text, from, "#begin{set}"@);
    let elements = set_elements(text, end_of(begin));
    let end = keyword(text, elements.1, "#end{set}"@);
    if begin is Some && elements.0.len() > 0 && end is Some {
        Some((elements.0, end_of(end)))
    } else {
        None
    }
}

/// As many clone sets as follow one another from `from` on.
pub open spec fn set_blocks(text: Seq<char>, from: int) -> (Seq<Seq<SetElement>>, int)
    decreases text.len() - from,
{
    let first = set_block(text, from);
    if first is Some && from < end_of(first) <= text.len() {
        let others = set_blocks(text, end_of(first));
        (seq![value_of(first)] + others.0, others.1)
    } else {
        (Seq::empty(), from)
    }
}

/// The clone block: `#begin{clone}`, one clone set or more, `#end{clone}`.
pub open spec fn clone_block(text: Seq<char>, from: int) -> Option<(Seq<Seq<SetElement>>, int)> {
    let begin = keyword(text, from, "#begin{clone}"@);
    let sets = set_blocks(text, end_of(begin));
    let end = keyword(text, sets.1, "#end{clone}"@);
    if begin is Some && sets.0.len() > 0 && end is Some {
        Some((sets.0, end_of(end)))
    } else {
        None
    }
}

/// The rest of the line at `from`, up to its line break. A carriage return
/// ends a line only together with the line feed behind it.
pub open spec fn rest_of_line(text: Seq<char>, from: int) -> Option<((), int)> {
    let stop = line_end(text, from);
    if stop < text.len() && text[stop] == '\r' && !stands_at(text, stop, seq!['\r', '\n']) {
        None
    } else {
        Some(((), stop))
    }
}

/// A line break: a line feed, alone or behind a carriage return.
pub open spec fn line_break(text: Seq<char>, from: int) -> Option<((), int)> {
    if stands_at(text, from, seq!['\n']) {
        Some(((), from + 1))
    } else if stands_at(text, from, seq!['\r', '\n']) {
        Some(((), from + 2))
    } else {
        None
    }
}

/// A text that runs from the next token to the end of its line, which must be
/// ended by a line break.
pub open spec fn text_line(text: Seq<char>, from: int) -> Option<(Seq<char>, int)> {
    let start = token_start(text, from);
    let stop = rest_of_line(text, end_of(start));
    let next = line_break(text, end_of(stop));
    if start is Some && stop is Some && next is Some {
        Some((text.subrange(end_of(start), end_of(stop)), end_of(next)))
    } else {
        None
    }
}

/// One entry of the file description: a file number, the counts of lines and
/// of tokens, which are read and dropped, and the path up to the end of the
/// line.
pub open spec fn entry(text: Seq<char>, from: int) -> Option<(Entry, int)> {
    let file = file_number(text, from);
    let lines = number(text, end_of(file));
    let tokens = number(text, end_of(lines));
    let path = text_line(text, end_of(tokens));
    if file is Some && lines is Some && tokens is Some && path is Some {
        Some(((value_of(file), value_of(path)), end_of(path)))
    } else {
        None
    }
}

/// As many entries as follow one another from `from` on.
pub open spec fn entries(text: Seq<char>, from: int) -> (Seq<Entry>, int)
    decreases text.len() - from,
{
    let first = entry(text, from);
    if first is Some && from < end_of(first) <= text.len() {
        let others = entries(text, end_of(first));
        (seq![value_of(first)] + others.0, others.1)
    } else {
        (Seq::empty(), from)
    }
}

/// The file description block: `#begin{file description}`, one entry or more,
/// `#end{file description}`.
pub open spec fn file_description(text: Seq<char>, from: int) -> Option<(Seq<Entry>, int)> {
    let begin = keyword(text, from, "#begin{file description}"@);
    let lines = entries(text, end_of(begin));
    let end = keyword(text, lines.1, "#end{file description}"@);
    if begin is Some && lines.0.len() > 0 && end is Some {
        Some((lines.0, end_of(end)))
    } else {
        None
    }
}

/// The first position from `from` on at which `word` stands.
pub open spec fn find(text: Seq<char>, from: int, word: Seq<char>) -> Option<((), int)>
    decreases text.len() - from,
{
    if from < 0 || from + word.len() > text.len() {
        None
    } else if stands_at(text, from, word) {
        Some(((), from))
    } else if from < text.len() {
        find(text, from + 1, word)
    } else {
        None
    }
}

/// A block of any name: from `#begin{` to the end of the line on which the
/// next `#end{` stands. What is between them is not looked at.
pub open spec fn unknown_block(text: Seq<char>, from: int) -> Option<((), int)> {
    let begin = keyword(text, from, "#begin{"@);
    let close = find(text, end_of(begin), "#end{"@);
    let end = rest_of_line(text, end_of(close));
    if begin is Some && close is Some && end is Some {
        end
    } else {
        None
    }
}

/// A line that starts with `#`.
pub open spec fn directive(text: Seq<char>, from: int) -> Option<((), int)> {
    let start = token_start(text, from);
    let hash = symbol(text, end_of(start), '#');
    let end = rest_of_line(text, end_of(hash));
    if start is Some && hash is Some && end is Some {
        end
    } else {
        None
    }
}

/// One top-level item: the first of file description, clone block, block of
/// any name and directive that matches.
pub open spec fn block(text: Seq<char>, from: int) -> Option<(Block, int)> {
    let description = file_description(text, from);
    let clone = clone_block(text, from);
    let unknown = unknown_block(text, from);
    let line = directive(text, from);
    if description is Some {
        Some((Block::FileDescription(value_of(description)), end_of(description)))
    } else if clone is Some {
        Some((Block::Clone(value_of(clone)), end_of(clone)))
    } else if unknown is Some {
        Some((Block::Unknown, end_of(unknown)))
    } else if line is Some {
        Some((Block::Unknown, end_of(line)))
    } else {
        None
    }
}

/// As many top-level items as follow one another from `from` on.
pub open spec fn blocks(text: Seq<char>, from: int) -> (Seq<Block>, int)
    decreases text.len() - from,
{
    let first = block(text, from);
    if first is Some && from < end_of(first) <= text.len() {
        let others = blocks(text, end_of(first));
        (seq![value_of(first)] + others.0, others.1)
    } else {
        (Seq::empty(), from)
    }
}

/// The map that a run of entries makes: of two entries with one file number
/// the later one stays.
pub open spec fn entries_map(lines: Seq<Entry>) -> Map<FileNumber, Seq<char>>
    decreases lines.len(),
{
    if lines.len() == 0 {
        Map::empty()
    } else {
        entries_map(lines.drop_last()).insert(lines.last().0, lines.last().1)
    }
}

/// The report that the items from `at` on make, where `description` and
/// `clone` hold the blocks met before `at`. A second block of either kind is
/// refused where it stands; a block that was never met is missed at the end.
pub open spec fn assemble_from(
    items: Seq<Block>,
    at: int,
    description: Option<Seq<Entry>>,
    clone: Option<Seq<Seq<SetElement>>>,
) -> Result<Report, InvalidResultKind>
    decreases items.len() - at,
{
    if at < 0 || at >= items.len() {
        if description is Some && clone is Some {
            Ok(Report { file_description: entries_map(description->0), clone: clone->0 })
        } else {
            Err(InvalidResultKind::MissingMandatoryBlocks)
        }
    } else {
        match items[at] {
            Block::FileDescription(lines) => if description is Some {
                Err(InvalidResultKind::DuplicatedFileDescriptionBlocks)
            } else {
                assemble_from(items, at + 1, Some(lines), clone)
            },
            Block::Clone(sets) => if clone is Some {
                Err(InvalidResultKind::DuplicatedCloneBlocks)
            } else {
                assemble_from(items, at + 1, description, Some(sets))
            },
            Block::Unknown => assemble_from(items, at + 1, description, clone),
        }
    }
}

/// The report that a run of top-level items makes.
pub open spec fn assemble(items: Seq<Block>) -> Result<Report, InvalidResultKind> {
    assemble_from(items, 0, None, None)
}

/// A whole report: one top-level item or more, among them one file description
/// and one clone block. What follows the last item that matches is left
/// unread; the position where it starts comes with the report.
pub open spec fn report(text: Seq<char>) -> Result<(Report, int), ParseError> {
    let items = blocks(text, 0);
    if items.0.len() == 0 {
        Err(ParseError::Malformed)
    } else {
        match assemble(items.0) {
            Ok(result) => Ok((result, items.1)),
            Err(kind) => Err(ParseError::Invalid(InvalidCCFinderSWResult { kind })),
        }
    }
}

/// The file description blocks among `items`, in their order.
pub open spec fn descriptions(items: Seq<Block>) -> Seq<Seq<Entry>>
    decreases items.len(),
{
    if items.len() == 0 {
        Seq::empty()
    } else {
        let others = descriptions(items.drop_first());
        match items[0] {
            Block::FileDescription(lines) => seq![lines] + others,
            _ => others,
        }
    }
}

/// The clone blocks among `items`, in their order.
pub open spec fn clone_blocks(items: Seq<Block>) -> Seq<Seq<Seq<SetElement>>>
    decreases items.len(),
{
    if items.len() == 0 {
        Seq::empty()
    } else {
        let others = clone_blocks(items.drop_first());
        match items[0] {
            Block::Clone(sets) => seq![sets] + others,
            _ => others,
        }
    }
}

/// Whether no two of `lines` have one file number.
pub open spec fn distinct_numbers(lines: Seq<Entry>) -> bool {
    forall|i: int, j: int| 0 <= i < j < lines.len() ==> (#[trigger] lines[i]).0 != (#[trigger] lines[j]).0
}

proof fn lemma_assemble_from(
    items: Seq<Block>,
    at: int,
    description: Option<Seq<Entry>>,
    clone: Option<Seq<Seq<SetElement>>>,
)
    requires
        0 <= at <= items.len(),
    ensures
        ({
            let found = descriptions(items.skip(at));
            let sets = clone_blocks(items.skip(at));
            let made = assemble_from(items, at, description, clone);
            if description is Some && found.len() > 0 || found.len() > 1 || clone is Some
                && sets.len() > 0 || sets.len() > 1 {
                made == Err::<Report, InvalidResultKind>(
                    InvalidResultKind::DuplicatedFileDescriptionBlocks,
                ) || made == Err::<Report, InvalidResultKind>(
                    InvalidResultKind::DuplicatedCloneBlocks,
                )
            } else if (description is Some || found.len() == 1) && (clone is Some || sets.len()
                == 1) {
                made == Ok::<Report, InvalidResultKind>(
                    Report {
                        file_description: entries_map(
                            if description is Some {
                                description->0
                            } else {
                                found[0]
                            },
                        ),
                        clone: if clone is Some {
                            clone->0
                        } else {
                            sets[0]
                        },
                    },
                )
            } else {
                made == Err::<Report, InvalidResultKind>(InvalidResultKind::MissingMandatoryBlocks)
            }
        }),
    decreases items.len() - at,
{
    if at < items.len() {
        assert(items.skip(at).drop_first() =~= items.skip(at + 1));
        assert(items.skip(at)[0] == items[at]);
        match items[at] {
            Block::FileDescription(lines) => {
                if description is None {
                    lemma_assemble_from(items, at + 1, Some(lines), clone);
                }
            },
            Block::Clone(found) => {
                if clone is None {
                    lemma_assemble_from(items, at + 1, description, Some(found));
                }
            },
            Block::Unknown => {
                lemma_assemble_from(items, at + 1, description, clone);
            },
        }
    }
}

/// Items with exactly one file description and exactly one clone block among
/// them make the report that these two blocks hold.
pub proof fn lemma_one_block_of_each_kind_makes_the_report(items: Seq<Block>)
    requires
        descriptions(items).len() == 1,
        clone_blocks(items).len() == 1,
    ensures
        assemble(items) == Ok::<Report, InvalidResultKind>(
            Report {
                file_description: entries_map(descriptions(items)[0]),
                clone: clone_blocks(items)[0],
            },
        ),
{
    assert(items.skip(0) =~= items);
    lemma_assemble_from(items, 0, None, None);
}

/// Items that lack the file description or the clone block, or hold two of
/// either, make no report.
pub proof fn lemma_missing_or_repeated_block_makes_no_report(items: Seq<Block>)
    requires
        descriptions(items).len() != 1 || clone_blocks(items).len() != 1,
    ensures
        assemble(items) is Err,
        descriptions(items).len() <= 1 && clone_blocks(items).len() <= 1 ==> assemble(items)
            == Err::<Report, InvalidResultKind>(InvalidResultKind::MissingMandatoryBlocks),
        descriptions(items).len() > 1 || clone_blocks(items).len() > 1 ==> assemble(items)
            == Err::<Report, InvalidResultKind>(
            InvalidResultKind::DuplicatedFileDescriptionBlocks,
        ) || assemble(items) == Err::<Report, InvalidResultKind>(
            InvalidResultKind::DuplicatedCloneBlocks,
        ),
{
    assert(items.skip(0) =~= items);
    lemma_assemble_from(items, 0, None, None);
}

/// Whether one of `lines` has the file number `number`.
pub open spec fn has_number(lines: Seq<Entry>, number: FileNumber) -> bool {
    exists|i: int| 0 <= i < lines.len() && (#[trigger] lines[i]).0 == number
}

/// The map of a run of entries has a path for each of their file numbers and
/// for no other.
pub proof fn lemma_entries_map_domain(lines: Seq<Entry>)
    ensures
        entries_map(lines).dom().finite(),
        forall|number: FileNumber|
            #[trigger] entries_map(lines).contains_key(number) <==> has_number(lines, number),
    decreases lines.len(),
{
    if lines.len() > 0 {
        let front = lines.drop_last();
        lemma_entries_map_domain(front);
        assert forall|number: FileNumber| #[trigger]
            entries_map(lines).contains_key(number) <==> has_number(lines, number) by {
            if has_number(front, number) {
                let i = choose|i: int| 0 <= i < front.len() && (#[trigger] front[i]).0 == number;
                assert(lines[i].0 == number);
            }
            if number == lines.last().0 {
                assert(lines[lines.len() - 1].0 == number);
            }
            if has_number(lines, number) && number != lines.last().0 {
                let i = choose|i: int| 0 <= i < lines.len() && (#[trigger] lines[i]).0 == number;
                assert(front[i].0 == number);
            }
        }
    }
}

/// In the map of a run of entries, an entry whose file number no later entry
/// repeats keeps its path.
pub proof fn lemma_entries_map_keeps_last(lines: Seq<Entry>, at: int)
    requires
        0 <= at < lines.len(),
        forall|j: int| at < j < lines.len() ==> (#[trigger] lines[j]).0 != lines[at].0,
    ensures
        entries_map(lines).contains_key(lines[at].0),
        entries_map(lines)[lines[at].0] == lines[at].1,
    decreases lines.len(),
{
    if at < lines.len() - 1 {
        let front = lines.drop_last();
        assert(lines[lines.len() - 1].0 != lines[at].0);
        assert(front[at] == lines[at]);
        assert forall|j: int| at < j < front.len() implies (#[trigger] front[j]).0
            != front[at].0 by {
            assert(lines[j].0 != lines[at].0);
        }
        lemma_entries_map_keeps_last(front, at);
    }
}

/// The map of a run of entries is as large as the run where no file number
/// comes twice, and never larger.
pub proof fn lemma_entries_map_size(lines: Seq<Entry>)
    ensures
        entries_map(lines).dom().finite(),
        entries_map(lines).dom().len() <= lines.len(),
        distinct_numbers(lines) ==> entries_map(lines).dom().len() == lines.len(),
    decreases lines.len(),
{
    lemma_entries_map_domain(lines);
    if lines.len() > 0 {
        let front = lines.drop_last();
        lemma_entries_map_size(front);
        lemma_entries_map_domain(front);
        if distinct_numbers(lines) {
            assert forall|i: int, j: int| 0 <= i < j < front.len() implies (#[trigger] front[i]).0
                != (#[trigger] front[j]).0 by {
                assert(lines[i].0 != lines[j].0);
            }
            if has_number(front, lines.last().0) {
                let i = choose|i: int|
                    0 <= i < front.len() && (#[trigger] front[i]).0 == lines.last().0;
                assert(lines[i].0 != lines[lines.len() - 1].0);
            }
            assert(!entries_map(front).contains_key(lines.last().0));
        }
    }
}

/// A report with exactly one file description and exactly one clone block is
/// read, and it is read as what these two blocks hold: as many clone sets as
/// the clone block has, and a path for each file number of the file
/// description, the last one where a number is repeated.
pub proof fn lemma_report_with_one_block_of_each_kind(text: Seq<char>)
    requires
        descriptions(blocks(text, 0).0).len() == 1,
        clone_blocks(blocks(text, 0).0).len() == 1,
    ensures
        ({
            let lines = descriptions(blocks(text, 0).0)[0];
            let sets = clone_blocks(blocks(text, 0).0)[0];
            &&& report(text) matches Ok((result, end))
            &&& end == blocks(text, 0).1
            &&& result.clone == sets
            &&& result.file_description == entries_map(lines)
            &&& result.file_description.dom().len() <= lines.len()
            &&& distinct_numbers(lines) ==> result.file_description.dom().len() == lines.len()
        }),
{
    let items = blocks(text, 0).0;
    lemma_one_block_of_each_kind_makes_the_report(items);
    lemma_entries_map_size(descriptions(items)[0]);
    if items.len() == 0 {
        assert(descriptions(items).len() == 0);
    }
}

/// A report that lacks the file description or the clone block, or holds two
/// of either, is not read.
pub proof fn lemma_report_without_one_block_of_each_kind(text: Seq<char>)
    requires
        descriptions(blocks(text, 0).0).len() != 1 || clone_blocks(blocks(text, 0).0).len() != 1,
    ensures
        report(text) is Err,
{
    lemma_missing_or_repeated_block_makes_no_report(blocks(text, 0).0);
}

/// Where nothing but white space is left, no token starts.
pub proof fn lemma_white_space_holds_no_token(text: Seq<char>, from: int)
    requires
        0 <= from <= text.len(),
        forall|i: int| from <= i < text.len() ==> is_space(#[trigger] text[i]),
    ensures
        spaces_end(text, from) == text.len(),
        token_start(text, from) is None,
    decreases text.len() - from,
{
    if from < text.len() {
        lemma_white_space_holds_no_token(text, from + 1);
    }
}

/// Where nothing but white space is left, no top-level item starts, and the
/// run of items ends there.
pub proof fn lemma_white_space_ends_the_report(text: Seq<char>, from: int)
    requires
        0 <= from <= text.len(),
        forall|i: int| from <= i < text.len() ==> is_space(#[trigger] text[i]),
    ensures
        block(text, from) is None,
        blocks(text, from) == (Seq::<Block>::empty(), from),
{
    lemma_white_space_holds_no_token(text, from);
}

/// The runs of white space, of digits and of a line end inside the text.
pub proof fn lemma_runs_end_inside(text: Seq<char>, from: int)
    requires
        0 <= from <= text.len(),
    ensures
        from <= spaces_end(text, from) <= text.len(),
        from <= digits_end(text, from) <= text.len(),
        from <= line_end(text, from) <= text.len(),
    decreases text.len() - from,
{
    if from < text.len() {
        lemma_runs_end_inside(text, from + 1);
    }
}

/// A word is found inside the text, at or behind the place where it is looked
/// for.
pub proof fn lemma_find_is_inside(text: Seq<char>, from: int, word: Seq<char>)
    requires
        0 <= from <= text.len(),
    ensures
        find(text, from, word) matches Some((_, at)) ==> from <= at <= text.len(),
    decreases text.len() - from,
{
    if from + word.len() <= text.len() && !stands_at(text, from, word) && from < text.len() {
        lemma_find_is_inside(text, from + 1, word);
    }
}

/// A token, a number, a position, a file number, a set element and an entry
/// that match end inside the text, behind the place where they start.
pub proof fn lemma_tokens_advance(text: Seq<char>, from: int)
    requires
        0 <= from <= text.len(),
    ensures
        token_start(text, from) matches Some((_, end)) ==> from <= end < text.len(),
        rest_of_line(text, from) matches Some((_, end)) ==> from <= end <= text.len(),
        line_break(text, from) matches Some((_, end)) ==> from < end <= text.len(),
        number(text, from) matches Some((_, end)) ==> from < end <= text.len(),
        file_number(text, from) matches Some((_, end)) ==> from < end <= text.len(),
        position(text, from) matches Some((_, end)) ==> from < end <= text.len(),
        set_element(text, from) matches Some((_, end)) ==> from < end <= text.len(),
        text_line(text, from) matches Some((_, end)) ==> from < end <= text.len(),
        entry(text, from) matches Some((_, end)) ==> from < end <= text.len(),
        directive(text, from) matches Some((_, end)) ==> from < end <= text.len(),
{
    lemma_number_advances(text, from);
    lemma_runs_end_inside(text, from);
    if token_start(text, from) is Some {
        let start = end_of(token_start(text, from));
        lemma_runs_end_inside(text, start);
        if rest_of_line(text, start) is Some {
            lemma_runs_end_inside(text, end_of(rest_of_line(text, start)));
        }
        if symbol(text, start, '#') is Some {
            lemma_runs_end_inside(text, start + 1);
        }
    }
    lemma_position_advances(text, from);
    let first = number(text, from);
    if first is Some {
        let dot = symbol(text, end_of(first), '.');
        if dot is Some {
            lemma_number_advances(text, end_of(dot));
        }
    }
    let file = file_number(text, from);
    if file is Some {
        lemma_position_advances(text, end_of(file));
        let start = position(text, end_of(file));
        if start is Some {
            lemma_position_advances(text, end_of(start));
            let end = position(text, end_of(start));
            if end is Some {
                lemma_number_advances(text, end_of(end));
            }
        }
        lemma_number_advances(text, end_of(file));
        let lines = number(text, end_of(file));
        if lines is Some {
            lemma_number_advances(text, end_of(lines));
            let tokens = number(text, end_of(lines));
            if tokens is Some {
                lemma_text_line_advances(text, end_of(tokens));
            }
        }
    }
    lemma_text_line_advances(text, from);
}

proof fn lemma_number_advances(text: Seq<char>, from: int)
    requires
        0 <= from <= text.len(),
    ensures
        number(text, from) matches Some((_, end)) ==> from < end <= text.len(),
{
    lemma_runs_end_inside(text, from);
    if token_start(text, from) is Some {
        lemma_runs_end_inside(text, end_of(token_start(text, from)));
    }
}

proof fn lemma_position_advances(text: Seq<char>, from: int)
    requires
        0 <= from <= text.len(),
    ensures
        position(text, from) matches Some((_, end)) ==> from < end <= text.len(),
{
    lemma_number_advances(text, from);
    let first = number(text, from);
    if first is Some {
        let comma = symbol(text, end_of(first), ',');
        if comma is Some {
            lemma_number_advances(text, end_of(comma));
            let second = number(text, end_of(comma));
            if second is Some {
                let other = symbol(text, end_of(second), ',');
                if other is Some {
                    lemma_number_advances(text, end_of(other));
                }
            }
        }
    }
}

proof fn lemma_text_line_advances(text: Seq<char>, from: int)
    requires
        0 <= from <= text.len(),
    ensures
        text_line(text, from) matches Some((_, end)) ==> from < end <= text.len(),
{
    lemma_runs_end_inside(text, from);
    if token_start(text, from) is Some {
        let start = end_of(token_start(text, from));
        lemma_runs_end_inside(text, start);
    }
}

/// The runs of set elements, of clone sets, of entries and of top-level items
/// end inside the text.
pub proof fn lemma_runs_of_items_end_inside(text: Seq<char>, from: int)
    requires
        0 <= from <= text.len(),
    ensures
        from <= set_elements(text, from).1 <= text.len(),
        from <= set_blocks(text, from).1 <= text.len(),
        from <= entries(text, from).1 <= text.len(),
        from <= blocks(text, from).1 <= text.len(),
    decreases text.len() - from,
{
    let element = set_element(text, from);
    if element is Some && from < end_of(element) <= text.len() {
        lemma_runs_of_items_end_inside(text, end_of(element));
    }
    let set = set_block(text, from);
    if set is Some && from < end_of(set) <= text.len() {
        lemma_runs_of_items_end_inside(text, end_of(set));
    }
    let line = entry(text, from);
    if line is Some && from < end_of(line) <= text.len() {
        lemma_runs_of_items_end_inside(text, end_of(line));
    }
    let item = block(text, from);
    if item is Some && from < end_of(item) <= text.len() {
        lemma_runs_of_items_end_inside(text, end_of(item));
    }
}

/// A keyword that matches ends inside the text, as many characters behind
/// the place where it is looked for as it is long, or more.
pub proof fn lemma_keyword_advances(text: Seq<char>, from: int, word: Seq<char>)
    requires
        0 <= from <= text.len(),
    ensures
        keyword(text, from, word) matches Some((_, end)) ==> from + word.len() <= end
            <= text.len(),
{
    lemma_runs_end_inside(text, from);
}

/// A clone set, a clone block, a file description, a block of any name and
/// any top-level item that match end inside the text, behind the place where
/// they start. So a run of items never stops at an item that matches.
pub proof fn lemma_blocks_advance(text: Seq<char>, from: int)
    requires
        0 <= from <= text.len(),
    ensures
        set_block(text, from) matches Some((_, end)) ==> from < end <= text.len(),
        clone_block(text, from) matches Some((_, end)) ==> from < end <= text.len(),
        file_description(text, from) matches Some((_, end)) ==> from < end <= text.len(),
        unknown_block(text, from) matches Some((_, end)) ==> from < end <= text.len(),
        block(text, from) matches Some((_, end)) ==> from < end <= text.len(),
{
    reveal_strlit("#begin{set}");
    reveal_strlit("#begin{clone}");
    reveal_strlit("#begin{file description}");
    reveal_strlit("#begin{");
    lemma_tokens_advance(text, from);
    lemma_keyword_advances(text, from, "#begin{set}"@);
    let begin = keyword(text, from, "#begin{set}"@);
    if begin is Some {
        lemma_runs_of_items_end_inside(text, end_of(begin));
        lemma_keyword_advances(text, set_elements(text, end_of(begin)).1, "#end{set}"@);
    }
    lemma_keyword_advances(text, from, "#begin{clone}"@);
    let begin = keyword(text, from, "#begin{clone}"@);
    if begin is Some {
        lemma_runs_of_items_end_inside(text, end_of(begin));
        lemma_keyword_advances(text, set_blocks(text, end_of(begin)).1, "#end{clone}"@);
    }
    lemma_keyword_advances(text, from, "#begin{file description}"@);
    let begin = keyword(text, from, "#begin{file description}"@);
    if begin is Some {
        lemma_runs_of_items_end_inside(text, end_of(begin));
        lemma_keyword_advances(
            text,
            entries(text, end_of(begin)).1,
            "#end{file description}"@,
        );
    }
    lemma_keyword_advances(text, from, "#begin{"@);
    let begin = keyword(text, from, "#begin{"@);
    if begin is Some {
        lemma_find_is_inside(text, end_of(begin), "#end{"@);
        let close = find(text, end_of(begin), "#end{"@);
        if close is Some {
            lemma_runs_end_inside(text, end_of(close));
        }
    }
}

} // verus!
