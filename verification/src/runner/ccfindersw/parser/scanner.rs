//! The rules of the grammar as they run over a text held as a vector of
//! characters. Each function reads at a position of the text and gives what the
//! rule of the same name gives there.

use vstd::prelude::*;
use crate::clone_pair::CodePosition;
use crate::runner::ccfindersw::parser::grammar;
use crate::runner::ccfindersw::parser::clone_sets;
use crate::runner::ccfindersw::parser::CloneSet;
use crate::runner::ccfindersw::parser::FileDescription;
use crate::runner::ccfindersw::parser::FileNumber;
use crate::runner::ccfindersw::parser::SetElement;
use crate::text::chars_of;
use crate::text::decimal_value;
use crate::text::is_digit_char;

verus! {

fn is_space_char(c: char) -> (yes: bool)
    ensures
        yes == grammar::is_space(c),
{
    c == ' ' || c == '\t' || c == '\r' || c == '\n'
}

fn is_line_break_char(c: char) -> (yes: bool)
    ensures
        yes == grammar::is_line_break(c),
{
    c == '\r' || c == '\n'
}

pub(crate) fn spaces_end_at(text: &Vec<char>, from: usize) -> (end: usize)
    requires
        from <= text.len(),
    ensures
        end == grammar::spaces_end(text@, from as int),
        from <= end <= text.len(),
{
    let mut end = from;
    while end < text.len() && is_space_char(text[end])
        invariant
            from <= end <= text.len(),
            grammar::spaces_end(text@, from as int) == grammar::spaces_end(text@, end as int),
        decreases text.len() - end,
    {
        end += 1;
    }
    end
}

pub(crate) fn line_end_at(text: &Vec<char>, from: usize) -> (end: usize)
    requires
        from <= text.len(),
    ensures
        end == grammar::line_end(text@, from as int),
        from <= end <= text.len(),
{
    let mut end = from;
    while end < text.len() && !is_line_break_char(text[end])
        invariant
            from <= end <= text.len(),
            grammar::line_end(text@, from as int) == grammar::line_end(text@, end as int),
        decreases text.len() - end,
    {
        end += 1;
    }
    end
}

pub(crate) fn token_start_at(text: &Vec<char>, from: usize) -> (read: Option<usize>)
    requires
        from <= text.len(),
    ensures
        match read {
            Some(start) => grammar::token_start(text@, from as int) == Some(((), start as int)) && from
                <= start < text.len(),
            None => grammar::token_start(text@, from as int) is None,
        },
{
    let start = spaces_end_at(text, from);
    if start < text.len() {
        Some(start)
    } else {
        None
    }
}

pub(crate) fn symbol_at(text: &Vec<char>, from: usize, c: char) -> (read: Option<usize>)
    requires
        from <= text.len(),
    ensures
        match read {
            Some(end) => grammar::symbol(text@, from as int, c) == Some(((), end as int)) && from < end
                <= text.len(),
            None => grammar::symbol(text@, from as int, c) is None,
        },
{
    if from < text.len() && text[from] == c {
        Some(from + 1)
    } else {
        None
    }
}

/// Whether `word` stands in `text` at `from`.
pub(crate) fn stands_at_in(text: &Vec<char>, from: usize, word: &Vec<char>) -> (yes: bool)
    requires
        from <= text.len(),
    ensures
        yes == grammar::stands_at(text@, from as int, word@),
{
    if word.len() > text.len() - from {
        return false;
    }
    let mut i: usize = 0;
    while i < word.len()
        invariant
            from + word.len() <= text.len(),
            i <= word.len(),
            forall|j: int| 0 <= j < i ==> text@[from + j] == word@[j],
        decreases word.len() - i,
    {
        if text[from + i] != word[i] {
            assert(text@.subrange(from as int, from + word.len())[i as int] == text@[from + i]);
            return false;
        }
        i += 1;
    }
    assert(text@.subrange(from as int, from + word.len()) =~= word@);
    true
}

pub(crate) fn keyword_at(text: &Vec<char>, from: usize, word: &str) -> (read: Option<usize>)
    requires
        from <= text.len(),
    ensures
        match read {
            Some(end) => grammar::keyword(text@, from as int, word@) == Some(((), end as int)) && from
                <= end <= text.len() && end - from >= word@.len(),
            None => grammar::keyword(text@, from as int, word@) is None,
        },
{
    let letters = chars_of(word);
    match token_start_at(text, from) {
        Some(start) => if stands_at_in(text, start, &letters) {
            Some(start + letters.len())
        } else {
            None
        },
        None => None,
    }
}

pub(crate) fn number_at(text: &Vec<char>, from: usize) -> (read: Option<(u32, usize)>)
    requires
        from <= text.len(),
    ensures
        match read {
            Some((value, end)) => grammar::number(text@, from as int) == Some((value, end as int)) && from
                < end <= text.len(),
            None => grammar::number(text@, from as int) is None,
        },
{
    let start = match token_start_at(text, from) {
        Some(start) => start,
        None => { return None; },
    };
    let limit: u64 = 0x1_0000_0000;
    let mut end = start;
    let mut value: u64 = 0;
    assert(text@.subrange(start as int, start as int) =~= Seq::<char>::empty());
    while end < text.len() && is_digit_char(text[end])
        invariant
            start <= end <= text.len(),
            limit == 0x1_0000_0000,
            grammar::digits_end(text@, start as int) == grammar::digits_end(text@, end as int),
            value <= limit,
            value < limit ==> value == decimal_value(text@.subrange(start as int, end as int)),
            value == limit ==> decimal_value(text@.subrange(start as int, end as int)) >= limit,
        decreases text.len() - end,
    {
        let digit: u64 = (text[end] as u32 - '0' as u32) as u64;
        proof {
            let run = text@.subrange(start as int, end + 1);
            assert(run.drop_last() =~= text@.subrange(start as int, end as int));
            assert(run.last() == text@[end as int]);
        }
        if value < limit {
            value = 10 * value + digit;
            if value > limit {
                value = limit;
            }
        }
        end += 1;
    }
    if start < end && value < limit {
        Some((value as u32, end))
    } else {
        None
    }
}

pub(crate) fn position_at(text: &Vec<char>, from: usize) -> (read: Option<(CodePosition, usize)>)
    requires
        from <= text.len(),
    ensures
        match read {
            Some((value, end)) => grammar::position(text@, from as int) == Some(
                (value, end as int),
            ) && from < end <= text.len(),
            None => grammar::position(text@, from as int) is None,
        },
{
    let (line, end) = match number_at(text, from) {
        Some(read) => read,
        None => { return None; },
    };
    let end = match symbol_at(text, end, ',') {
        Some(end) => end,
        None => { return None; },
    };
    let (column, end) = match number_at(text, end) {
        Some(read) => read,
        None => { return None; },
    };
    let end = match symbol_at(text, end, ',') {
        Some(end) => end,
        None => { return None; },
    };
    match number_at(text, end) {
        Some((_, end)) => Some((CodePosition::new(line, column), end)),
        None => None,
    }
}

pub(crate) fn file_number_at(text: &Vec<char>, from: usize) -> (read: Option<(FileNumber, usize)>)
    requires
        from <= text.len(),
    ensures
        match read {
            Some((value, end)) => grammar::file_number(text@, from as int) == Some(
                (value, end as int),
            ) && from < end <= text.len(),
            None => grammar::file_number(text@, from as int) is None,
        },
{
    let (archive, end) = match number_at(text, from) {
        Some(read) => read,
        None => { return None; },
    };
    let end = match symbol_at(text, end, '.') {
        Some(end) => end,
        None => { return None; },
    };
    match number_at(text, end) {
        Some((file, end)) => Some(((archive, file), end)),
        None => None,
    }
}

pub(crate) fn set_element_at(text: &Vec<char>, from: usize) -> (read: Option<(SetElement, usize)>)
    requires
        from <= text.len(),
    ensures
        match read {
            Some((value, end)) => grammar::set_element(text@, from as int) == Some(
                (value, end as int),
            ) && from < end <= text.len(),
            None => grammar::set_element(text@, from as int) is None,
        },
{
    let (file, end) = match file_number_at(text, from) {
        Some(read) => read,
        None => { return None; },
    };
    let (start_position, end) = match position_at(text, end) {
        Some(read) => read,
        None => { return None; },
    };
    let (end_position, end) = match position_at(text, end) {
        Some(read) => read,
        None => { return None; },
    };
    match number_at(text, end) {
        Some((extent, end)) => Some(
            (SetElement::new(file, start_position, end_position, extent), end),
        ),
        None => None,
    }
}

pub(crate) fn set_elements_at(text: &Vec<char>, from: usize) -> (read: (Vec<SetElement>, usize))
    requires
        from <= text.len(),
    ensures
        grammar::set_elements(text@, from as int) == (read.0@, read.1 as int),
        from <= read.1 <= text.len(),
{
    let mut elements: Vec<SetElement> = Vec::new();
    let mut end = from;
    loop
        invariant
            from <= end <= text.len(),
            grammar::set_elements(text@, from as int) == (
                elements@ + grammar::set_elements(text@, end as int).0,
                grammar::set_elements(text@, end as int).1,
            ),
        decreases text.len() - end,
    {
        match set_element_at(text, end) {
            Some((element, next)) => {
                proof {
                    let others = grammar::set_elements(text@, next as int).0;
                    assert(elements@ + (seq![element] + others) =~= elements@.push(element)
                        + others);
                }
                elements.push(element);
                end = next;
            },
            None => {
                assert(elements@ + Seq::<SetElement>::empty() =~= elements@);
                return (elements, end);
            },
        }
    }
}

pub(crate) fn set_block_at(text: &Vec<char>, from: usize) -> (read: Option<(Vec<SetElement>, usize)>)
    requires
        from <= text.len(),
    ensures
        match read {
            Some((value, end)) => grammar::set_block(text@, from as int) == Some(
                (value@, end as int),
            ) && from < end <= text.len(),
            None => grammar::set_block(text@, from as int) is None,
        },
{
    proof {
        reveal_strlit("#begin{set}");
    }
    let end = match keyword_at(text, from, "#begin{set}") {
        Some(end) => end,
        None => { return None; },
    };
    let (elements, end) = set_elements_at(text, end);
    if elements.len() == 0 {
        return None;
    }
    match keyword_at(text, end, "#end{set}") {
        Some(end) => Some((elements, end)),
        None => None,
    }
}

pub(crate) fn set_blocks_at(text: &Vec<char>, from: usize) -> (read: (Vec<CloneSet>, usize))
    requires
        from <= text.len(),
    ensures
        grammar::set_blocks(text@, from as int) == (clone_sets(read.0@), read.1 as int),
        from <= read.1 <= text.len(),
{
    let mut sets: Vec<CloneSet> = Vec::new();
    let mut end = from;
    assert(clone_sets(sets@) =~= Seq::empty());
    loop
        invariant
            from <= end <= text.len(),
            grammar::set_blocks(text@, from as int) == (
                clone_sets(sets@) + grammar::set_blocks(text@, end as int).0,
                grammar::set_blocks(text@, end as int).1,
            ),
        decreases text.len() - end,
    {
        match set_block_at(text, end) {
            Some((elements, next)) => {
                let set = CloneSet::new(elements);
                proof {
                    let others = grammar::set_blocks(text@, next as int).0;
                    assert(clone_sets(sets@.push(set)) =~= clone_sets(sets@).push(set@));
                    assert(clone_sets(sets@) + (seq![set@] + others) =~= clone_sets(sets@).push(
                        set@,
                    ) + others);
                }
                sets.push(set);
                end = next;
            },
            None => {
                assert(clone_sets(sets@) + Seq::<Seq<SetElement>>::empty() =~= clone_sets(sets@));
                return (sets, end);
            },
        }
    }
}

pub(crate) fn clone_block_at(text: &Vec<char>, from: usize) -> (read: Option<(Vec<CloneSet>, usize)>)
    requires
        from <= text.len(),
    ensures
        match read {
            Some((value, end)) => grammar::clone_block(text@, from as int) == Some(
                (clone_sets(value@), end as int),
            ) && from < end <= text.len(),
            None => grammar::clone_block(text@, from as int) is None,
        },
{
    proof {
        reveal_strlit("#begin{clone}");
    }
    let end = match keyword_at(text, from, "#begin{clone}") {
        Some(end) => end,
        None => { return None; },
    };
    let (sets, end) = set_blocks_at(text, end);
    if sets.len() == 0 {
        return None;
    }
    match keyword_at(text, end, "#end{clone}") {
        Some(end) => Some((sets, end)),
        None => None,
    }
}

/// Whether a carriage return and a line feed stand in `text` at `from`.
fn line_feed_follows(text: &Vec<char>, from: usize) -> (yes: bool)
    requires
        from <= text.len(),
    ensures
        yes == grammar::stands_at(text@, from as int, seq!['\r', '\n']),
{
    if text.len() - from >= 2 && text[from] == '\r' && text[from + 1] == '\n' {
        assert(text@.subrange(from as int, from + 2) =~= seq!['\r', '\n']);
        true
    } else {
        proof {
            if from + 2 <= text.len() {
                let pair = text@.subrange(from as int, from + 2);
                assert(pair[0] == text@[from as int] && pair[1] == text@[from + 1]);
            }
        }
        false
    }
}

pub(crate) fn rest_of_line_at(text: &Vec<char>, from: usize) -> (read: Option<usize>)
    requires
        from <= text.len(),
    ensures
        match read {
            Some(end) => grammar::rest_of_line(text@, from as int) == Some(((), end as int))
                && from <= end <= text.len(),
            None => grammar::rest_of_line(text@, from as int) is None,
        },
{
    let stop = line_end_at(text, from);
    if stop < text.len() && text[stop] == '\r' && !line_feed_follows(text, stop) {
        None
    } else {
        Some(stop)
    }
}

pub(crate) fn line_break_at(text: &Vec<char>, from: usize) -> (read: Option<usize>)
    requires
        from <= text.len(),
    ensures
        match read {
            Some(end) => grammar::line_break(text@, from as int) == Some(((), end as int))
                && from < end <= text.len(),
            None => grammar::line_break(text@, from as int) is None,
        },
{
    if from < text.len() && text[from] == '\n' {
        assert(text@.subrange(from as int, from + 1) =~= seq!['\n']);
        Some(from + 1)
    } else {
        proof {
            if from + 1 <= text.len() {
                assert(text@.subrange(from as int, from + 1)[0] == text@[from as int]);
            }
        }
        if line_feed_follows(text, from) {
            Some(from + 2)
        } else {
            None
        }
    }
}

pub(crate) fn text_line_at(source: &str, text: &Vec<char>, from: usize) -> (read: Option<
    (String, usize),
>)
    requires
        source@ == text@,
        from <= text.len(),
    ensures
        match read {
            Some((value, end)) => grammar::text_line(text@, from as int) == Some(
                (value@, end as int),
            ) && from < end <= text.len(),
            None => grammar::text_line(text@, from as int) is None,
        },
{
    let start = match token_start_at(text, from) {
        Some(start) => start,
        None => { return None; },
    };
    let stop = match rest_of_line_at(text, start) {
        Some(stop) => stop,
        None => { return None; },
    };
    match line_break_at(text, stop) {
        Some(end) => Some((source.substring_char(start, stop).to_owned(), end)),
        None => None,
    }
}

pub(crate) fn entry_at(source: &str, text: &Vec<char>, from: usize) -> (read: Option<
    ((FileNumber, String), usize),
>)
    requires
        source@ == text@,
        from <= text.len(),
    ensures
        match read {
            Some((value, end)) => grammar::entry(text@, from as int) == Some(
                ((value.0, value.1@), end as int),
            ) && from < end <= text.len(),
            None => grammar::entry(text@, from as int) is None,
        },
{
    let (file, end) = match file_number_at(text, from) {
        Some(read) => read,
        None => { return None; },
    };
    let (_, end) = match number_at(text, end) {
        Some(read) => read,
        None => { return None; },
    };
    let (_, end) = match number_at(text, end) {
        Some(read) => read,
        None => { return None; },
    };
    match text_line_at(source, text, end) {
        Some((path, end)) => Some(((file, path), end)),
        None => None,
    }
}

/// The entries from `from` on, gathered into a description, with their count.
pub(crate) fn entries_at(source: &str, text: &Vec<char>, from: usize) -> (read: (
    FileDescription,
    usize,
    usize,
))
    requires
        source@ == text@,
        from <= text.len(),
    ensures
        read.0@ == grammar::entries_map(grammar::entries(text@, from as int).0),
        read.1 == grammar::entries(text@, from as int).0.len(),
        read.2 == grammar::entries(text@, from as int).1,
        from <= read.2 <= text.len(),
{
    let mut description = FileDescription::new();
    let mut count: usize = 0;
    let mut end = from;
    let ghost mut lines: Seq<grammar::Entry> = Seq::empty();
    loop
        invariant
            source@ == text@,
            from <= end <= text.len(),
            count == lines.len(),
            count <= end - from,
            description@ == grammar::entries_map(lines),
            grammar::entries(text@, from as int) == (
                lines + grammar::entries(text@, end as int).0,
                grammar::entries(text@, end as int).1,
            ),
        decreases text.len() - end,
    {
        match entry_at(source, text, end) {
            Some(((file, path), next)) => {
                proof {
                    let line = (file, path@);
                    let others = grammar::entries(text@, next as int).0;
                    assert(lines + (seq![line] + others) =~= lines.push(line) + others);
                    assert(lines.push(line).drop_last() =~= lines);
                    lines = lines.push(line);
                }
                description.insert(file, path);
                count += 1;
                end = next;
            },
            None => {
                assert(lines + Seq::<grammar::Entry>::empty() =~= lines);
                return (description, count, end);
            },
        }
    }
}

pub(crate) fn file_description_at(source: &str, text: &Vec<char>, from: usize) -> (read: Option<
    (FileDescription, usize),
>)
    requires
        source@ == text@,
        from <= text.len(),
    ensures
        match read {
            Some((value, end)) => {
                let rule = grammar::file_description(text@, from as int);
                rule is Some && value@ == grammar::entries_map(grammar::value_of(rule)) && end
                    == grammar::end_of(rule) && from < end <= text.len()
            },
            None => grammar::file_description(text@, from as int) is None,
        },
{
    proof {
        reveal_strlit("#begin{file description}");
    }
    let end = match keyword_at(text, from, "#begin{file description}") {
        Some(end) => end,
        None => { return None; },
    };
    let (description, count, end) = entries_at(source, text, end);
    if count == 0 {
        return None;
    }
    match keyword_at(text, end, "#end{file description}") {
        Some(end) => Some((description, end)),
        None => None,
    }
}

pub(crate) fn find_at(text: &Vec<char>, from: usize, word: &Vec<char>) -> (read: Option<usize>)
    requires
        from <= text.len(),
    ensures
        match read {
            Some(at) => grammar::find(text@, from as int, word@) == Some(((), at as int)) && from
                <= at <= text.len(),
            None => grammar::find(text@, from as int, word@) is None,
        },
{
    let mut at = from;
    while word.len() <= text.len() - at
        invariant
            from <= at <= text.len(),
            grammar::find(text@, from as int, word@) == grammar::find(text@, at as int, word@),
        decreases text.len() - at,
    {
        if stands_at_in(text, at, word) {
            return Some(at);
        }
        if at == text.len() {
            return None;
        }
        at += 1;
    }
    None
}

pub(crate) fn unknown_block_at(text: &Vec<char>, from: usize) -> (read: Option<usize>)
    requires
        from <= text.len(),
    ensures
        match read {
            Some(end) => grammar::unknown_block(text@, from as int) == Some(((), end as int))
                && from < end <= text.len(),
            None => grammar::unknown_block(text@, from as int) is None,
        },
{
    proof {
        reveal_strlit("#begin{");
    }
    let end = match keyword_at(text, from, "#begin{") {
        Some(end) => end,
        None => { return None; },
    };
    let close = chars_of("#end{");
    let end = match find_at(text, end, &close) {
        Some(end) => end,
        None => { return None; },
    };
    rest_of_line_at(text, end)
}

pub(crate) fn directive_at(text: &Vec<char>, from: usize) -> (read: Option<usize>)
    requires
        from <= text.len(),
    ensures
        match read {
            Some(end) => grammar::directive(text@, from as int) == Some(((), end as int))
                && from < end <= text.len(),
            None => grammar::directive(text@, from as int) is None,
        },
{
    let start = match token_start_at(text, from) {
        Some(start) => start,
        None => { return None; },
    };
    let end = match symbol_at(text, start, '#') {
        Some(end) => end,
        None => { return None; },
    };
    rest_of_line_at(text, end)
}

/// One top-level item of a report as it is held while the report is read.
pub enum DataBlock {
    FileDescription(FileDescription),
    Clone(Vec<CloneSet>),
    Unknown,
}

impl DataBlock {
    /// Whether this block holds what `item` says.
    pub open spec fn holds(self, item: grammar::Block) -> bool {
        match self {
            DataBlock::FileDescription(description) => item matches grammar::Block::FileDescription(
                lines,
            ) && description@ == grammar::entries_map(lines),
            DataBlock::Clone(sets) => item == grammar::Block::Clone(clone_sets(sets@)),
            DataBlock::Unknown => item == grammar::Block::Unknown,
        }
    }
}

pub(crate) fn block_at(source: &str, text: &Vec<char>, from: usize) -> (read: Option<
    (DataBlock, usize),
>)
    requires
        source@ == text@,
        from <= text.len(),
    ensures
        match read {
            Some((value, end)) => {
                let rule = grammar::block(text@, from as int);
                rule is Some && value.holds(grammar::value_of(rule)) && end == grammar::end_of(rule)
                    && from < end <= text.len()
            },
            None => grammar::block(text@, from as int) is None,
        },
{
    if let Some((description, end)) = file_description_at(source, text, from) {
        return Some((DataBlock::FileDescription(description), end));
    }
    if let Some((sets, end)) = clone_block_at(text, from) {
        return Some((DataBlock::Clone(sets), end));
    }
    if let Some(end) = unknown_block_at(text, from) {
        return Some((DataBlock::Unknown, end));
    }
    match directive_at(text, from) {
        Some(end) => Some((DataBlock::Unknown, end)),
        None => None,
    }
}

} // verus!
