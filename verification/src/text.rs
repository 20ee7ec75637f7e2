//! Small operations on texts: comparison, decimal numbers, lists with a
//! separator.

use vstd::prelude::*;
use vstd::string::StringExecFns;

verus! {

pub open spec fn is_digit(c: char) -> bool {
    '0' <= c <= '9'
}

/// The number that a decimal digit stands for.
pub open spec fn digit_value(c: char) -> nat {
    (c as u32 - '0' as u32) as nat
}

/// The number that a run of decimal digits writes.
pub open spec fn decimal_value(digits: Seq<char>) -> nat
    decreases digits.len(),
{
    if digits.len() == 0 {
        0
    } else {
        10 * decimal_value(digits.drop_last()) + digit_value(digits.last())
    }
}

/// Whether `digits` holds decimal digits and nothing else.
pub open spec fn all_digits(digits: Seq<char>) -> bool {
    forall|i: int| 0 <= i < digits.len() ==> is_digit(#[trigger] digits[i])
}

/// The digit that stands for a number below ten.
pub open spec fn digit_char(value: nat) -> char {
    if value == 0 {
        '0'
    } else if value == 1 {
        '1'
    } else if value == 2 {
        '2'
    } else if value == 3 {
        '3'
    } else if value == 4 {
        '4'
    } else if value == 5 {
        '5'
    } else if value == 6 {
        '6'
    } else if value == 7 {
        '7'
    } else if value == 8 {
        '8'
    } else {
        '9'
    }
}

/// The decimal digits of a number, without leading zeros.
pub open spec fn decimal_text(value: nat) -> Seq<char>
    decreases value,
{
    if value < 10 {
        seq![digit_char(value)]
    } else {
        decimal_text(value / 10).push(digit_char(value % 10))
    }
}

/// The decimal digits of an integer, behind a minus sign where it is
/// negative.
pub open spec fn signed_decimal_text(value: int) -> Seq<char> {
    if value < 0 {
        seq!['-'] + decimal_text((-value) as nat)
    } else {
        decimal_text(value as nat)
    }
}

/// What an unsigned decimal number of 32 bits is written as: digits, which a
/// plus sign may precede. A text of another form, or one whose number is too
/// large, stands for none.
pub open spec fn unsigned_value(text: Seq<char>) -> Option<u32> {
    let digits = if text.len() > 0 && text[0] == '+' {
        text.skip(1)
    } else {
        text
    };
    if digits.len() > 0 && all_digits(digits) && decimal_value(digits) <= u32::MAX {
        Some(decimal_value(digits) as u32)
    } else {
        None
    }
}

/// The first position from `from` on that holds `separator`, or the length of
/// the text where none does.
pub open spec fn separator_at(text: Seq<char>, from: int, separator: char) -> int
    decreases text.len() - from,
{
    if 0 <= from < text.len() && text[from] != separator {
        separator_at(text, from + 1, separator)
    } else {
        from
    }
}

/// The parts of `text` between the occurrences of `separator`, from `from`
/// on. A text without the separator is one part, an empty text too.
pub open spec fn split_from(text: Seq<char>, from: int, separator: char) -> Seq<Seq<char>>
    decreases text.len() - from,
{
    let stop = separator_at(text, from, separator);
    if 0 <= from <= stop < text.len() {
        seq![text.subrange(from, stop)] + split_from(text, stop + 1, separator)
    } else {
        seq![text.subrange(from, text.len() as int)]
    }
}

/// The parts of `text` between the occurrences of `separator`.
pub open spec fn split_on(text: Seq<char>, separator: char) -> Seq<Seq<char>> {
    split_from(text, 0, separator)
}

/// The parts one behind the other, with `separator` between each two.
pub open spec fn join_with(parts: Seq<Seq<char>>, separator: Seq<char>) -> Seq<char>
    decreases parts.len(),
{
    if parts.len() == 0 {
        Seq::empty()
    } else if parts.len() == 1 {
        parts[0]
    } else {
        join_with(parts.drop_last(), separator) + separator + parts.last()
    }
}

/// The texts that a run of strings holds.
pub open spec fn texts(strings: Seq<String>) -> Seq<Seq<char>> {
    strings.map_values(|string: String| string@)
}

/// The characters of `input`, one by one.
pub fn chars_of(input: &str) -> (text: Vec<char>)
    ensures
        text@ == input@,
{
    let mut text: Vec<char> = Vec::new();
    let chars = input.chars();
    for c in it: chars
        invariant
            text@ == it.seq().take(it.index() as int),
            it.seq() == input@,
    {
        text.push(c);
    }
    text
}

/// Whether two texts hold the same characters.
pub fn same_text(a: &str, b: &str) -> (same: bool)
    ensures
        same == (a@ == b@),
{
    a.to_owned() == b.to_owned()
}

pub fn is_digit_char(c: char) -> (yes: bool)
    ensures
        yes == is_digit(c),
{
    '0' <= c && c <= '9'
}

fn digit_text(value: u64) -> (text: &'static str)
    requires
        value < 10,
    ensures
        text@ == seq![digit_char(value as nat)],
{
    proof {
        reveal_strlit("0");
        reveal_strlit("1");
        reveal_strlit("2");
        reveal_strlit("3");
        reveal_strlit("4");
        reveal_strlit("5");
        reveal_strlit("6");
        reveal_strlit("7");
        reveal_strlit("8");
        reveal_strlit("9");
    }
    let text = if value == 0 {
        "0"
    } else if value == 1 {
        "1"
    } else if value == 2 {
        "2"
    } else if value == 3 {
        "3"
    } else if value == 4 {
        "4"
    } else if value == 5 {
        "5"
    } else if value == 6 {
        "6"
    } else if value == 7 {
        "7"
    } else if value == 8 {
        "8"
    } else {
        "9"
    };
    assert(text@ =~= seq![digit_char(value as nat)]);
    text
}

/// Writes a number in decimal digits.
pub fn decimal_string(value: u64) -> (text: String)
    ensures
        text@ == decimal_text(value as nat),
    decreases value,
{
    if value < 10 {
        String::from_str(digit_text(value))
    } else {
        let mut text = decimal_string(value / 10);
        text.append(digit_text(value % 10));
        assert(text@ =~= decimal_text(value as nat));
        text
    }
}

/// Writes an integer in decimal digits, with a minus sign where it is
/// negative.
pub fn signed_decimal_string(value: i32) -> (text: String)
    ensures
        text@ == signed_decimal_text(value as int),
{
    if value < 0 {
        proof {
            reveal_strlit("-");
        }
        let size: u64 = (-(value as i64)) as u64;
        let digits = decimal_string(size);
        let text = String::from_str("-").concat(digits.as_str());
        assert(text@ =~= signed_decimal_text(value as int));
        text
    } else {
        decimal_string(value as u64)
    }
}

/// Reads an unsigned decimal number of 32 bits.
pub fn parse_unsigned(text: &str) -> (value: Option<u32>)
    ensures
        value == unsigned_value(text@),
{
    let letters = chars_of(text);
    let start: usize = if letters.len() > 0 && letters[0] == '+' {
        1
    } else {
        0
    };
    let ghost digits = if start == 1 {
        text@.skip(1)
    } else {
        text@
    };
    assert(digits =~= letters@.subrange(start as int, letters.len() as int));
    let limit: u64 = 0x1_0000_0000;
    let mut at = start;
    let mut value: u64 = 0;
    assert(letters@.subrange(start as int, start as int) =~= Seq::<char>::empty());
    while at < letters.len()
        invariant
            start <= at <= letters.len(),
            limit == 0x1_0000_0000,
            digits == letters@.subrange(start as int, letters.len() as int),
            unsigned_value(text@) == if digits.len() > 0 && all_digits(digits) && decimal_value(
                digits,
            ) <= u32::MAX {
                Some(decimal_value(digits) as u32)
            } else {
                None
            },
            forall|i: int| start <= i < at ==> is_digit(#[trigger] letters@[i]),
            value <= limit,
            value < limit ==> value == decimal_value(letters@.subrange(start as int, at as int)),
            value == limit ==> decimal_value(letters@.subrange(start as int, at as int)) >= limit,
        decreases letters.len() - at,
    {
        if !is_digit_char(letters[at]) {
            assert(!is_digit(digits[at - start]));
            return None;
        }
        let digit: u64 = (letters[at] as u32 - '0' as u32) as u64;
        proof {
            let run = letters@.subrange(start as int, at + 1);
            assert(run.drop_last() =~= letters@.subrange(start as int, at as int));
            assert(run.last() == letters@[at as int]);
        }
        if value < limit {
            value = 10 * value + digit;
            if value > limit {
                value = limit;
            }
        }
        at += 1;
    }
    assert(all_digits(digits)) by {
        assert forall|i: int| 0 <= i < digits.len() implies is_digit(#[trigger] digits[i]) by {
            assert(digits[i] == letters@[start + i]);
        }
    }
    if start < at && value < limit {
        Some(value as u32)
    } else {
        None
    }
}

/// Splits a text at each occurrence of `separator`.
pub fn split(text: &str, separator: char) -> (parts: Vec<String>)
    ensures
        texts(parts@) == split_on(text@, separator),
{
    let letters = chars_of(text);
    let mut parts: Vec<String> = Vec::new();
    let mut from: usize = 0;
    assert(texts(parts@) =~= Seq::empty());
    loop
        invariant
            text@ == letters@,
            from <= letters.len(),
            split_on(text@, separator) == texts(parts@) + split_from(
                text@,
                from as int,
                separator,
            ),
        decreases letters.len() - from,
    {
        let mut stop = from;
        while stop < letters.len() && letters[stop] != separator
            invariant
                from <= stop <= letters.len(),
                separator_at(letters@, from as int, separator) == separator_at(
                    letters@,
                    stop as int,
                    separator,
                ),
            decreases letters.len() - stop,
        {
            stop += 1;
        }
        if stop < letters.len() {
            let part = text.substring_char(from, stop).to_owned();
            proof {
                let others = split_from(text@, stop + 1, separator);
                assert(texts(parts@.push(part)) =~= texts(parts@).push(part@));
                assert(texts(parts@) + (seq![part@] + others) =~= texts(parts@).push(part@)
                    + others);
            }
            parts.push(part);
            from = stop + 1;
        } else {
            let part = text.substring_char(from, letters.len()).to_owned();
            proof {
                assert(texts(parts@.push(part)) =~= texts(parts@).push(part@));
                assert(texts(parts@) + seq![part@] =~= texts(parts@).push(part@));
            }
            parts.push(part);
            return parts;
        }
    }
}

/// Puts the parts one behind the other, with `separator` between each two.
pub fn join(parts: &Vec<String>, separator: &str) -> (text: String)
    ensures
        text@ == join_with(texts(parts@), separator@),
{
    let mut text = String::new();
    let mut at: usize = 0;
    assert(texts(parts@).take(0) =~= Seq::empty());
    while at < parts.len()
        invariant
            at <= parts.len(),
            text@ == join_with(texts(parts@).take(at as int), separator@),
        decreases parts.len() - at,
    {
        proof {
            let all = texts(parts@);
            assert(all.take(at + 1).drop_last() =~= all.take(at as int));
            assert(all.take(at + 1).last() == parts@[at as int]@);
            if at == 0 {
                assert(Seq::<char>::empty() + parts@[0]@ =~= parts@[0]@);
            }
        }
        if at > 0 {
            text.append(separator);
        }
        text.append(parts[at].as_str());
        at += 1;
    }
    assert(texts(parts@).take(at as int) =~= texts(parts@));
    text
}

/// The digits that write a number stand for that number.
pub proof fn lemma_decimal_text_is_read_back(value: nat)
    ensures
        all_digits(decimal_text(value)),
        decimal_text(value).len() > 0,
        decimal_value(decimal_text(value)) == value,
    decreases value,
{
    let digits = decimal_text(value);
    assert(digit_value(digit_char(value % 10)) == value % 10);
    assert(is_digit(digit_char(value % 10)));
    if value < 10 {
        assert(digits.drop_last() =~= Seq::<char>::empty());
        assert(decimal_value(digits.drop_last()) == 0);
    } else {
        lemma_decimal_text_is_read_back(value / 10);
        assert(digits.drop_last() =~= decimal_text(value / 10));
    }
    assert(digits.last() == digit_char(value % 10));
    assert(decimal_value(digits) == 10 * decimal_value(digits.drop_last()) + digit_value(
        digits.last(),
    ));
}

/// Whether none of the parts holds `separator`.
pub open spec fn free_of(parts: Seq<Seq<char>>, separator: char) -> bool {
    forall|i: int, j: int|
        0 <= i < parts.len() && 0 <= j < parts[i].len() ==> #[trigger] parts[i][j] != separator
}

proof fn lemma_separator_behind_a_prefix(
    prefix: Seq<char>,
    text: Seq<char>,
    from: int,
    separator: char,
)
    requires
        0 <= from <= text.len(),
    ensures
        separator_at(prefix + text, prefix.len() + from, separator) == prefix.len() + separator_at(
            text,
            from,
            separator,
        ),
        from <= separator_at(text, from, separator) <= text.len(),
    decreases text.len() - from,
{
    if from < text.len() {
        assert((prefix + text)[prefix.len() + from] == text[from]);
        lemma_separator_behind_a_prefix(prefix, text, from + 1, separator);
    }
}

proof fn lemma_split_behind_a_prefix(
    prefix: Seq<char>,
    text: Seq<char>,
    from: int,
    separator: char,
)
    requires
        0 <= from <= text.len(),
    ensures
        split_from(prefix + text, prefix.len() + from, separator) == split_from(
            text,
            from,
            separator,
        ),
    decreases text.len() - from,
{
    let whole = prefix + text;
    let stop = separator_at(text, from, separator);
    lemma_separator_behind_a_prefix(prefix, text, from, separator);
    if stop < text.len() {
        assert(whole.subrange(prefix.len() + from, prefix.len() + stop) =~= text.subrange(
            from,
            stop,
        ));
        lemma_split_behind_a_prefix(prefix, text, stop + 1, separator);
    } else {
        assert(whole.subrange(prefix.len() + from, whole.len() as int) =~= text.subrange(
            from,
            text.len() as int,
        ));
    }
}

proof fn lemma_separator_behind_a_part(part: Seq<char>, text: Seq<char>, from: int, separator: char)
    requires
        0 <= from <= part.len(),
        forall|j: int| 0 <= j < part.len() ==> part[j] != separator,
    ensures
        separator_at(part + text, from, separator) == separator_at(
            part + text,
            part.len() as int,
            separator,
        ),
    decreases part.len() - from,
{
    if from < part.len() {
        assert((part + text)[from] == part[from]);
        lemma_separator_behind_a_part(part, text, from + 1, separator);
    }
}

proof fn lemma_join_from_the_front(parts: Seq<Seq<char>>, separator: Seq<char>)
    requires
        parts.len() >= 2,
    ensures
        join_with(parts, separator) == parts[0] + separator + join_with(
            parts.drop_first(),
            separator,
        ),
    decreases parts.len(),
{
    let front = parts.drop_last();
    let others = parts.drop_first();
    assert(join_with(parts, separator) == join_with(front, separator) + separator + parts.last());
    if parts.len() == 2 {
        assert(front.len() == 1 && front[0] == parts[0]);
        assert(others.len() == 1 && others[0] == parts.last());
        assert(join_with(front, separator) == parts[0]);
        assert(join_with(others, separator) == parts.last());
    } else {
        lemma_join_from_the_front(front, separator);
        assert(front.drop_first() =~= others.drop_last());
        assert(front[0] == parts[0]);
        assert(others.last() == parts.last());
        assert(join_with(others, separator) == join_with(others.drop_last(), separator)
            + separator + others.last());
        assert(parts[0] + separator + join_with(front.drop_first(), separator) + separator
            + parts.last() =~= parts[0] + separator + (join_with(
            front.drop_first(),
            separator,
        ) + separator + parts.last()));
    }
}

/// Parts that are joined with a separator which none of them holds come
/// back when the joined text is split at that separator.
pub proof fn lemma_joined_parts_are_split_again(parts: Seq<Seq<char>>, separator: char)
    requires
        parts.len() > 0,
        free_of(parts, separator),
    ensures
        split_on(join_with(parts, seq![separator]), separator) == parts,
    decreases parts.len(),
{
    let first = parts[0];
    assert forall|j: int| 0 <= j < first.len() implies first[j] != separator by {
        assert(parts[0][j] != separator);
    }
    if parts.len() == 1 {
        let none = Seq::<char>::empty();
        assert(first + none =~= first);
        lemma_separator_behind_a_part(first, none, 0, separator);
        assert(first.subrange(0, first.len() as int) =~= first);
        assert(parts =~= seq![first]);
    } else {
        let others = parts.drop_first();
        assert(free_of(others, separator)) by {
            assert forall|i: int, j: int|
                0 <= i < others.len() && 0 <= j < others[i].len() implies #[trigger] others[i][j]
                != separator by {
                assert(parts[i + 1][j] != separator);
            }
        }
        lemma_joined_parts_are_split_again(others, separator);
        lemma_join_from_the_front(parts, seq![separator]);
        let rest = join_with(others, seq![separator]);
        let tail = seq![separator] + rest;
        let joined = first + tail;
        assert(joined =~= first + seq![separator] + rest);
        lemma_separator_behind_a_part(first, tail, 0, separator);
        assert(joined[first.len() as int] == separator);
        assert(joined.subrange(0, first.len() as int) =~= first);
        let prefix = first + seq![separator];
        assert(joined =~= prefix + rest);
        lemma_split_behind_a_prefix(prefix, rest, 0, separator);
        assert(seq![first] + others =~= parts);
    }
}

/// A number that is written in decimal digits is read back as itself.
pub proof fn lemma_written_number_is_read_back(value: u32)
    ensures
        unsigned_value(decimal_text(value as nat)) == Some(value),
{
    lemma_decimal_text_is_read_back(value as nat);
    lemma_decimal_text_starts_with_a_digit(value as nat);
}

proof fn lemma_decimal_text_starts_with_a_digit(value: nat)
    ensures
        decimal_text(value).len() > 0,
        is_digit(decimal_text(value)[0]),
    decreases value,
{
    if value >= 10 {
        lemma_decimal_text_starts_with_a_digit(value / 10);
    }
}

} // verus!
