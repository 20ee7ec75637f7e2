use hugin::clone_pair::CodePosition;
use hugin::error::{InvalidCCFinderSWResult, InvalidResultKind, ParseError};
use hugin::runner::ccfindersw::parser::{ResultParser, SetElement};

const DESCRIPTION: &str = "#begin{file description}\n0.0 100 444 /a/Example.ino\n0.1 250 1202 /a/MyProject.ino\n#end{file description}\n";
const CLONE: &str = "#begin{clone}\n#begin{set}\n0.0 20,40,150 30,0,189 81\n0.1 130,40,656 141,4,692 81\n#end{set}\n#end{clone}\n";

fn invalid(kind: InvalidResultKind) -> ParseError {
    ParseError::Invalid(InvalidCCFinderSWResult::new(kind))
}

#[test]
fn digits_leave_the_rest_of_the_text() {
    let parser = ResultParser::new();
    assert_eq!(parser.parse_digits(" 42 "), Ok((" ", 42)));
    assert_eq!(parser.parse_digits("\n\t7,8"), Ok((",8", 7)));
    assert_eq!(parser.parse_digits("12ab"), Ok(("ab", 12)));
}

#[test]
fn digits_may_start_with_zeros() {
    let parser = ResultParser::new();
    assert_eq!(parser.parse_digits("007"), Ok(("", 7)));
    assert_eq!(parser.parse_digits("0"), Ok(("", 0)));
    assert_eq!(parser.parse_digits("0000000000004294967295"), Ok(("", 4294967295)));
}

#[test]
fn digits_must_fit_in_32_bits() {
    let parser = ResultParser::new();
    assert_eq!(parser.parse_digits("4294967295"), Ok(("", u32::MAX)));
    assert_eq!(parser.parse_digits("4294967296"), Err(ParseError::Malformed));
    assert_eq!(parser.parse_digits("99999999999999999999999999"), Err(ParseError::Malformed));
}

#[test]
fn digits_are_needed() {
    let parser = ResultParser::new();
    assert_eq!(parser.parse_digits(""), Err(ParseError::Malformed));
    assert_eq!(parser.parse_digits("   "), Err(ParseError::Malformed));
    assert_eq!(parser.parse_digits("abc"), Err(ParseError::Malformed));
    assert_eq!(parser.parse_digits("+1"), Err(ParseError::Malformed));
    assert_eq!(parser.parse_digits("-1"), Err(ParseError::Malformed));
}

#[test]
fn digits_are_ascii_digits_only() {
    let parser = ResultParser::new();
    assert_eq!(parser.parse_digits("\u{0663}"), Err(ParseError::Malformed));
    assert_eq!(parser.parse_digits("1\u{0663}"), Ok(("\u{0663}", 1)));
}

#[test]
fn preceding_whitespace_leaves_the_token() {
    let parser = ResultParser::new();
    assert_eq!(parser.parse_preceding_whitespace(" \t\r\naaa"), Ok(("aaa", ())));
    assert_eq!(parser.parse_preceding_whitespace("aaa"), Ok(("aaa", ())));
    assert_eq!(parser.parse_preceding_whitespace(""), Err(ParseError::Malformed));
    assert_eq!(parser.parse_preceding_whitespace("\u{00a0}x"), Ok(("\u{00a0}x", ())));
}

#[test]
fn string_runs_to_the_end_of_its_line() {
    let parser = ResultParser::new();
    assert_eq!(
        parser.parse_string(" /foo/bar/example.txt\r\nnext"),
        Ok(("next", String::from("/foo/bar/example.txt")))
    );
    assert_eq!(parser.parse_string("a b\tc \nx"), Ok(("x", String::from("a b\tc "))));
    assert_eq!(parser.parse_string("\n\n  name\n"), Ok(("", String::from("name"))));
    assert_eq!(
        parser.parse_string("/tmp/\u{540d}\u{524d}.ino\n"),
        Ok(("", String::from("/tmp/\u{540d}\u{524d}.ino")))
    );
}

#[test]
fn string_needs_a_line_break() {
    let parser = ResultParser::new();
    assert_eq!(parser.parse_string("name"), Err(ParseError::Malformed));
    assert_eq!(parser.parse_string("name\r"), Err(ParseError::Malformed));
    assert_eq!(parser.parse_string("name\rmore\n"), Err(ParseError::Malformed));
    assert_eq!(parser.parse_string("\n"), Err(ParseError::Malformed));
    assert_eq!(parser.parse_string(""), Err(ParseError::Malformed));
}

#[test]
fn position_keeps_line_and_column() {
    let parser = ResultParser::new();
    assert_eq!(parser.parse_position("130,40,656 x"), Ok((" x", CodePosition::new(130, 40))));
    assert_eq!(parser.parse_position("1, 2,\n3"), Ok(("", CodePosition::new(1, 2))));
}

#[test]
fn position_needs_three_numbers_and_two_commas() {
    let parser = ResultParser::new();
    assert_eq!(parser.parse_position("1,2"), Err(ParseError::Malformed));
    assert_eq!(parser.parse_position("1 ,2,3"), Err(ParseError::Malformed));
    assert_eq!(parser.parse_position("1;2;3"), Err(ParseError::Malformed));
    assert_eq!(parser.parse_position("1,2,"), Err(ParseError::Malformed));
    assert_eq!(parser.parse_position("1,4294967296,3"), Err(ParseError::Malformed));
}

#[test]
fn file_number_is_two_numbers_and_a_dot() {
    let parser = ResultParser::new();
    assert_eq!(parser.parse_file_number("3.14 "), Ok((" ", (3, 14))));
    assert_eq!(parser.parse_file_number("3. 14"), Ok(("", (3, 14))));
    assert_eq!(parser.parse_file_number("3 .14"), Err(ParseError::Malformed));
    assert_eq!(parser.parse_file_number("3,14"), Err(ParseError::Malformed));
    assert_eq!(parser.parse_file_number("3."), Err(ParseError::Malformed));
}

#[test]
fn set_element_needs_all_four_parts() {
    let parser = ResultParser::new();
    assert_eq!(
        parser.parse_set_element("1.2 3,4,5 6,7,8 9\n"),
        Ok((
            "\n",
            SetElement::new((1, 2), CodePosition::new(3, 4), CodePosition::new(6, 7), 9)
        ))
    );
    assert_eq!(parser.parse_set_element("1.2 3,4,5 6,7,8"), Err(ParseError::Malformed));
    assert_eq!(parser.parse_set_element("1.2 3,4,5 9"), Err(ParseError::Malformed));
    assert_eq!(parser.parse_set_element("#end{set}"), Err(ParseError::Malformed));
}

#[test]
fn set_needs_an_element() {
    let parser = ResultParser::new();
    assert_eq!(parser.parse_set("#begin{set}\n#end{set}\n"), Err(ParseError::Malformed));
    assert_eq!(parser.parse_set("#begin{set}\n0.0 1,2,3 4,5,6 7\n"), Err(ParseError::Malformed));
    assert_eq!(parser.parse_set("0.0 1,2,3 4,5,6 7\n#end{set}"), Err(ParseError::Malformed));
    let read = parser.parse_set("#begin{set}0.0 1,2,3 4,5,6 7#end{set}tail");
    assert_eq!(
        read,
        Ok((
            "tail",
            vec![SetElement::new((0, 0), CodePosition::new(1, 2), CodePosition::new(4, 5), 7)]
        ))
    );
}

#[test]
fn clone_needs_a_set() {
    let parser = ResultParser::new();
    assert_eq!(parser.parse_clone("#begin{clone}\n#end{clone}\n"), Err(ParseError::Malformed));
    let read = parser.parse_clone(CLONE).unwrap();
    assert_eq!(read.0, "\n");
    assert_eq!(read.1.len(), 1);
    assert_eq!(read.1[0].elements.len(), 2);
}

#[test]
fn file_description_entry_drops_the_counts() {
    let parser = ResultParser::new();
    assert_eq!(
        parser.parse_file_description_entry("0.1 250 1202 /a/My Project.ino\nrest"),
        Ok(("rest", ((0, 1), String::from("/a/My Project.ino"))))
    );
    assert_eq!(
        parser.parse_file_description_entry("0.1 250 /a/MyProject.ino\n"),
        Err(ParseError::Malformed)
    );
    assert_eq!(
        parser.parse_file_description_entry("0.1 250 1202 /a/MyProject.ino"),
        Err(ParseError::Malformed)
    );
}

#[test]
fn file_description_keeps_the_last_of_two_entries_with_one_number() {
    let parser = ResultParser::new();
    let data = "#begin{file description}\n0.0 1 2 /first\n0.1 1 2 /other\n0.0 1 2 /second\n#end{file description}";
    let (rest, description) = parser.parse_file_description(data).unwrap();
    assert_eq!(rest, "");
    assert_eq!(description.len(), 2);
    assert_eq!(description.get((0, 0)).unwrap(), "/second");
    assert_eq!(description.get((0, 1)).unwrap(), "/other");
    assert!(!description.contains_key((1, 0)));
    assert_eq!(description.get((1, 0)), None);
}

#[test]
fn file_description_is_as_large_as_its_entries_with_distinct_numbers() {
    let parser = ResultParser::new();
    let data = "#begin{file description}\n0.0 1 2 /a\n0.1 1 2 /b\n1.0 1 2 /c\n4294967295.4294967295 1 2 /d\n#end{file description}";
    let (_, description) = parser.parse_file_description(data).unwrap();
    assert_eq!(description.len(), 4);
    let mut numbers = description.file_numbers();
    numbers.sort();
    assert_eq!(numbers, vec![(0, 0), (0, 1), (1, 0), (4294967295, 4294967295)]);
    assert_eq!(description.get((4294967295, 4294967295)).unwrap(), "/d");
}

#[test]
fn file_description_needs_an_entry() {
    let parser = ResultParser::new();
    assert_eq!(
        parser.parse_file_description("#begin{file description}\n#end{file description}\n"),
        Err(ParseError::Malformed)
    );
    assert_eq!(
        parser.parse_file_description("#begin{file description}\n0.0 1 2 /a\n"),
        Err(ParseError::Malformed)
    );
}

#[test]
fn block_runs_to_the_end_of_the_line_of_its_end() {
    let parser = ResultParser::new();
    assert_eq!(
        parser.parse_block("  #begin{x}\nanything # at all\n#end{y} trailing\nnext"),
        Ok(("\nnext", ()))
    );
    assert_eq!(parser.parse_block("#begin{#end{"), Ok(("", ())));
    assert_eq!(parser.parse_block("#begin{x}\n#begin{y}\n#end{y}\n#end{x}\n"), Ok(("\n#end{x}\n", ())));
}

#[test]
fn block_needs_its_end() {
    let parser = ResultParser::new();
    assert_eq!(parser.parse_block("#begin{x}\n"), Err(ParseError::Malformed));
    assert_eq!(parser.parse_block("#end{x}\n"), Err(ParseError::Malformed));
    assert_eq!(parser.parse_block("#begin{x}\n#end{x}\rmore"), Err(ParseError::Malformed));
    assert_eq!(parser.parse_block("#Begin{x}\n#end{x}\n"), Err(ParseError::Malformed));
}

#[test]
fn tag_runs_to_the_end_of_its_line() {
    let parser = ResultParser::new();
    assert_eq!(parser.parse_tag("\n#option: -c wfg\nnext"), Ok(("\nnext", ())));
    assert_eq!(parser.parse_tag("#"), Ok(("", ())));
    assert_eq!(parser.parse_tag("#x\r\ny"), Ok(("\r\ny", ())));
    assert_eq!(parser.parse_tag("#x\ry"), Err(ParseError::Malformed));
    assert_eq!(parser.parse_tag("x#"), Err(ParseError::Malformed));
    assert_eq!(parser.parse_tag("  "), Err(ParseError::Malformed));
}

#[test]
fn result_of_the_two_blocks_alone() {
    let parser = ResultParser::new();
    let text = format!("{}{}", DESCRIPTION, CLONE);
    let (rest, result) = parser.parse_result(&text).unwrap();
    assert_eq!(rest, "\n");
    assert_eq!(result.file_description.len(), 2);
    assert_eq!(result.clone.len(), 1);
}

#[test]
fn result_blocks_come_in_any_order() {
    let parser = ResultParser::new();
    let one = format!("{}#x\n{}", DESCRIPTION, CLONE);
    let other = format!("#begin{{a}}\n#end{{a}}\n{}#x\n{}#y\n", CLONE, DESCRIPTION);
    let (_, first) = parser.parse_result(&one).unwrap();
    let (_, second) = parser.parse_result(&other).unwrap();
    assert_eq!(first, second);
}

#[test]
fn result_counts_sets_and_entries() {
    let parser = ResultParser::new();
    let text = "#begin{clone}\n#begin{set}\n0.0 1,1,1 2,2,2 3\n#end{set}\n#begin{set}\n0.1 1,1,1 2,2,2 3\n#end{set}\n#begin{set}\n0.2 1,1,1 2,2,2 3\n#end{set}\n#end{clone}\n#begin{file description}\n0.0 1 1 /a\n0.1 1 1 /b\n0.2 1 1 /c\n0.1 1 1 /d\n#end{file description}\n";
    let (_, result) = parser.parse_result(text).unwrap();
    assert_eq!(result.clone.len(), 3);
    assert_eq!(result.file_description.len(), 3);
    assert_eq!(result.file_description.get((0, 1)).unwrap(), "/d");
}

#[test]
fn result_without_file_description_is_refused() {
    let parser = ResultParser::new();
    assert_eq!(
        parser.parse_result(CLONE),
        Err(invalid(InvalidResultKind::MissingMandatoryBlocks))
    );
}

#[test]
fn result_without_clone_is_refused() {
    let parser = ResultParser::new();
    assert_eq!(
        parser.parse_result(DESCRIPTION),
        Err(invalid(InvalidResultKind::MissingMandatoryBlocks))
    );
    assert_eq!(
        parser.parse_result("#format: classwise\n"),
        Err(invalid(InvalidResultKind::MissingMandatoryBlocks))
    );
}

#[test]
fn result_with_two_file_descriptions_is_refused() {
    let parser = ResultParser::new();
    let text = format!("{}{}{}", DESCRIPTION, CLONE, DESCRIPTION);
    assert_eq!(
        parser.parse_result(&text),
        Err(invalid(InvalidResultKind::DuplicatedFileDescriptionBlocks))
    );
    let text = format!("{}{}", DESCRIPTION, DESCRIPTION);
    assert_eq!(
        parser.parse_result(&text),
        Err(invalid(InvalidResultKind::DuplicatedFileDescriptionBlocks))
    );
}

#[test]
fn result_with_two_clones_is_refused() {
    let parser = ResultParser::new();
    let text = format!("{}{}{}", CLONE, DESCRIPTION, CLONE);
    assert_eq!(
        parser.parse_result(&text),
        Err(invalid(InvalidResultKind::DuplicatedCloneBlocks))
    );
}

#[test]
fn result_is_refused_for_the_first_repeated_block() {
    let parser = ResultParser::new();
    let text = format!("{}{}{}{}", CLONE, DESCRIPTION, CLONE, DESCRIPTION);
    assert_eq!(
        parser.parse_result(&text),
        Err(invalid(InvalidResultKind::DuplicatedCloneBlocks))
    );
    let text = format!("{}{}{}{}", CLONE, DESCRIPTION, DESCRIPTION, CLONE);
    assert_eq!(
        parser.parse_result(&text),
        Err(invalid(InvalidResultKind::DuplicatedFileDescriptionBlocks))
    );
}

#[test]
fn result_of_nothing_is_malformed() {
    let parser = ResultParser::new();
    assert_eq!(parser.parse_result(""), Err(ParseError::Malformed));
    assert_eq!(parser.parse_result(" \n\t\r\n"), Err(ParseError::Malformed));
    assert_eq!(parser.parse_result("no report"), Err(ParseError::Malformed));
}

#[test]
fn result_ends_at_trailing_whitespace() {
    let parser = ResultParser::new();
    let text = format!("{}{}   \n\t\r\n \n", DESCRIPTION, CLONE);
    let (rest, result) = parser.parse_result(&text).unwrap();
    assert_eq!(rest, "\n   \n\t\r\n \n");
    assert_eq!(result.clone.len(), 1);
    let bare = format!("{}{}", DESCRIPTION, CLONE);
    assert_eq!(result, parser.parse_result(&bare).unwrap().1);
}

#[test]
fn result_leaves_what_follows_the_last_item() {
    let parser = ResultParser::new();
    let text = format!("{}{}garbage\n#tag\n", DESCRIPTION, CLONE);
    let (rest, result) = parser.parse_result(&text).unwrap();
    assert_eq!(rest, "\ngarbage\n#tag\n");
    assert_eq!(result.file_description.len(), 2);
}

#[test]
fn result_passes_over_a_file_description_that_is_out_of_form() {
    let parser = ResultParser::new();
    let broken = "#begin{file description}\n0.0 100 /a/Example.ino\n#end{file description}\n";
    let text = format!("{}{}", broken, CLONE);
    assert_eq!(
        parser.parse_result(&text),
        Err(invalid(InvalidResultKind::MissingMandatoryBlocks))
    );
    let text = format!("{}{}{}", broken, DESCRIPTION, CLONE);
    let (_, result) = parser.parse_result(&text).unwrap();
    assert_eq!(result.file_description.len(), 2);
}

#[test]
fn result_passes_over_a_clone_block_that_is_out_of_form() {
    let parser = ResultParser::new();
    let broken = "#begin{clone}\n#begin{set}\n0.0 20,40 30,0,189 81\n#end{set}\n#end{clone}\n";
    let text = format!("{}{}", DESCRIPTION, broken);
    assert_eq!(
        parser.parse_result(&text),
        Err(invalid(InvalidResultKind::MissingMandatoryBlocks))
    );
}
