use hugin::error::ParseError;
use hugin::runner::ccfindersw::parser::ResultParser;
use nom::bytes::complete::take_until;
use nom::character::complete::{digit1, line_ending, multispace0, not_line_ending};
use nom::error::Error;

const SAMPLES: [&str; 30] = [
    "",
    " ",
    "\t\r\n",
    "a",
    " a",
    "\n\n a b\n",
    "42",
    " 42 ",
    "042x",
    "4294967295",
    "4294967296",
    "\u{0663}4",
    "4\u{0663}",
    "name\n",
    "name\r\n",
    "name\r",
    "name\rx\n",
    "name",
    " name with blanks \t\nnext",
    "\r\nname\n",
    "#",
    "#tag",
    "#tag\nnext",
    "#tag\r",
    " \n#begin{x}\n#end{x}\n",
    "#begin{x}#end{",
    "#begin{x}\n#end{x}\r",
    "#begin{x}\n#end",
    "#begin{#end{x} y\r\nz",
    "\u{540d}\u{524d}\n",
];

fn blanks(input: &str) -> Option<&str> {
    let (rest, _) = multispace0::<&str, Error<&str>>(input).ok()?;
    if rest.is_empty() {
        None
    } else {
        Some(rest)
    }
}

fn outcome<'a, T>(read: Option<(&'a str, T)>) -> Result<(&'a str, T), ParseError> {
    read.ok_or(ParseError::Malformed)
}

#[test]
fn preceding_whitespace_agrees_with_nom() {
    let parser = ResultParser::new();
    for sample in SAMPLES {
        let expected = outcome(blanks(sample).map(|rest| (rest, ())));
        assert_eq!(parser.parse_preceding_whitespace(sample), expected, "{:?}", sample);
    }
}

#[test]
fn digits_agree_with_nom() {
    let parser = ResultParser::new();
    for sample in SAMPLES {
        let expected = outcome(blanks(sample).and_then(|rest| {
            let (rest, digits) = digit1::<&str, Error<&str>>(rest).ok()?;
            let value = u32::from_str_radix(digits, 10).ok()?;
            Some((rest, value))
        }));
        assert_eq!(parser.parse_digits(sample), expected, "{:?}", sample);
    }
}

#[test]
fn string_agrees_with_nom() {
    let parser = ResultParser::new();
    for sample in SAMPLES {
        let expected = outcome(blanks(sample).and_then(|rest| {
            let (rest, line) = not_line_ending::<&str, Error<&str>>(rest).ok()?;
            let (rest, _) = line_ending::<&str, Error<&str>>(rest).ok()?;
            Some((rest, String::from(line)))
        }));
        assert_eq!(parser.parse_string(sample), expected, "{:?}", sample);
    }
}

#[test]
fn tag_agrees_with_nom() {
    let parser = ResultParser::new();
    for sample in SAMPLES {
        let expected = outcome(blanks(sample).and_then(|rest| {
            let rest = rest.strip_prefix('#')?;
            let (rest, _) = not_line_ending::<&str, Error<&str>>(rest).ok()?;
            Some((rest, ()))
        }));
        assert_eq!(parser.parse_tag(sample), expected, "{:?}", sample);
    }
}

#[test]
fn block_agrees_with_nom() {
    let parser = ResultParser::new();
    for sample in SAMPLES {
        let expected = outcome(blanks(sample).and_then(|rest| {
            let rest = rest.strip_prefix("#begin{")?;
            let (rest, _) = take_until::<&str, &str, Error<&str>>("#end{")(rest).ok()?;
            let (rest, _) = not_line_ending::<&str, Error<&str>>(rest).ok()?;
            Some((rest, ()))
        }));
        assert_eq!(parser.parse_block(sample), expected, "{:?}", sample);
    }
}
