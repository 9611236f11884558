use es_data_parser::helpers::{
    alphanumeric_or_other_ok1, comment_hole, indent, integer, line_ending, number, resource_path,
    space1, string,
};
use es_data_parser::Failure;
use nom::branch::alt;
use nom::bytes::complete::{tag, take_until};
use nom::character::complete::{char, digit1, tab};
use nom::combinator::{cut, recognize};
use nom::error::ErrorKind;
use nom::sequence::{preceded, terminated, tuple};
use nom::{AsChar, IResult, InputTakeAtPosition};

type Combined<'a, T> = IResult<&'a str, T, (&'a str, ErrorKind)>;

#[derive(Debug, PartialEq)]
enum Seen<'a> {
    Read(&'a str, &'a str),
    Soft,
    Hard,
}

fn from_library<'a>(result: Result<(&'a str, &'a str), Failure>) -> Seen<'a> {
    match result {
        Ok((rest, value)) => Seen::Read(rest, value),
        Err(Failure::Soft(_)) => Seen::Soft,
        Err(Failure::Hard(_)) => Seen::Hard,
    }
}

fn from_library_unit<'a>(input: &'a str, result: Result<(&'a str, ()), Failure>) -> Seen<'a> {
    from_library(result.map(|(rest, _)| (rest, &input[..input.len() - rest.len()])))
}

fn from_nom<'a>(result: Combined<'a, &'a str>) -> Seen<'a> {
    match result {
        Ok((rest, value)) => Seen::Read(rest, value),
        Err(nom::Err::Failure(_)) => Seen::Hard,
        Err(_) => Seen::Soft,
    }
}

fn nom_word(input: &str) -> Combined<&str> {
    input.split_at_position1_complete(
        |item| {
            let ch = item.as_char();
            !(ch.is_ascii_alphabetic() || ch.is_ascii_digit() || ch == '\'' || ch == '-')
        },
        ErrorKind::AlphaNumeric,
    )
}

fn nom_string(input: &str) -> Combined<&str> {
    alt((
        preceded(char('"'), cut(terminated(take_until("\""), char('"')))),
        nom_word,
        preceded(char('`'), cut(terminated(take_until("`"), char('`')))),
    ))(input)
}

fn nom_resource_path(input: &str) -> Combined<&str> {
    alt((
        preceded(char('"'), cut(terminated(take_until("\""), char('"')))),
        take_until("\n"),
    ))(input)
}

fn nom_indent(input: &str) -> Combined<&str> {
    alt((recognize(tab), tag("    ")))(input)
}

fn nom_comment(input: &str) -> Combined<&str> {
    recognize(alt((
        tuple((
            tag("//"),
            terminated(take_until("\n"), nom::character::complete::line_ending),
        )),
        tuple((
            tag("#"),
            terminated(take_until("\n"), nom::character::complete::line_ending),
        )),
    )))(input)
}

const SAMPLES: [&str; 60] = [
    "",
    " ",
    "\t",
    "\n",
    "\r\n",
    "\r",
    "    ",
    "   x",
    "     x",
    "\t\tx",
    "  \t x",
    "abc",
    "abc def",
    "a-b'c d",
    "ab/cd",
    "caf\u{e9} x",
    "\u{e9}",
    "\"Milky Way\" x",
    "\"\"",
    "\"open",
    "\"a`b\"",
    "`tick \"x\"` y",
    "`open\n",
    "``",
    "ui/galaxy two\nnext",
    "ui/galaxy",
    "\nnext",
    "\"q/p\"\n",
    "// c\nx",
    "//\n",
    "/ c\n",
    "# c\r\nx",
    "#",
    "# last",
    " # x\n",
    "0",
    "007 x",
    "12ab",
    "-5",
    "+5",
    "1.5",
    "1.",
    ".5",
    ".",
    "-",
    "-.5e3",
    "1.5.2",
    "11e-1",
    "123E-02",
    "123K-01",
    "1e",
    "1e+",
    "1e+x",
    "2.5Ex",
    "1e5e",
    "+.e",
    "--1",
    "1 2",
    "32.8\n",
    "-192873.2 123.456",
];

#[test]
fn string_agrees_with_the_combinators() {
    for input in SAMPLES.iter() {
        assert_eq!(
            from_library(string(input)),
            from_nom(nom_string(input)),
            "on {:?}",
            input
        );
    }
}

#[test]
fn bare_word_agrees_with_the_combinators() {
    for input in SAMPLES.iter() {
        assert_eq!(
            from_library(alphanumeric_or_other_ok1(input)),
            from_nom(nom_word(input)),
            "on {:?}",
            input
        );
    }
}

#[test]
fn resource_path_agrees_with_the_combinators() {
    for input in SAMPLES.iter() {
        assert_eq!(
            from_library(resource_path(input)),
            from_nom(nom_resource_path(input)),
            "on {:?}",
            input
        );
    }
}

#[test]
fn indent_agrees_with_the_combinators() {
    for input in SAMPLES.iter() {
        assert_eq!(
            from_library_unit(input, indent(input)),
            from_nom(nom_indent(input)),
            "on {:?}",
            input
        );
    }
}

#[test]
fn comment_agrees_with_the_combinators() {
    for input in SAMPLES.iter() {
        assert_eq!(
            from_library_unit(input, comment_hole(input)),
            from_nom(nom_comment(input)),
            "on {:?}",
            input
        );
    }
}

#[test]
fn line_ending_agrees_with_the_combinators() {
    for input in SAMPLES.iter() {
        assert_eq!(
            from_library_unit(input, line_ending(input)),
            from_nom(nom::character::complete::line_ending(*input)),
            "on {:?}",
            input
        );
    }
}

#[test]
fn blanks_agree_with_the_combinators() {
    for input in SAMPLES.iter() {
        assert_eq!(
            from_library_unit(input, space1(input)),
            from_nom(nom::character::complete::space1(*input)),
            "on {:?}",
            input
        );
    }
}

#[test]
fn digits_agree_with_the_combinators() {
    for input in SAMPLES.iter() {
        assert_eq!(
            from_library_unit(input, integer(input, u64::MAX).map(|(rest, _)| (rest, ()))),
            from_nom(digit1(*input)),
            "on {:?}",
            input
        );
    }
}

#[test]
fn number_agrees_with_the_combinators() {
    for input in SAMPLES.iter() {
        assert_eq!(
            from_library(number(input)),
            from_nom(nom::number::complete::recognize_float(*input)),
            "on {:?}",
            input
        );
    }
}

#[test]
fn number_as_written_has_the_value_that_the_combinators_give() {
    for input in SAMPLES.iter() {
        let single: Combined<f32> = nom::number::complete::float(*input);
        let double: Combined<f64> = nom::number::complete::double(*input);
        match number(input) {
            Ok((rest, written)) => {
                assert_eq!(single, Ok((rest, written.parse::<f32>().unwrap())));
                assert_eq!(double, Ok((rest, written.parse::<f64>().unwrap())));
            }
            Err(_) => {
                assert!(single.is_err());
                assert!(double.is_err());
            }
        }
    }
}

#[test]
fn integer_has_the_value_that_the_standard_library_gives() {
    for input in ["0", "007", "255", "256", "65535", "65536", "4294967295", "4294967296"].iter() {
        assert_eq!(
            integer(input, 255).ok().map(|(_, v)| v),
            input.parse::<u8>().ok().map(u64::from)
        );
        assert_eq!(
            integer(input, 65535).ok().map(|(_, v)| v),
            input.parse::<u16>().ok().map(u64::from)
        );
        assert_eq!(
            integer(input, 4294967295).ok().map(|(_, v)| v),
            input.parse::<u32>().ok().map(u64::from)
        );
    }
}

fn short_texts() -> Vec<String> {
    let alphabet = [
        '"', '`', 'a', 'E', 'e', '1', '0', '.', '+', '-', ' ', '\t', '\n', '\r', '/', '#', '\'',
        '\u{e9}',
    ];
    let mut texts = vec![String::new()];
    let mut last = vec![String::new()];
    for _ in 0..4 {
        let mut next = Vec::new();
        for text in last.iter() {
            for c in alphabet.iter() {
                let mut longer = text.clone();
                longer.push(*c);
                next.push(longer);
            }
        }
        texts.extend(next.iter().cloned());
        last = next;
    }
    texts
}

#[test]
fn texts_agree_with_the_combinators_on_all_short_texts() {
    for input in short_texts().iter() {
        assert_eq!(
            from_library(string(input)),
            from_nom(nom_string(input)),
            "string on {:?}",
            input
        );
        assert_eq!(
            from_library(alphanumeric_or_other_ok1(input)),
            from_nom(nom_word(input)),
            "word on {:?}",
            input
        );
        assert_eq!(
            from_library(resource_path(input)),
            from_nom(nom_resource_path(input)),
            "resource path on {:?}",
            input
        );
    }
}

#[test]
fn layout_agrees_with_the_combinators_on_all_short_texts() {
    for input in short_texts().iter() {
        assert_eq!(
            from_library_unit(input, indent(input)),
            from_nom(nom_indent(input)),
            "indent on {:?}",
            input
        );
        assert_eq!(
            from_library_unit(input, comment_hole(input)),
            from_nom(nom_comment(input)),
            "comment on {:?}",
            input
        );
        assert_eq!(
            from_library_unit(input, line_ending(input)),
            from_nom(nom::character::complete::line_ending(input.as_str())),
            "line ending on {:?}",
            input
        );
        assert_eq!(
            from_library_unit(input, space1(input)),
            from_nom(nom::character::complete::space1(input.as_str())),
            "blanks on {:?}",
            input
        );
    }
}

#[test]
fn numbers_agree_with_the_combinators_on_all_short_texts() {
    for input in short_texts().iter() {
        assert_eq!(
            from_library(number(input)),
            from_nom(nom::number::complete::recognize_float(input.as_str())),
            "number on {:?}",
            input
        );
        assert_eq!(
            from_library_unit(input, integer(input, u64::MAX).map(|(rest, _)| (rest, ()))),
            from_nom(digit1(input.as_str())),
            "digits on {:?}",
            input
        );
        let single: Combined<f32> = nom::number::complete::float(input.as_str());
        match number(input) {
            Ok((rest, written)) => {
                assert_eq!(single, Ok((rest, written.parse::<f32>().unwrap())));
            }
            Err(_) => {
                assert!(single.is_err());
            }
        }
    }
}
