use es_data_parser::helpers::{
    alphanumeric_or_other_ok1, comment_hole, date, indent, indents, integer, line_ending, number,
    resource_path, space1, string, tag,
};
use es_data_parser::{Context, DataError, Date, Failure, Mismatch};

fn soft(remaining: usize, context: Context) -> Option<Mismatch> {
    Some(Mismatch { remaining, context })
}

fn soft_mismatch<T>(result: Result<T, Failure>) -> Option<Mismatch> {
    match result {
        Err(Failure::Soft(DataError::Mismatch(m))) => Some(m),
        _ => None,
    }
}

fn hard_mismatch<T>(result: Result<T, Failure>) -> Option<Mismatch> {
    match result {
        Err(Failure::Hard(DataError::Mismatch(m))) => Some(m),
        _ => None,
    }
}

#[test]
fn indent_is_one_tab() {
    assert_eq!(indent("\tpos").unwrap(), ("pos", ()));
}

#[test]
fn indent_is_four_spaces() {
    assert_eq!(indent("    pos").unwrap(), ("pos", ()));
}

#[test]
fn indent_takes_one_unit_only() {
    assert_eq!(indent("\t\tpos").unwrap(), ("\tpos", ()));
    assert_eq!(indent("        pos").unwrap(), ("    pos", ()));
}

#[test]
fn indent_refuses_three_spaces() {
    assert_eq!(soft_mismatch(indent("   pos")), soft(6, Context::Indent));
}

#[test]
fn indent_refuses_spaces_then_tab() {
    assert_eq!(soft_mismatch(indent("  \tpos")), soft(6, Context::Indent));
}

#[test]
fn indent_refuses_empty_text() {
    assert_eq!(soft_mismatch(indent("")), soft(0, Context::Indent));
}

#[test]
fn indents_counts_units_of_both_forms() {
    assert_eq!(indents("\t    \tterm", 3).unwrap(), ("term", ()));
    assert_eq!(indents("term", 0).unwrap(), ("term", ()));
}

#[test]
fn indents_reports_where_a_unit_is_missing() {
    assert_eq!(soft_mismatch(indents("\t\tterm", 3)), soft(4, Context::Indent));
}

#[test]
fn string_between_double_quotes() {
    assert_eq!(string("\"Milky Way\" rest").unwrap(), (" rest", "Milky Way"));
}

#[test]
fn string_between_double_quotes_may_be_empty() {
    assert_eq!(string("\"\"x").unwrap(), ("x", ""));
}

#[test]
fn string_takes_quoted_text_verbatim() {
    assert_eq!(string("\"a\\n`b`\"").unwrap(), ("", "a\\n`b`"));
}

#[test]
fn string_bare_word() {
    assert_eq!(string("First-Empire's rest").unwrap(), (" rest", "First-Empire's"));
}

#[test]
fn string_bare_word_stops_at_other_bytes() {
    assert_eq!(string("ab/cd").unwrap(), ("/cd", "ab"));
    assert_eq!(string("caf\u{e9}").unwrap(), ("\u{e9}", "caf"));
}

#[test]
fn string_between_backticks() {
    assert_eq!(
        string("`This is a \"special\" planet`\n").unwrap(),
        ("\n", "This is a \"special\" planet")
    );
}

#[test]
fn string_between_backticks_may_span_lines() {
    assert_eq!(string("`a\nb`c").unwrap(), ("c", "a\nb"));
}

#[test]
fn string_keeps_text_that_is_not_ascii() {
    assert_eq!(string("\"\u{e9}t\u{e9}\"").unwrap(), ("", "\u{e9}t\u{e9}"));
    assert_eq!(string("`\u{4e16}\u{754c}` x").unwrap(), (" x", "\u{4e16}\u{754c}"));
}

#[test]
fn string_prefers_the_double_quote() {
    assert_eq!(string("\"a`b\"").unwrap(), ("", "a`b"));
}

#[test]
fn string_fails_softly_on_other_text() {
    assert_eq!(soft_mismatch(string("/x")), soft(2, Context::Text));
    assert_eq!(soft_mismatch(string("")), soft(0, Context::Text));
    assert_eq!(soft_mismatch(string(" x")), soft(2, Context::Text));
}

#[test]
fn string_fails_hard_on_an_open_quote() {
    assert_eq!(hard_mismatch(string("\"abc")), soft(3, Context::ClosingQuote));
    assert_eq!(hard_mismatch(string("`abc\n")), soft(4, Context::ClosingQuote));
}

#[test]
fn bare_word_needs_one_byte() {
    assert_eq!(alphanumeric_or_other_ok1("a1-'!").unwrap(), ("!", "a1-'"));
    assert_eq!(soft_mismatch(alphanumeric_or_other_ok1("!")), soft(1, Context::Text));
}

#[test]
fn resource_path_between_double_quotes() {
    assert_eq!(
        resource_path("\"ship/shuttle\"\n").unwrap(),
        ("\n", "ship/shuttle")
    );
}

#[test]
fn resource_path_to_the_end_of_the_line() {
    assert_eq!(
        resource_path("ui/galaxy two\nnext").unwrap(),
        ("\nnext", "ui/galaxy two")
    );
}

#[test]
fn resource_path_may_be_empty() {
    assert_eq!(resource_path("\nnext").unwrap(), ("\nnext", ""));
}

#[test]
fn resource_path_needs_a_line_feed() {
    assert_eq!(soft_mismatch(resource_path("ui/galaxy")), soft(9, Context::ResourcePath));
}

#[test]
fn resource_path_fails_hard_on_an_open_quote() {
    assert_eq!(hard_mismatch(resource_path("\"ui\n")), soft(3, Context::ClosingQuote));
}

#[test]
fn integer_reads_digits() {
    assert_eq!(integer("5000\n", u64::MAX).unwrap(), ("\n", 5000));
    assert_eq!(integer("12ab", 255).unwrap(), ("ab", 12));
}

#[test]
fn integer_reads_leading_zeros() {
    assert_eq!(integer("007", 255).unwrap(), ("", 7));
    assert_eq!(
        integer("0000000000000000000000000000001", 1).unwrap(),
        ("", 1)
    );
}

#[test]
fn integer_reads_the_greatest_value() {
    assert_eq!(integer("255", 255).unwrap(), ("", 255));
    assert_eq!(integer("65535 ", 65535).unwrap(), (" ", 65535));
    assert_eq!(integer("4294967295", 4294967295).unwrap(), ("", 4294967295));
    assert_eq!(
        integer("18446744073709551615", u64::MAX).unwrap(),
        ("", 18446744073709551615)
    );
}

#[test]
fn integer_refuses_what_does_not_fit() {
    assert_eq!(soft_mismatch(integer("256", 255)), soft(3, Context::Integer));
    assert_eq!(soft_mismatch(integer("65536", 65535)), soft(5, Context::Integer));
    assert_eq!(
        soft_mismatch(integer("4294967296", 4294967295)),
        soft(10, Context::Integer)
    );
    assert_eq!(
        soft_mismatch(integer("18446744073709551616", u64::MAX)),
        soft(20, Context::Integer)
    );
    assert_eq!(
        soft_mismatch(integer("99999999999999999999999", u64::MAX)),
        soft(23, Context::Integer)
    );
}

#[test]
fn integer_refuses_a_sign() {
    assert_eq!(soft_mismatch(integer("-5", 255)), soft(2, Context::Integer));
    assert_eq!(soft_mismatch(integer("+5", 255)), soft(2, Context::Integer));
    assert_eq!(soft_mismatch(integer("", 255)), soft(0, Context::Integer));
}

#[test]
fn number_keeps_the_literal() {
    assert_eq!(number("-27 32.8").unwrap(), (" 32.8", "-27"));
    assert_eq!(number("32.8\n").unwrap(), ("\n", "32.8"));
    assert_eq!(number("+0.005x").unwrap(), ("x", "+0.005"));
    assert_eq!(number("1.").unwrap(), ("", "1."));
    assert_eq!(number(".5 ").unwrap(), (" ", ".5"));
    assert_eq!(number("1.5.2").unwrap(), (".2", "1.5"));
}

#[test]
fn number_reads_an_exponent() {
    assert_eq!(number("11e-1").unwrap(), ("", "11e-1"));
    assert_eq!(number("123E-02 ").unwrap(), (" ", "123E-02"));
    assert_eq!(number("123K-01").unwrap(), ("K-01", "123"));
    assert_eq!(number("1e+5e").unwrap(), ("e", "1e+5"));
}

#[test]
fn number_values() {
    assert_eq!(number("-27").unwrap().1.parse::<f64>().unwrap(), -27.0);
    assert_eq!(number("11e-1").unwrap().1.parse::<f64>().unwrap(), 1.1);
    assert_eq!(number("123E-02").unwrap().1.parse::<f32>().unwrap(), 1.23);
    assert_eq!(number(".5").unwrap().1.parse::<f32>().unwrap(), 0.5);
    assert_eq!(number("1.").unwrap().1.parse::<f32>().unwrap(), 1.0);
}

#[test]
fn number_fails_softly_without_digits() {
    assert_eq!(soft_mismatch(number("abc")), soft(3, Context::Number));
    assert_eq!(soft_mismatch(number("-")), soft(1, Context::Number));
    assert_eq!(soft_mismatch(number(".")), soft(1, Context::Number));
    assert_eq!(soft_mismatch(number("-.x")), soft(3, Context::Number));
    assert_eq!(soft_mismatch(number("")), soft(0, Context::Number));
}

#[test]
fn number_fails_hard_on_an_exponent_without_digits() {
    assert_eq!(hard_mismatch(number("1e")), soft(0, Context::Exponent));
    assert_eq!(hard_mismatch(number("1e+ x")), soft(2, Context::Exponent));
    assert_eq!(hard_mismatch(number("2.5Ex")), soft(1, Context::Exponent));
}

#[test]
fn date_is_day_month_year() {
    assert_eq!(
        date("01 07 2020\n").unwrap(),
        (
            "\n",
            Date {
                year: 2020,
                month: 7,
                day: 1
            }
        )
    );
}

#[test]
fn date_takes_tabs_and_runs_of_blanks() {
    assert_eq!(
        date("31\t12   65535").unwrap(),
        (
            "",
            Date {
                year: 65535,
                month: 12,
                day: 31
            }
        )
    );
}

#[test]
fn date_refuses_parts_that_do_not_fit() {
    assert_eq!(soft_mismatch(date("256 07 2020")), soft(11, Context::Integer));
    assert_eq!(soft_mismatch(date("01 256 2020")), soft(8, Context::Integer));
    assert_eq!(soft_mismatch(date("01 07 65536")), soft(5, Context::Integer));
}

#[test]
fn date_needs_three_parts() {
    assert_eq!(soft_mismatch(date("01 07")), soft(0, Context::Space));
    assert_eq!(soft_mismatch(date("01 07 ")), soft(0, Context::Integer));
    assert_eq!(soft_mismatch(date("01-07-2020")), soft(8, Context::Space));
}

#[test]
fn comment_with_slashes() {
    assert_eq!(comment_hole("// my comment\nnext").unwrap(), ("next", ()));
}

#[test]
fn comment_with_hash() {
    assert_eq!(comment_hole("#\nnext").unwrap(), ("next", ()));
}

#[test]
fn comment_needs_its_mark() {
    assert_eq!(soft_mismatch(comment_hole("/ x\n")), soft(4, Context::Comment));
    assert_eq!(soft_mismatch(comment_hole(" # x\n")), soft(5, Context::Comment));
    assert_eq!(soft_mismatch(comment_hole("")), soft(0, Context::Comment));
}

#[test]
fn comment_needs_a_line_feed() {
    assert_eq!(soft_mismatch(comment_hole("// last line")), soft(12, Context::Comment));
}

#[test]
fn line_ending_of_both_forms() {
    assert_eq!(line_ending("\nx").unwrap(), ("x", ()));
    assert_eq!(line_ending("\r\nx").unwrap(), ("x", ()));
    assert_eq!(soft_mismatch(line_ending("\rx")), soft(2, Context::LineEnding));
    assert_eq!(soft_mismatch(line_ending("x")), soft(1, Context::LineEnding));
}

#[test]
fn space1_takes_spaces_and_tabs() {
    assert_eq!(space1(" \t x").unwrap(), ("x", ()));
    assert_eq!(soft_mismatch(space1("x")), soft(1, Context::Space));
    assert_eq!(soft_mismatch(space1("\nx")), soft(2, Context::Space));
}

#[test]
fn tag_reads_a_keyword() {
    assert_eq!(tag("galaxy x", "galaxy", Context::GalaxyTag).unwrap(), (" x", ()));
    assert_eq!(tag("x", "", Context::Keyword).unwrap(), ("x", ()));
    assert_eq!(
        tag("\u{e9}t\u{e9}", "\u{e9}", Context::Keyword).unwrap(),
        ("t\u{e9}", ())
    );
}

#[test]
fn tag_names_its_context() {
    assert_eq!(
        soft_mismatch(tag("galax", "galaxy", Context::GalaxyTag)),
        soft(5, Context::GalaxyTag)
    );
    assert_eq!(
        soft_mismatch(tag("Galaxy", "galaxy", Context::Keyword)),
        soft(6, Context::Keyword)
    );
}
