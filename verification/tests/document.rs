use es_data_parser::document::piece;
use es_data_parser::{parse, validate, Context, DataError, Failure, Mismatch, Object};

fn nothing_fits(remaining: usize) -> DataError {
    DataError::Aggregate(vec![
        Mismatch { remaining, context: Context::StartTag },
        Mismatch { remaining, context: Context::PlanetTag },
        Mismatch { remaining, context: Context::GalaxyTag },
        Mismatch { remaining, context: Context::SystemTag },
        Mismatch { remaining, context: Context::ShipTag },
        Mismatch { remaining, context: Context::LineEnding },
        Mismatch { remaining, context: Context::Comment },
    ])
}

fn kinds(records: &[Object]) -> Vec<&'static str> {
    records
        .iter()
        .map(|record| match record {
            Object::Start(_) => "start",
            Object::Planet(_) => "planet",
            Object::Galaxy(_) => "galaxy",
            Object::System(_) => "system",
            Object::Ship(_) => "ship",
        })
        .collect()
}

#[test]
fn will_fail_for_empty_input() {
    assert!(validate("").is_err())
}

#[test]
fn can_parse_varied_input() {
    let data = r#"
// my comment

planet MyPlanet
    attributes a1 a2 a3
    landscape my/picture
	description `This is a "special" planet`
	description `	It can have a complete description`
	spaceport `And also a spaceport!`
	shipyard "Some Ships"
	shipyard "Also Those Ships"
	outfitter "Basic Outifts"
	outfitter "Advanced Outfits"
	bribe 0.01
	security 0.5
	tribute 1000
		threshold 3000
		fleet "Impressive Fleet" 18

start
	system "my system"
	planet "this planet"
    date 01 07 2020
	set "my license"
	account
		credits 5000
		score 100
		mortgage Mortgage
			principal 33333
			interest 0.005
            term 365
"#;
    let parsed = validate(data);
    assert!(parsed.is_ok());
}

#[test]
fn empty_input_fits_no_alternative() {
    assert_eq!(validate(""), Err(Failure::Soft(nothing_fits(0))));
    assert_eq!(parse(""), vec![]);
}

#[test]
fn blank_lines_and_comments_give_no_record() {
    assert_eq!(validate("\n"), Ok(("", vec![])));
    assert_eq!(validate("\r\n// a\n# b\n\n"), Ok(("", vec![])));
}

#[test]
fn records_come_in_the_order_of_the_text() {
    let data = "galaxy A\n\tpos 1 2\n\n# between\nsystem S\n\tpos 1 2\n\tgovernment G\n\thabitable 3\ngalaxy B\n\tpos 3 4\nplanet P\n\tdescription d\n";
    let (rest, records) = validate(data).unwrap();
    assert_eq!(rest, "");
    assert_eq!(kinds(&records), vec!["galaxy", "system", "galaxy", "planet"]);
    match &records[2] {
        Object::Galaxy(galaxy) => assert_eq!(galaxy.name, "B"),
        _ => panic!("the third record is a galaxy"),
    }
    assert_eq!(parse(data), records);
}

#[test]
fn strict_parsing_fails_where_nothing_fits() {
    let data = "galaxy A\n\tpos 1 2\nnebula N\ngalaxy B\n\tpos 3 4\n";
    assert_eq!(validate(data), Err(Failure::Soft(nothing_fits(27))));
}

#[test]
fn best_effort_parsing_stops_where_nothing_fits() {
    let data = "galaxy A\n\tpos 1 2\ngalaxy B\n\tpos 3 4\nnebula N\ngalaxy C\n\tpos 5 6\n";
    let records = parse(data);
    assert_eq!(kinds(&records), vec!["galaxy", "galaxy"]);
}

#[test]
fn strict_parsing_fails_on_a_field_that_is_left_over() {
    let data = "galaxy A\n\tpos 1 2\n\tcolor red\n";
    assert_eq!(validate(data), Err(Failure::Soft(nothing_fits(11))));
    assert_eq!(kinds(&parse(data)), vec!["galaxy"]);
}

#[test]
fn a_broken_record_fails_hard() {
    let data = "galaxy A\n\tpos 1 2\nplanet P\n\tlandscape l\ngalaxy B\n\tpos 3 4\n";
    assert_eq!(
        validate(data),
        Err(Failure::Hard(DataError::Validation {
            remaining: 18,
            data_type: "planet",
            field: "description",
        }))
    );
    assert_eq!(kinds(&parse(data)), vec!["galaxy"]);
}

#[test]
fn a_comment_on_the_last_line_needs_its_line_feed() {
    assert_eq!(validate("\n# last"), Err(Failure::Soft(nothing_fits(6))));
}

#[test]
fn piece_tells_records_from_gaps() {
    let (rest, found) = piece("galaxy A\n\tpos 1 2\nnext").unwrap();
    assert_eq!(rest, "next");
    assert_eq!(kinds(&[found.unwrap()]), vec!["galaxy"]);
    assert_eq!(piece("\nnext"), Ok(("next", None)));
    assert_eq!(piece("// c\nnext"), Ok(("next", None)));
    assert_eq!(piece("next"), Err(Failure::Soft(nothing_fits(4))));
}

#[test]
fn a_keyword_needs_its_blank() {
    assert_eq!(
        validate("shipyard\n"),
        Err(Failure::Hard(DataError::Mismatch(Mismatch {
            remaining: 5,
            context: Context::Space,
        })))
    );
}
