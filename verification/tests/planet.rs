use es_data_parser::planet::{parse_planet, parse_tribute};
use es_data_parser::{Context, DataError, Failure, Fleet, Mismatch, Tribute};

#[test]
fn can_parse_planet() {
    let data = r#"planet MyPlanet
	attributes a1 a2 a3
	landscape flyover/sea1
	description `This is a "special" planet`
	description `	It can have a complete description`
	spaceport `And also a spaceport!`
	shipyard "Some Ships"
	shipyard "Also Those Ships"
	outfitter "Basic Outifts"
	outfitter "Advanced Outfits"
	bribe 0.01
	security 0.5
	tribute 1000
		threshold 3000
		fleet "Impressive Fleet" 18
"#;

    let parsed = parse_planet(&data);
    assert!(parsed.is_ok());
    let planet = parsed.unwrap().1;

    assert_eq!(planet.name, "MyPlanet");
    assert_eq!(planet.attributes, vec!["a1", "a2", "a3"]);
    assert_eq!(planet.landscape, Some("flyover/sea1"));
    assert_eq!(
        planet
            .description
            .into_iter()
            .map(String::from)
            .collect::<Vec<_>>()
            .join("\n"),
        String::from(
            r#"This is a "special" planet
	It can have a complete description"#
        )
    );
    assert_eq!(
        planet
            .spaceport
            .into_iter()
            .map(String::from)
            .collect::<Vec<_>>()
            .join("\n"),
        String::from("And also a spaceport!")
    );
    assert_eq!(planet.shipyard, vec!["Some Ships", "Also Those Ships"]);
    assert_eq!(planet.outfitter, vec!["Basic Outifts", "Advanced Outfits"]);
    assert_eq!(planet.bribe.map(|v| v.parse::<f32>().unwrap()), Some(0.01));
    assert_eq!(planet.security.map(|v| v.parse::<f32>().unwrap()), Some(0.5));
    assert_eq!(
        planet.tribute,
        Some(Tribute {
            threshold: 3000,
            value: 1000,
            fleet: Fleet {
                kind: "Impressive Fleet",
                count: 18,
            }
        })
    )
}

#[test]
fn planet_fields_that_it_does_not_need_are_absent() {
    let planet = parse_planet("planet P\n\tdescription d\n").unwrap().1;
    assert_eq!(planet.name, "P");
    assert_eq!(planet.attributes, Vec::<&str>::new());
    assert_eq!(planet.landscape, None);
    assert_eq!(planet.government, None);
    assert_eq!(planet.music, None);
    assert_eq!(planet.description, vec!["d"]);
    assert_eq!(planet.spaceport, Vec::<&str>::new());
    assert_eq!(planet.shipyard, Vec::<&str>::new());
    assert_eq!(planet.outfitter, Vec::<&str>::new());
    assert_eq!(planet.bribe, None);
    assert_eq!(planet.security, None);
    assert_eq!(planet.tribute, None);
    assert_eq!(planet.required_reputation, None);
}

#[test]
fn planet_fields_in_any_order() {
    let first = parse_planet(
        "planet P\n\tlandscape l/x\n\tdescription a\n\tdescription b\n\tmusic m\n\tbribe 1\n",
    );
    let second = parse_planet(
        "planet P\n\tbribe 1\n\tmusic m\n\tdescription a\n\tdescription b\n\tlandscape l/x\n",
    );
    assert!(first.is_ok());
    assert_eq!(first, second);
}

#[test]
fn planet_lines_of_one_field_keep_their_order() {
    let planet = parse_planet(
        "planet P\n\tdescription z\n\tdescription a\n\tdescription m\n\tdescription a\n",
    )
    .unwrap()
    .1;
    assert_eq!(planet.description, vec!["z", "a", "m", "a"]);
}

#[test]
fn planet_field_that_comes_again_replaces_the_first() {
    let planet = parse_planet(
        "planet P\n\tdescription a\n\tbribe 1\n\tlandscape x\n\tdescription b\n\tbribe 2\n",
    )
    .unwrap()
    .1;
    assert_eq!(planet.description, vec!["b"]);
    assert_eq!(planet.bribe, Some("2"));
}

#[test]
fn planet_government_and_required_reputation() {
    let planet = parse_planet(
        "planet P\n\tgovernment \"Free Worlds\"\n\t\"required reputation\" 5.5\n\tdescription d\n",
    )
    .unwrap()
    .1;
    assert_eq!(planet.government, Some("Free Worlds"));
    assert_eq!(planet.required_reputation, Some("5.5"));
}

#[test]
fn planet_attributes_may_be_empty() {
    let planet = parse_planet("planet P\n\tattributes\n\tdescription d\n").unwrap().1;
    assert_eq!(planet.attributes, Vec::<&str>::new());
    assert_eq!(planet.description, vec!["d"]);
}

#[test]
fn planet_skips_blank_lines_behind_a_field() {
    let planet = parse_planet("planet P\n\tmusic m\n\n\n\tdescription d\n\nnext")
        .unwrap();
    assert_eq!(planet.0, "next");
    assert_eq!(planet.1.music, Some("m"));
    assert_eq!(planet.1.description, vec!["d"]);
}

#[test]
fn planet_without_description_is_invalid() {
    assert_eq!(
        parse_planet("planet P\n\tlandscape x\nnext"),
        Err(Failure::Hard(DataError::Validation {
            remaining: 4,
            data_type: "planet",
            field: "description",
        }))
    );
}

#[test]
fn planet_fails_hard_on_a_broken_field() {
    assert_eq!(
        parse_planet("planet P\n\tbribe x\n"),
        Err(Failure::Hard(DataError::Mismatch(Mismatch {
            remaining: 2,
            context: Context::Number,
        })))
    );
}

#[test]
fn tribute_fields_in_either_order() {
    let expected = Tribute {
        value: 10,
        threshold: 5,
        fleet: Fleet {
            kind: "F",
            count: 2,
        },
    };
    assert_eq!(
        parse_tribute("10\n\t\tthreshold 5\n\t\tfleet F 2\n"),
        Ok(("", expected.clone()))
    );
    assert_eq!(
        parse_tribute("10\n\t\tfleet F 2\n\t\tthreshold 5\n"),
        Ok(("", expected))
    );
}

#[test]
fn tribute_without_fleet_is_invalid() {
    assert_eq!(
        parse_planet("planet P\n\tdescription a\n\ttribute 10\n\t\tthreshold 5\n"),
        Err(Failure::Hard(DataError::Validation {
            remaining: 0,
            data_type: "tribute",
            field: "fleet",
        }))
    );
}

#[test]
fn planet_runs_of_one_field_merge_where_they_meet() {
    let apart = parse_planet("planet P\n\tdescription a\n\tbribe 1\n\tdescription b\n")
        .unwrap()
        .1;
    let together = parse_planet("planet P\n\tdescription a\n\tdescription b\n\tbribe 1\n")
        .unwrap()
        .1;
    assert_eq!(apart.description, vec!["b"]);
    assert_eq!(together.description, vec!["a", "b"]);
    assert_eq!(apart.bribe, together.bribe);
}
