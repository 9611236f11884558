use es_data_parser::galaxy::parse_galaxy;
use es_data_parser::{Context, DataError, Failure, Galaxy, Mismatch, Position};

#[test]
fn can_parse_galaxy() {
    let data = "galaxy \"Milky Way\"\n\tpos -27 32.8\n\tsprite ui/galaxy\n\n";

    let parsed = parse_galaxy(data);
    assert!(parsed.is_ok());
    let galaxy = parsed.unwrap().1;

    assert_eq!(galaxy.name, "Milky Way");
    assert_eq!(galaxy.pos.x.parse::<f64>().unwrap(), -27.0);
    assert_eq!(galaxy.pos.y.parse::<f64>().unwrap(), 32.8);
    assert_eq!(galaxy.sprite, Some("ui/galaxy"));
}

#[test]
fn galaxy_leaves_what_follows_unread() {
    let data = "galaxy \"Milky Way\"\n\tpos -27 32.8\n\tsprite ui/galaxy\n\n";
    assert_eq!(
        parse_galaxy(data),
        Ok((
            "\n",
            Galaxy {
                name: "Milky Way",
                pos: Position { x: "-27", y: "32.8" },
                sprite: Some("ui/galaxy"),
            }
        ))
    );
}

#[test]
fn galaxy_fields_in_either_order() {
    let first = parse_galaxy("galaxy G\n\tpos 1 2\n\tsprite a/b\nnext");
    let second = parse_galaxy("galaxy G\n\tsprite a/b\n\tpos 1 2\nnext");
    assert!(first.is_ok());
    assert_eq!(first, second);
}

#[test]
fn galaxy_without_sprite() {
    assert_eq!(
        parse_galaxy("galaxy G\n    pos 1 2\n"),
        Ok((
            "",
            Galaxy {
                name: "G",
                pos: Position { x: "1", y: "2" },
                sprite: None,
            }
        ))
    );
}

#[test]
fn galaxy_without_pos_is_invalid() {
    assert_eq!(
        parse_galaxy("galaxy G\n\tsprite a\nnext"),
        Err(Failure::Hard(DataError::Validation {
            remaining: 4,
            data_type: "galaxy",
            field: "pos",
        }))
    );
}

#[test]
fn galaxy_keeps_its_fields_before_an_unknown_tag() {
    assert_eq!(
        parse_galaxy("galaxy G\n\tpos 1 2\n\tcolor red\n\tsprite a\n"),
        Ok((
            "\tcolor red\n\tsprite a\n",
            Galaxy {
                name: "G",
                pos: Position { x: "1", y: "2" },
                sprite: None,
            }
        ))
    );
}

#[test]
fn galaxy_takes_each_field_once() {
    assert_eq!(
        parse_galaxy("galaxy G\n\tpos 1 2\n\tpos 3 4\n"),
        Ok((
            "\tpos 3 4\n",
            Galaxy {
                name: "G",
                pos: Position { x: "1", y: "2" },
                sprite: None,
            }
        ))
    );
}

#[test]
fn galaxy_fails_softly_on_another_keyword() {
    assert_eq!(
        parse_galaxy("planet X\n"),
        Err(Failure::Soft(DataError::Mismatch(Mismatch {
            remaining: 9,
            context: Context::GalaxyTag,
        })))
    );
}

#[test]
fn galaxy_fails_hard_behind_its_keyword() {
    assert_eq!(
        parse_galaxy("galaxy\n"),
        Err(Failure::Hard(DataError::Mismatch(Mismatch {
            remaining: 1,
            context: Context::Space,
        })))
    );
    assert_eq!(
        parse_galaxy("galaxy G H\n"),
        Err(Failure::Hard(DataError::Mismatch(Mismatch {
            remaining: 3,
            context: Context::LineEnding,
        })))
    );
}

#[test]
fn galaxy_fails_hard_on_a_broken_number() {
    assert_eq!(
        parse_galaxy("galaxy G\n\tpos 1e 2\n"),
        Err(Failure::Hard(DataError::Mismatch(Mismatch {
            remaining: 3,
            context: Context::Exponent,
        })))
    );
}
