use es_data_parser::builders::{GalaxyBuilder, PlanetBuilder, ShipWeaponBuilder};
use es_data_parser::{Context, DataError, Failure, Galaxy, Mismatch, Position, ShipWeapon};

#[test]
fn from_error_kind_is_a_mismatch() {
    assert_eq!(
        DataError::from_error_kind(7, Context::Integer),
        DataError::Mismatch(Mismatch {
            remaining: 7,
            context: Context::Integer
        })
    );
}

#[test]
fn append_collects_mismatches_in_order() {
    let first = DataError::from_error_kind(7, Context::GalaxyTag);
    let second = DataError::append(7, Context::ShipTag, first);
    assert_eq!(
        second,
        DataError::Aggregate(vec![
            Mismatch {
                remaining: 7,
                context: Context::GalaxyTag
            },
            Mismatch {
                remaining: 7,
                context: Context::ShipTag
            },
        ])
    );
    let third = DataError::append(6, Context::Comment, second);
    assert_eq!(
        third,
        DataError::Aggregate(vec![
            Mismatch {
                remaining: 7,
                context: Context::GalaxyTag
            },
            Mismatch {
                remaining: 7,
                context: Context::ShipTag
            },
            Mismatch {
                remaining: 6,
                context: Context::Comment
            },
        ])
    );
}

#[test]
fn append_keeps_a_validation_error() {
    let invalid = DataError::Validation {
        remaining: 3,
        data_type: "galaxy",
        field: "pos",
    };
    assert_eq!(
        DataError::append(9, Context::Comment, invalid.clone()),
        invalid
    );
}

#[test]
fn failure_can_be_made_hard() {
    let error = DataError::from_error_kind(1, Context::Space);
    assert!(!Failure::Soft(error.clone()).is_hard());
    assert!(Failure::Hard(error.clone()).is_hard());
    assert_eq!(
        Failure::Soft(error.clone()).harden(),
        Failure::Hard(error.clone())
    );
    assert_eq!(
        Failure::Hard(error.clone()).harden(),
        Failure::Hard(error.clone())
    );
    assert_eq!(Failure::Soft(error.clone()).into_error(), error);
}

#[test]
fn contexts_have_labels() {
    assert_eq!(Context::Indent.label(), "indent");
    assert_eq!(Context::Text.label(), "string");
    assert_eq!(Context::ResourcePath.label(), "resource path");
    assert_eq!(Context::Integer.label(), "integer");
    assert_eq!(Context::GalaxyTag.label(), "galaxy tag");
    assert_eq!(Context::Comment.label(), "comment");
}

#[test]
fn build_names_the_first_missing_field() {
    let mut draft = GalaxyBuilder::new();
    assert_eq!(draft.build().err(), Some("pos"));
    draft = GalaxyBuilder::new();
    draft.sprite = Some("s");
    draft.name = Some("G");
    assert_eq!(draft.build().err(), Some("pos"));
    draft = GalaxyBuilder::new();
    draft.pos = Some(Position { x: "1", y: "2" });
    assert_eq!(draft.build().err(), Some("name"));
}

#[test]
fn build_yields_the_record() {
    let mut draft = GalaxyBuilder::new();
    draft.pos = Some(Position { x: "1", y: "2" });
    draft.name = Some("G");
    assert_eq!(
        draft.build(),
        Ok(Galaxy {
            pos: Position { x: "1", y: "2" },
            name: "G",
            sprite: None
        })
    );
}

#[test]
fn build_checks_fields_in_declaration_order() {
    let mut draft = ShipWeaponBuilder::new();
    draft.hit_force = Some(4);
    draft.shield_damage = Some(2);
    assert_eq!(draft.build().err(), Some("blast_radius"));
    draft = ShipWeaponBuilder::new();
    draft.blast_radius = Some(1);
    draft.shield_damage = Some(2);
    assert_eq!(draft.build().err(), Some("hull_damage"));
    draft = ShipWeaponBuilder::new();
    draft.blast_radius = Some(1);
    draft.shield_damage = Some(2);
    draft.hull_damage = Some(3);
    draft.hit_force = Some(4);
    assert_eq!(
        draft.build(),
        Ok(ShipWeapon {
            blast_radius: 1,
            shield_damage: 2,
            hull_damage: 3,
            hit_force: 4
        })
    );
}

#[test]
fn finish_names_the_record() {
    let mut draft = PlanetBuilder::new();
    draft.name = Some("P");
    assert_eq!(
        draft.finish("rest"),
        Err(Failure::Hard(DataError::Validation {
            remaining: 4,
            data_type: "planet",
            field: "description",
        }))
    );
    let mut draft = PlanetBuilder::new();
    draft.name = Some("P");
    draft.description = Some(vec!["d"]);
    let (rest, planet) = draft.finish("rest").unwrap();
    assert_eq!(rest, "rest");
    assert_eq!(planet.description, vec!["d"]);
    assert_eq!(planet.shipyard, Vec::<&str>::new());
}
