use es_data_parser::ship::{
    parse_outfits, parse_ship, parse_ship_attributes, parse_ship_weapon, parse_sprite,
};
use es_data_parser::{Context, DataError, Failure, Mismatch, ShipWeapon, Sprite};

fn mount<'a>(entry: &(&'a str, &'a str, Option<&'a str>)) -> (f32, f32, Option<&'a str>) {
    (
        entry.0.parse::<f32>().unwrap(),
        entry.1.parse::<f32>().unwrap(),
        entry.2,
    )
}

#[test]
fn can_parse_ship() {
    let data = r#"ship "Shuttle"
    sprite "ship/shuttle"
    thumbnail "thumbnail/shuttle"
    attributes
        category "Transport"
        "cost" 100000
        "shields" 1000
        "hull" 100
        "required crew" 1
        "bunks" 2
        "mass" 50
        "drag" 1
        "heat dissipation" 1
        "fuel capacity" 500
        "cargo space" 20
        "outfit space" 100
        "weapon capacity" 0
        "engine capacity" 60
        weapon
            "blast radius" 10
            "shield damage" 100
            "hull damage" 50
            "hit force" 200
    outfits
        "Fuel Cell"
        "Battery Pack"
        "Shield Generator"

        "Fuel Thruster"
        "Fuel Steering"
        "Hyperdrive"

    engine -5 50
    engine 5 50
    gun 0 -30
    leak "leak" 50 50
    explode "explosion" 10
    description "My Shuttle."
    description `   It doesn't do much.`
"#;

    let parsed = parse_ship(data);
    assert!(parsed.is_ok());
    let ship = parsed.unwrap().1;

    assert_eq!(ship.name, "Shuttle");
    assert_eq!(ship.subclass, None);
    assert_eq!(ship.plural, None);
    assert_eq!(ship.sprite, Sprite::Simple("ship/shuttle"));
    assert_eq!(ship.thumbnail, "thumbnail/shuttle");

    let attributes = &ship.attributes;
    assert_eq!(attributes.licenses, Vec::<&str>::new());
    assert_eq!(attributes.category, "Transport");
    assert_eq!(attributes.cost, 100000);
    assert_eq!(attributes.shields, 1000);
    assert_eq!(attributes.hull, 100);
    assert_eq!(attributes.automaton, false);
    assert_eq!(attributes.required_crew, 1);
    assert_eq!(attributes.bunks, 2);
    assert_eq!(attributes.mass, 50);
    assert_eq!(attributes.drag.parse::<f32>().unwrap(), 1.0);
    assert_eq!(attributes.heat_dissipation.parse::<f32>().unwrap(), 1.0);
    assert_eq!(attributes.fuel_capacity, 500);
    assert_eq!(attributes.cargo_space, 20);
    assert_eq!(attributes.outfit_space, 100);
    assert_eq!(attributes.weapon_capacity, 0);
    assert_eq!(attributes.engine_capacity, 60);
    assert_eq!(
        attributes.weapon,
        ShipWeapon {
            blast_radius: 10,
            shield_damage: 100,
            hull_damage: 50,
            hit_force: 200,
        }
    );
    assert_eq!(
        ship.outfits,
        vec![
            ("Fuel Cell", 1),
            ("Battery Pack", 1),
            ("Shield Generator", 1),
            ("Fuel Thruster", 1),
            ("Fuel Steering", 1),
            ("Hyperdrive", 1)
        ]
    );
    assert_eq!(
        ship.engine.iter().map(mount).collect::<Vec<_>>(),
        vec![(-5.0, 50.0, None), (5.0, 50.0, None)]
    );
    assert_eq!(
        ship.gun.iter().map(mount).collect::<Vec<_>>(),
        vec![(0.0, -30.0, None)]
    );
    assert_eq!(ship.turret, vec![]);
    assert_eq!(ship.fighter, vec![]);
    assert_eq!(ship.drone, vec![]);
    assert_eq!(ship.leak, vec![("leak", 50, 50)]);
    assert_eq!(ship.explode, vec![("explosion", 10)]);
    assert_eq!(ship.final_explode, None);
    assert_eq!(
        ship.description,
        vec!["My Shuttle.", "   It doesn\'t do much."]
    );
}

#[test]
fn outfits_with_a_blank_line_are_one_list() {
    assert_eq!(
        parse_outfits("\n\t\t\"Fuel Cell\"\n\t\tBattery 2\n\n\t\t\"Shield Generator\"\n\t\t\n\t\tHyperdrive 3\n\tengine 1 2\n"),
        Ok((
            "\tengine 1 2\n",
            vec![
                ("Fuel Cell", 1),
                ("Battery", 2),
                ("Shield Generator", 1),
                ("Hyperdrive", 3)
            ]
        ))
    );
}

#[test]
fn outfits_need_one_entry() {
    assert_eq!(
        parse_outfits("\n\tengine 1 2\n"),
        Err(Failure::Soft(DataError::Mismatch(Mismatch {
            remaining: 11,
            context: Context::Indent,
        })))
    );
}

#[test]
fn sprite_without_animation_is_simple() {
    assert_eq!(
        parse_sprite("ship/x\n\tthumbnail t\n"),
        Ok(("\n\tthumbnail t\n", Sprite::Simple("ship/x")))
    );
}

#[test]
fn sprite_with_animation() {
    assert_eq!(
        parse_sprite("\"ship/x\"\n\t\t\"frame time\" 10\n\t\t\"delay\" 5\n\t\t\"random start frame\"\n\tthumbnail t\n"),
        Ok((
            "\tthumbnail t\n",
            Sprite::Sprite {
                name: "ship/x",
                frame_time: 10,
                delay: 5,
                random_start_frame: true,
            }
        ))
    );
    assert_eq!(
        parse_sprite("ship/x\n\t\t\"frame time\" 10\n\t\t\"delay\" 5\n\tthumbnail t\n"),
        Ok((
            "\tthumbnail t\n",
            Sprite::Sprite {
                name: "ship/x",
                frame_time: 10,
                delay: 5,
                random_start_frame: false,
            }
        ))
    );
}

#[test]
fn sprite_animation_needs_its_delay() {
    assert_eq!(
        parse_sprite("ship/x\n\t\t\"frame time\" 10\n\tthumbnail t\n"),
        Err(Failure::Soft(DataError::Mismatch(Mismatch {
            remaining: 12,
            context: Context::Indent,
        })))
    );
}

#[test]
fn weapon_needs_all_four_fields() {
    assert_eq!(
        parse_ship_weapon("\n\t\t\t\"hit force\" 4\n\t\t\t\"hull damage\" 3\n\t\t\t\"shield damage\" 2\n\t\t\t\"blast radius\" 1\n"),
        Ok((
            "",
            ShipWeapon {
                blast_radius: 1,
                shield_damage: 2,
                hull_damage: 3,
                hit_force: 4,
            }
        ))
    );
    assert_eq!(
        parse_ship_weapon("\n\t\t\t\"hit force\" 4\n\t\t\t\"blast radius\" 1\n"),
        Err(Failure::Hard(DataError::Validation {
            remaining: 0,
            data_type: "ship attributes - weapon",
            field: "shield_damage",
        }))
    );
}

#[test]
fn attributes_with_licenses_and_defaults() {
    let data = "\n\t\tlicenses\n\t\t\tPilot\n\t\t\t\"Navy Cruiser\"\n\t\tcategory X\n\t\tcost 5\n\t\t\"hull\" 1\n\t\t\"automaton\" 1\n\t\t\"mass\" 2\n\t\t\"drag\" 0.5\n\t\t\"heat dissipation\" .7\n\t\t\"outfit space\" 3\n\t\t\"engine capacity\" 4\n\t\tweapon\n\t\t\t\"blast radius\" 1\n\t\t\t\"shield damage\" 2\n\t\t\t\"hull damage\" 3\n\t\t\t\"hit force\" 4\n\toutfits\n";
    let (rest, attributes) = parse_ship_attributes(data).unwrap();
    assert_eq!(rest, "\toutfits\n");
    assert_eq!(attributes.licenses, vec!["Pilot", "Navy Cruiser"]);
    assert_eq!(attributes.category, "X");
    assert_eq!(attributes.cost, 5);
    assert_eq!(attributes.shields, 0);
    assert_eq!(attributes.hull, 1);
    assert_eq!(attributes.automaton, true);
    assert_eq!(attributes.required_crew, 0);
    assert_eq!(attributes.bunks, 0);
    assert_eq!(attributes.mass, 2);
    assert_eq!(attributes.drag, "0.5");
    assert_eq!(attributes.heat_dissipation, ".7");
    assert_eq!(attributes.fuel_capacity, 0);
    assert_eq!(attributes.cargo_space, 0);
    assert_eq!(attributes.outfit_space, 3);
    assert_eq!(attributes.weapon_capacity, 0);
    assert_eq!(attributes.engine_capacity, 4);
    assert_eq!(attributes.weapon.hit_force, 4);
}

#[test]
fn attributes_name_the_first_missing_field() {
    assert_eq!(
        parse_ship_attributes("\n\t\t\"cost\" 5\n"),
        Err(Failure::Hard(DataError::Validation {
            remaining: 0,
            data_type: "ship attributes",
            field: "category",
        }))
    );
    assert_eq!(
        parse_ship_attributes("\n\t\tcategory X\n\t\t\"cost\" 5\n\t\t\"automaton\" 0\n"),
        Err(Failure::Hard(DataError::Validation {
            remaining: 0,
            data_type: "ship attributes",
            field: "hull",
        }))
    );
}

#[test]
fn attributes_refuse_a_cost_that_does_not_fit() {
    assert_eq!(
        parse_ship_attributes("\n\t\tcategory X\n\t\t\"cost\" 4294967296\n"),
        Err(Failure::Hard(DataError::Mismatch(Mismatch {
            remaining: 11,
            context: Context::Integer,
        })))
    );
}

fn small_ship(header: &str, fields: &str) -> String {
    let mut data = String::from(header);
    data.push_str("\n\tsprite s\n\tthumbnail t\n\tattributes\n\t\tcategory X\n\t\tcost 5\n\t\t\"hull\" 1\n\t\t\"mass\" 2\n\t\t\"drag\" 0.5\n\t\t\"heat dissipation\" .7\n\t\t\"outfit space\" 3\n\t\t\"engine capacity\" 4\n\t\tweapon\n\t\t\t\"blast radius\" 1\n\t\t\t\"shield damage\" 2\n\t\t\t\"hull damage\" 3\n\t\t\t\"hit force\" 4\n\toutfits\n\t\tO\n");
    data.push_str(fields);
    data
}

#[test]
fn ship_with_subclass_and_all_mounts() {
    let data = small_ship(
        "ship \"Shuttle\" \"Fast Shuttle\"",
        "\tplural Shuttles\n\tengine 1 2 0.5\n\tgun 1 2 \"Laser\"\n\tturret -1 -2\n\tfighter 3 4 over\n\tdrone 5 6\n\texplode e 1\n\texplode f 2\n\t\"final explode\" \"big bang\"\n\tdescription d\n",
    );
    let (rest, ship) = parse_ship(&data).unwrap();
    assert_eq!(rest, "");
    assert_eq!(ship.name, "Shuttle");
    assert_eq!(ship.subclass, Some("Fast Shuttle"));
    assert_eq!(ship.plural, Some("Shuttles"));
    assert_eq!(ship.outfits, vec![("O", 1)]);
    assert_eq!(ship.engine, vec![("1", "2", Some("0.5"))]);
    assert_eq!(ship.gun, vec![("1", "2", Some("Laser"))]);
    assert_eq!(ship.turret, vec![("-1", "-2", None)]);
    assert_eq!(ship.fighter, vec![("3", "4", Some("over"))]);
    assert_eq!(ship.drone, vec![("5", "6", None)]);
    assert_eq!(ship.leak, vec![]);
    assert_eq!(ship.explode, vec![("e", 1), ("f", 2)]);
    assert_eq!(ship.final_explode, Some("big bang"));
    assert_eq!(ship.description, vec!["d"]);
}

#[test]
fn ship_fields_in_any_order() {
    let first = small_ship(
        "ship S",
        "\tengine 1 2\n\tengine 3 4\n\tgun 5 6\n\texplode e 1\n\tdescription d\n",
    );
    let second = {
        let mut data = String::from("ship S\n\tdescription d\n\texplode e 1\n\tgun 5 6\n\tengine 1 2\n\tengine 3 4\n");
        data.push_str(&small_ship("", "")[1..]);
        data
    };
    let parsed = parse_ship(&first);
    assert!(parsed.is_ok());
    assert_eq!(parsed, parse_ship(&second));
}

#[test]
fn ship_names_the_first_missing_field() {
    assert_eq!(
        parse_ship("ship S\n\tplural Ss\n"),
        Err(Failure::Hard(DataError::Validation {
            remaining: 0,
            data_type: "ship",
            field: "sprite",
        }))
    );
    assert_eq!(
        parse_ship(&small_ship("ship S", "\texplode e 1\n\tdescription d\n")),
        Err(Failure::Hard(DataError::Validation {
            remaining: 0,
            data_type: "ship",
            field: "engine",
        }))
    );
}

#[test]
fn ship_fails_on_invalid_attributes() {
    assert_eq!(
        parse_ship("ship S\n\tattributes\n\t\tcategory X\n\tsprite s\n"),
        Err(Failure::Hard(DataError::Validation {
            remaining: 10,
            data_type: "ship attributes",
            field: "cost",
        }))
    );
}
