use es_data_parser::system::{parse_object, parse_system};
use es_data_parser::{DataError, Failure, Fleet, SystemObject, Trade};

fn decimal(text: &str) -> f32 {
    text.parse::<f32>().unwrap()
}

fn object_values(
    object: &SystemObject,
) -> (
    Option<String>,
    Option<String>,
    Option<f32>,
    f32,
    Option<f32>,
    usize,
) {
    (
        object.name.map(String::from),
        object.sprite.map(String::from),
        object.distance.map(decimal),
        decimal(object.period),
        object.offset.map(decimal),
        object.objects.len(),
    )
}

fn depth_of(object: &SystemObject) -> usize {
    1 + object.objects.iter().map(depth_of).max().unwrap_or(0)
}

#[test]
fn can_parse_system() {
    let data = r#"system "My System"
    pos -192873.2 123.456
    government FirstEmpire
    habitable 823.12
    belt 1010
    link "Other System"
    asteroids "small rock" 1 2.222
    asteroids "large metal" 7 2.345
    minables lead 11 10
    trade Goods 100
    fleet "Small Vessel" 100
    object
        sprite planet/visual-planet
        distance 1811.79
        period 1129.48
        object Moon
            sprite moon/nice-moon
            distance 229
            period 12.994
    object
        sprite star/k5
        distance 49.335
        period 18.0618
        offset 180
"#;

    let parsed = parse_system(&data);
    assert!(parsed.is_ok());
    let system = parsed.unwrap().1;

    assert_eq!(system.name, "My System");
    assert_eq!(system.pos.x.parse::<f64>().unwrap(), -192873.2);
    assert_eq!(system.pos.y.parse::<f64>().unwrap(), 123.456);
    assert_eq!(decimal(system.habitable), 823.12);
    assert_eq!(system.belt, Some(1010));
    assert_eq!(system.links, vec!["Other System"]);
    assert_eq!(system.asteroids.len(), 2);
    assert_eq!(system.asteroids[0].name, "small rock");
    assert_eq!(system.asteroids[0].first_value, 1);
    assert_eq!(decimal(system.asteroids[0].second_value), 2.222);
    assert_eq!(system.asteroids[1].name, "large metal");
    assert_eq!(system.asteroids[1].first_value, 7);
    assert_eq!(decimal(system.asteroids[1].second_value), 2.345);
    assert_eq!(system.minables.len(), 1);
    assert_eq!(system.minables[0].name, "lead");
    assert_eq!(system.minables[0].first_value, 11);
    assert_eq!(decimal(system.minables[0].second_value), 10.0);
    assert_eq!(
        system.trades,
        vec![Trade {
            name: "Goods",
            price: 100
        }]
    );
    assert_eq!(
        system.fleets,
        vec![Fleet {
            kind: "Small Vessel",
            count: 100
        }]
    );

    assert_eq!(system.objects.len(), 2);
    assert_eq!(
        object_values(&system.objects[0]),
        (
            None,
            Some(String::from("planet/visual-planet")),
            Some(1811.79),
            1129.48,
            None,
            1
        )
    );
    assert_eq!(
        object_values(&system.objects[0].objects[0]),
        (
            Some(String::from("Moon")),
            Some(String::from("moon/nice-moon")),
            Some(229.0),
            12.994,
            None,
            0
        )
    );
    assert_eq!(
        object_values(&system.objects[1]),
        (
            None,
            Some(String::from("star/k5")),
            Some(49.335),
            18.0618,
            Some(180.0),
            0
        )
    );
}

#[test]
fn nested_object_is_a_child_and_the_next_a_sibling() {
    let data = "system S\n\tpos 0 0\n\tgovernment G\n\thabitable 1\n\tobject\n\t\tperiod 1\n\t\tobject\n\t\t\tperiod 2\n\tobject\n\t\tperiod 3\n";
    let system = parse_system(data).unwrap().1;
    assert_eq!(system.objects.len(), 2);
    assert_eq!(depth_of(&system.objects[0]), 2);
    assert_eq!(system.objects[0].period, "1");
    assert_eq!(system.objects[0].objects.len(), 1);
    assert_eq!(system.objects[0].objects[0].period, "2");
    assert_eq!(system.objects[0].objects[0].objects.len(), 0);
    assert_eq!(depth_of(&system.objects[1]), 1);
    assert_eq!(system.objects[1].period, "3");
}

#[test]
fn object_fields_may_follow_its_children() {
    let parsed = parse_object("\tobject A\n\t\tobject B\n\t\t\tperiod 2\n\t\tperiod 1\n\t\toffset 7\n", 1);
    let (rest, object) = parsed.unwrap();
    assert_eq!(rest, "");
    assert_eq!(object.name, Some("A"));
    assert_eq!(object.period, "1");
    assert_eq!(object.offset, Some("7"));
    assert_eq!(object.objects.len(), 1);
    assert_eq!(object.objects[0].name, Some("B"));
    assert_eq!(object.objects[0].period, "2");
}

#[test]
fn objects_nest_as_deep_as_the_text_goes() {
    let levels = 40;
    let mut data = String::new();
    for level in 0..levels {
        data.push_str(&"\t".repeat(level + 1));
        data.push_str("object\n");
        data.push_str(&"\t".repeat(level + 2));
        data.push_str("period 1\n");
    }
    let (rest, object) = parse_object(&data, 1).unwrap();
    assert_eq!(rest, "");
    assert_eq!(depth_of(&object), levels);
}

#[test]
fn object_without_period_is_invalid() {
    assert_eq!(
        parse_object("\tobject\n\t\tsprite x\nnext", 1),
        Err(Failure::Hard(DataError::Validation {
            remaining: 4,
            data_type: "object",
            field: "period",
        }))
    );
}

#[test]
fn system_fields_in_any_order() {
    let first = parse_system(
        "system S\n\tpos 1 2\n\tgovernment G\n\thabitable 3\n\tbelt 4\n\thaze h/z\n\tlink A\n\tlink B\n\ttrade T 5\n",
    );
    let second = parse_system(
        "system S\n\ttrade T 5\n\tlink A\n\tlink B\n\thaze h/z\n\tbelt 4\n\thabitable 3\n\tgovernment G\n\tpos 1 2\n",
    );
    assert!(first.is_ok());
    assert_eq!(first, second);
}

#[test]
fn system_reads_a_field_that_comes_late() {
    let system = parse_system("system S\n\tpos 1 2\n\tgovernment G\n\tlink A\n\tbelt 7\n\thabitable 3\n")
        .unwrap();
    assert_eq!(system.0, "");
    assert_eq!(system.1.belt, Some(7));
    assert_eq!(system.1.links, vec!["A"]);
    assert_eq!(system.1.habitable, "3");
}

#[test]
fn system_links_keep_their_order() {
    let system = parse_system(
        "system S\n\tpos 1 2\n\tgovernment G\n\thabitable 3\n\tlink C\n\tlink A\n\tlink B\n",
    )
    .unwrap()
    .1;
    assert_eq!(system.links, vec!["C", "A", "B"]);
}

#[test]
fn system_lists_may_be_empty() {
    let system = parse_system("system S\n\tpos 1 2\n\tgovernment G\n\thabitable 3\n")
        .unwrap()
        .1;
    assert_eq!(system.belt, None);
    assert_eq!(system.haze, None);
    assert_eq!(system.links, Vec::<&str>::new());
    assert_eq!(system.asteroids.len(), 0);
    assert_eq!(system.minables.len(), 0);
    assert_eq!(system.trades.len(), 0);
    assert_eq!(system.fleets.len(), 0);
    assert_eq!(system.objects.len(), 0);
}

#[test]
fn system_reads_one_run_of_a_list() {
    let system = parse_system(
        "system S\n\tpos 1 2\n\tgovernment G\n\thabitable 3\n\tlink A\n\tbelt 7\n\tlink B\n",
    )
    .unwrap();
    assert_eq!(system.0, "\tlink B\n");
    assert_eq!(system.1.links, vec!["A"]);
    assert_eq!(system.1.belt, Some(7));
}

#[test]
fn system_names_the_first_missing_field() {
    assert_eq!(
        parse_system("system S\n\tpos 1 2\n\thabitable 3\n"),
        Err(Failure::Hard(DataError::Validation {
            remaining: 0,
            data_type: "system",
            field: "government",
        }))
    );
    assert_eq!(
        parse_system("system S\n\tlink A\n"),
        Err(Failure::Hard(DataError::Validation {
            remaining: 0,
            data_type: "system",
            field: "pos",
        }))
    );
}

#[test]
fn system_fails_on_an_invalid_object() {
    assert_eq!(
        parse_system("system S\n\tpos 1 2\n\tgovernment G\n\thabitable 3\n\tobject\n\t\tobject\n"),
        Err(Failure::Hard(DataError::Validation {
            remaining: 0,
            data_type: "object",
            field: "period",
        }))
    );
}
