//! The ship record, with its sprite, its attributes, its weapon and its
//! outfits.

use crate::builders::{
    ShipAttributesBuilder, ShipAttributesBuilderModel, ShipAttributesField, ShipBuilder,
    ShipBuilderModel, ShipField, ShipWeaponBuilder, ShipWeaponBuilderModel, ShipWeaponField,
};
use crate::errors::{Context, Failure, FailureModel};
use crate::fields::{
    at_field, dispatch, item, items, peek_field, repeat1, spec_item, spec_items, spec_repeat1,
    spec_sweep, step_follows, sweep, Apply, Found, Rule, Search, Step,
};
use crate::helpers::{
    any_indents, hardened, indents, line_ending, number, resource_path, space1, spec_any_indents,
    spec_hardened, spec_indents, spec_line_ending, spec_resource_path, spec_space1, spec_string,
    spec_tag, string, tag,
};
use crate::model::{advances, fits, Model, Outcome, Parsed};
use crate::types::{
    Ship, ShipAttributes, ShipAttributesModel, ShipModel, ShipWeapon, Sprite, SpriteModel,
};
use crate::values::{
    counted, counted_rule, engine, engine_rule, flag, flag_rule, integer_u32, leak, leak_rule,
    mount, mount_rule, number_rule, optional, path_rule, spaced_string, spaced_u32, spec_optional,
    spec_spaced_string, spec_spaced_u32, string_rule, u32_rule,
};
use vstd::prelude::*;
use vstd::string::*;

verus! {

/// The start of a line of a sprite's animation: a line ending, two units of
/// indentation and the keyword.
pub open spec fn spec_sprite_detail(s: Seq<u8>, keyword: Seq<u8>) -> Outcome<()> {
    match spec_line_ending(s) {
        Err(e) => Err(e),
        Ok((a, _)) => match spec_indents(a, 2) {
            Err(e) => Err(e),
            Ok((b, _)) => spec_tag(b, keyword, Context::Keyword),
        },
    }
}

/// Reads the start of a line of a sprite's animation.
fn sprite_detail<'a>(input: &'a str, keyword: &str) -> (r: Parsed<'a, ()>)
    ensures
        r.model() == spec_sprite_detail(input.model(), keyword.model()),
        advances(input, r),
{
    let (a, _) = line_ending(input)?;
    let (b, _) = indents(a, 2)?;
    tag(b, keyword, Context::Keyword)
}

/// The animation of the sprite `name` at the start of `s`: on lines of their
/// own the frame time, the delay and, if it is there, the mark of a random
/// start frame; then a line ending.
pub open spec fn spec_animation(s: Seq<u8>, name: Seq<u8>) -> Outcome<SpriteModel> {
    match spec_sprite_detail(s, "\"frame time\"".model()) {
        Err(e) => Err(e),
        Ok((a, _)) => match spec_spaced_u32(a) {
            Err(e) => Err(e),
            Ok((b, frame_time)) => match spec_sprite_detail(b, "\"delay\"".model()) {
                Err(e) => Err(e),
                Ok((c, _)) => match spec_spaced_u32(c) {
                    Err(e) => Err(e),
                    Ok((d, delay)) => match spec_optional(
                        d,
                        spec_sprite_detail(d, "\"random start frame\"".model()),
                    ) {
                        Err(e) => Err(e),
                        Ok((f, random)) => match spec_line_ending(f) {
                            Err(e) => Err(e),
                            Ok((rest, _)) => Ok(
                                (
                                    rest,
                                    SpriteModel::Sprite {
                                        name,
                                        frame_time,
                                        delay,
                                        random_start_frame: random is Some,
                                    },
                                ),
                            ),
                        },
                    },
                },
            },
        },
    }
}

/// Reads the animation of a sprite.
fn animation<'a>(input: &'a str, name: &'a str) -> (r: Parsed<'a, Sprite<'a>>)
    ensures
        r.model() == spec_animation(input.model(), name.model()),
        advances(input, r),
{
    let (a, _) = sprite_detail(input, "\"frame time\"")?;
    let (b, frame_time) = spaced_u32(a)?;
    let (c, _) = sprite_detail(b, "\"delay\"")?;
    let (d, delay) = spaced_u32(c)?;
    let (f, random) = optional(d, sprite_detail(d, "\"random start frame\""))?;
    let (rest, _) = line_ending(f)?;
    Ok((rest, Sprite::Sprite { name, frame_time, delay, random_start_frame: random.is_some() }))
}

/// A sprite at the start of `s`: a resource path, and an animation where the
/// next line holds a frame time at depth 2. Without one the sprite is simple
/// and the line ending stays unread.
pub open spec fn spec_parse_sprite(s: Seq<u8>) -> Outcome<SpriteModel> {
    match spec_resource_path(s) {
        Err(e) => Err(e),
        Ok((a, name)) => if spec_sprite_detail(a, "\"frame time\"".model()) is Ok {
            spec_animation(a, name)
        } else {
            Ok((a, SpriteModel::Simple(name)))
        },
    }
}

/// The rule of a sprite.
pub open spec fn sprite_rule() -> Rule<SpriteModel> {
    |s: Seq<u8>| spec_parse_sprite(s)
}

/// Reads a sprite, simple or animated.
pub fn parse_sprite<'a>(input: &'a str) -> (r: Parsed<'a, Sprite<'a>>)
    ensures
        r.model() == spec_parse_sprite(input.model()),
        fits(input, r),
{
    let (a, name) = resource_path(input)?;
    if sprite_detail(a, "\"frame time\"").is_ok() {
        animation(a, name)
    } else {
        Ok((a, Sprite::Simple(name)))
    }
}

/// One license at the start of `s`: at depth 3 a text on a line of its own.
pub open spec fn spec_license(s: Seq<u8>) -> Outcome<Seq<u8>> {
    match spec_indents(s, 3) {
        Err(e) => Err(e),
        Ok((a, _)) => match spec_string(a) {
            Err(e) => Err(e),
            Ok((b, name)) => match spec_line_ending(b) {
                Err(e) => Err(e),
                Ok((rest, _)) => Ok((rest, name)),
            },
        },
    }
}

/// Reads one license.
fn license<'a>(input: &'a str) -> (r: Parsed<'a, &'a str>)
    ensures
        r.model() == spec_license(input.model()),
        advances(input, r),
{
    let (a, _) = indents(input, 3)?;
    let (b, name) = string(a)?;
    let (rest, _) = line_ending(b)?;
    Ok((rest, name))
}

/// The licenses at the start of `s`: a line ending, then one or more
/// licenses.
pub open spec fn spec_parse_licenses(s: Seq<u8>) -> Outcome<Seq<Seq<u8>>> {
    match spec_line_ending(s) {
        Err(e) => Err(e),
        Ok((a, _)) => spec_repeat1(a, |t: Seq<u8>| spec_license(t)),
    }
}

/// The rule of the licenses.
pub open spec fn licenses_rule() -> Rule<Seq<Seq<u8>>> {
    |s: Seq<u8>| spec_parse_licenses(s)
}

/// Reads the licenses that a ship asks for.
pub fn parse_licenses<'a>(input: &'a str) -> (r: Parsed<'a, Vec<&'a str>>)
    ensures
        r.model() == spec_parse_licenses(input.model()),
        advances(input, r),
{
    let (a, _) = line_ending(input)?;
    repeat1(a, license, Ghost(|t: Seq<u8>| spec_license(t)))
}

/// A line that holds nothing but indentation, at the start of `s`.
pub open spec fn spec_blank_line(s: Seq<u8>) -> Outcome<()> {
    spec_line_ending(spec_any_indents(s))
}

/// Reads the rest of a line that holds nothing but indentation.
fn blank_line<'a>(input: &'a str) -> (r: Parsed<'a, ()>)
    ensures
        r.model() == spec_blank_line(input.model()),
        advances(input, r),
{
    line_ending(any_indents(input))
}

/// What is left of `s` behind the blank lines it begins with.
pub open spec fn spec_blank_lines(s: Seq<u8>) -> Seq<u8>
    decreases s.len(),
{
    match spec_blank_line(s) {
        Ok((rest, _)) => if rest.len() < s.len() {
            spec_blank_lines(rest)
        } else {
            s
        },
        Err(_) => s,
    }
}

/// Skips the blank lines that `input` begins with.
fn blank_lines<'a>(input: &'a str) -> (rest: &'a str)
    ensures
        rest.model() == spec_blank_lines(input.model()),
        rest.model().len() <= input.model().len(),
{
    let mut rest = input;
    loop
        invariant
            spec_blank_lines(rest.model()) == spec_blank_lines(input.model()),
            rest.model().len() <= input.model().len(),
        decreases rest.model().len(),
    {
        match blank_line(rest) {
            Ok((next, _)) => {
                rest = next;
            },
            Err(_) => {
                return rest;
            },
        }
    }
}

/// One outfit at the start of `s`: at depth 2 a name and an optional count,
/// which is 1 where it is not given, then the end of the line and the blank
/// lines behind it.
pub open spec fn spec_outfit(s: Seq<u8>) -> Outcome<(Seq<u8>, u32)> {
    match spec_indents(s, 2) {
        Err(e) => Err(e),
        Ok((a, _)) => match spec_string(a) {
            Err(e) => Err(e),
            Ok((b, name)) => match spec_optional(b, spec_spaced_u32(b)) {
                Err(e) => Err(e),
                Ok((c, count)) => match spec_blank_line(c) {
                    Err(e) => Err(e),
                    Ok((d, _)) => Ok(
                        (
                            spec_blank_lines(d),
                            (
                                name,
                                match count {
                                    Some(n) => n,
                                    None => 1,
                                },
                            ),
                        ),
                    ),
                },
            },
        },
    }
}

/// Reads one outfit.
fn outfit<'a>(input: &'a str) -> (r: Parsed<'a, (&'a str, u32)>)
    ensures
        r.model() == spec_outfit(input.model()),
        advances(input, r),
{
    let (a, _) = indents(input, 2)?;
    let (b, name) = string(a)?;
    let (c, count) = optional(b, spaced_u32(b))?;
    let (d, _) = blank_line(c)?;
    let count = match count {
        Some(n) => n,
        None => 1,
    };
    Ok((blank_lines(d), (name, count)))
}

/// The outfits at the start of `s`: a line ending, then one or more outfits,
/// in the order of the text. Blank lines between them do not part the list.
pub open spec fn spec_parse_outfits(s: Seq<u8>) -> Outcome<Seq<(Seq<u8>, u32)>> {
    match spec_line_ending(s) {
        Err(e) => Err(e),
        Ok((a, _)) => spec_repeat1(a, |t: Seq<u8>| spec_outfit(t)),
    }
}

/// The rule of the outfits.
pub open spec fn outfits_rule() -> Rule<Seq<(Seq<u8>, u32)>> {
    |s: Seq<u8>| spec_parse_outfits(s)
}

/// Reads the outfits of a ship, each with its count.
pub fn parse_outfits<'a>(input: &'a str) -> (r: Parsed<'a, Vec<(&'a str, u32)>>)
    ensures
        r.model() == spec_parse_outfits(input.model()),
        advances(input, r),
{
    let (a, _) = line_ending(input)?;
    repeat1(a, outfit, Ghost(|t: Seq<u8>| spec_outfit(t)))
}

/// The next field of a ship's weapon at the start of `s`: the first of the
/// weapon's keywords, in the order of this list, that stands at depth 3.
pub open spec fn spec_ship_weapon_field(
    s: Seq<u8>,
    draft: ShipWeaponBuilderModel,
) -> Found<ShipWeaponField> {
    dispatch(
        at_field(s, 3, "\"blast radius\"".model()),
        spec_item(s, 3, "\"blast radius\"".model(), u32_rule()),
        |v: u32| ShipWeaponField::BlastRadius(v),
        dispatch(
            at_field(s, 3, "\"shield damage\"".model()),
            spec_item(s, 3, "\"shield damage\"".model(), u32_rule()),
            |v: u32| ShipWeaponField::ShieldDamage(v),
            dispatch(
                at_field(s, 3, "\"hull damage\"".model()),
                spec_item(s, 3, "\"hull damage\"".model(), u32_rule()),
                |v: u32| ShipWeaponField::HullDamage(v),
                dispatch(
                    at_field(s, 3, "\"hit force\"".model()),
                    spec_item(s, 3, "\"hit force\"".model(), u32_rule()),
                    |v: u32| ShipWeaponField::HitForce(v),
                    Found::Nothing,
                ),
            ),
        ),
    )
}

/// How a ship's weapon looks for its next field.
pub open spec fn ship_weapon_search() -> Search<ShipWeaponBuilderModel, ShipWeaponField> {
    |s: Seq<u8>, draft: ShipWeaponBuilderModel| spec_ship_weapon_field(s, draft)
}

/// How a ship's weapon takes a field into its draft.
pub open spec fn ship_weapon_apply() -> Apply<ShipWeaponBuilderModel, ShipWeaponField> {
    |draft: ShipWeaponBuilderModel, field: ShipWeaponField| draft.with(field)
}

/// Reads the next field of a ship's weapon into the draft.
pub fn ship_weapon_step<'a>(
    input: &'a str,
    draft: ShipWeaponBuilder,
) -> (step: Step<'a, ShipWeaponBuilder>)
    ensures
        step_follows(
            input,
            draft,
            step,
            spec_ship_weapon_field(input.model(), draft.model()),
            ship_weapon_apply(),
        ),
{
    let mut draft = draft;
    if peek_field(input, 3, "\"blast radius\"") {
        match item(input, 3, "\"blast radius\"", integer_u32, Ghost(u32_rule())) {
            Ok((rest, v)) => {
                draft.blast_radius = Some(v);
                return Step::Advance(rest, draft);
            },
            Err(failure) => {
                return Step::Abort(failure.into_error());
            },
        }
    }
    if peek_field(input, 3, "\"shield damage\"") {
        match item(input, 3, "\"shield damage\"", integer_u32, Ghost(u32_rule())) {
            Ok((rest, v)) => {
                draft.shield_damage = Some(v);
                return Step::Advance(rest, draft);
            },
            Err(failure) => {
                return Step::Abort(failure.into_error());
            },
        }
    }
    if peek_field(input, 3, "\"hull damage\"") {
        match item(input, 3, "\"hull damage\"", integer_u32, Ghost(u32_rule())) {
            Ok((rest, v)) => {
                draft.hull_damage = Some(v);
                return Step::Advance(rest, draft);
            },
            Err(failure) => {
                return Step::Abort(failure.into_error());
            },
        }
    }
    if peek_field(input, 3, "\"hit force\"") {
        match item(input, 3, "\"hit force\"", integer_u32, Ghost(u32_rule())) {
            Ok((rest, v)) => {
                draft.hit_force = Some(v);
                return Step::Advance(rest, draft);
            },
            Err(failure) => {
                return Step::Abort(failure.into_error());
            },
        }
    }
    Step::Stay(draft)
}

/// A ship's weapon behind its keyword: a line ending, then the fields at
/// depth 3 as they come. All four are required.
pub open spec fn spec_parse_ship_weapon(s: Seq<u8>) -> Outcome<ShipWeapon> {
    match spec_line_ending(s) {
        Err(e) => Err(e),
        Ok((a, _)) => match spec_sweep(
            a,
            ShipWeaponBuilderModel::empty(),
            ship_weapon_search(),
            ship_weapon_apply(),
        ) {
            Err(e) => Err(FailureModel::Hard(e)),
            Ok((rest, draft)) => draft.finish(rest),
        },
    }
}

/// The rule of a ship's weapon.
pub open spec fn ship_weapon_rule() -> Rule<ShipWeapon> {
    |s: Seq<u8>| spec_parse_ship_weapon(s)
}

/// Reads a ship's weapon behind its keyword.
pub fn parse_ship_weapon<'a>(input: &'a str) -> (r: Parsed<'a, ShipWeapon>)
    ensures
        r.model() == spec_parse_ship_weapon(input.model()),
        advances(input, r),
{
    let (a, _) = line_ending(input)?;
    match sweep::<ShipWeaponBuilder, ShipWeaponField, _>(
        a,
        ShipWeaponBuilder::new(),
        ship_weapon_step,
        Ghost(ship_weapon_search()),
        Ghost(ship_weapon_apply()),
    ) {
        Err(e) => Err(Failure::Hard(e)),
        Ok((rest, full)) => full.finish(rest),
    }
}

/// The last entries of the list of [`spec_ship_attributes_field`].
pub open spec fn spec_ship_attributes_last_field(
    s: Seq<u8>,
    draft: ShipAttributesBuilderModel,
) -> Found<ShipAttributesField> {
    dispatch(
        at_field(s, 2, "\"fuel capacity\"".model()),
        spec_item(s, 2, "\"fuel capacity\"".model(), u32_rule()),
        |v: u32| ShipAttributesField::FuelCapacity(v),
        dispatch(
            at_field(s, 2, "\"cargo space\"".model()),
            spec_item(s, 2, "\"cargo space\"".model(), u32_rule()),
            |v: u32| ShipAttributesField::CargoSpace(v),
            dispatch(
                at_field(s, 2, "\"outfit space\"".model()),
                spec_item(s, 2, "\"outfit space\"".model(), u32_rule()),
                |v: u32| ShipAttributesField::OutfitSpace(v),
                dispatch(
                    at_field(s, 2, "\"weapon capacity\"".model()),
                    spec_item(s, 2, "\"weapon capacity\"".model(), u32_rule()),
                    |v: u32| ShipAttributesField::WeaponCapacity(v),
                    dispatch(
                        at_field(s, 2, "\"engine capacity\"".model()),
                        spec_item(s, 2, "\"engine capacity\"".model(), u32_rule()),
                        |v: u32| ShipAttributesField::EngineCapacity(v),
                        dispatch(
                            at_field(s, 2, "weapon".model()),
                            spec_item(s, 2, "weapon".model(), ship_weapon_rule()),
                            |v: ShipWeapon| ShipAttributesField::Weapon(v),
                            Found::Nothing,
                        ),
                    ),
                ),
            ),
        ),
    )
}

/// Reads the next field of a ship's attributes into the draft, by the last entries of
/// the list.
fn ship_attributes_last_step<'a>(
    input: &'a str,
    draft: ShipAttributesBuilder<'a>,
) -> (step: Step<'a, ShipAttributesBuilder<'a>>)
    ensures
        step_follows(
            input,
            draft,
            step,
            spec_ship_attributes_last_field(input.model(), draft.model()),
            ship_attributes_apply(),
        ),
{
    let mut draft = draft;
    if peek_field(input, 2, "\"fuel capacity\"") {
        match item(input, 2, "\"fuel capacity\"", integer_u32, Ghost(u32_rule())) {
            Ok((rest, v)) => {
                draft.fuel_capacity = Some(v);
                return Step::Advance(rest, draft);
            },
            Err(failure) => {
                return Step::Abort(failure.into_error());
            },
        }
    }
    if peek_field(input, 2, "\"cargo space\"") {
        match item(input, 2, "\"cargo space\"", integer_u32, Ghost(u32_rule())) {
            Ok((rest, v)) => {
                draft.cargo_space = Some(v);
                return Step::Advance(rest, draft);
            },
            Err(failure) => {
                return Step::Abort(failure.into_error());
            },
        }
    }
    if peek_field(input, 2, "\"outfit space\"") {
        match item(input, 2, "\"outfit space\"", integer_u32, Ghost(u32_rule())) {
            Ok((rest, v)) => {
                draft.outfit_space = Some(v);
                return Step::Advance(rest, draft);
            },
            Err(failure) => {
                return Step::Abort(failure.into_error());
            },
        }
    }
    if peek_field(input, 2, "\"weapon capacity\"") {
        match item(input, 2, "\"weapon capacity\"", integer_u32, Ghost(u32_rule())) {
            Ok((rest, v)) => {
                draft.weapon_capacity = Some(v);
                return Step::Advance(rest, draft);
            },
            Err(failure) => {
                return Step::Abort(failure.into_error());
            },
        }
    }
    if peek_field(input, 2, "\"engine capacity\"") {
        match item(input, 2, "\"engine capacity\"", integer_u32, Ghost(u32_rule())) {
            Ok((rest, v)) => {
                draft.engine_capacity = Some(v);
                return Step::Advance(rest, draft);
            },
            Err(failure) => {
                return Step::Abort(failure.into_error());
            },
        }
    }
    if peek_field(input, 2, "weapon") {
        match item(input, 2, "weapon", parse_ship_weapon, Ghost(ship_weapon_rule())) {
            Ok((rest, v)) => {
                draft.weapon = Some(v);
                return Step::Advance(rest, draft);
            },
            Err(failure) => {
                return Step::Abort(failure.into_error());
            },
        }
    }
    Step::Stay(draft)
}

/// The later entries of the list of [`spec_ship_attributes_field`].
pub open spec fn spec_ship_attributes_later_field(
    s: Seq<u8>,
    draft: ShipAttributesBuilderModel,
) -> Found<ShipAttributesField> {
    dispatch(
        at_field(s, 2, "\"automaton\"".model()),
        spec_item(s, 2, "\"automaton\"".model(), flag_rule()),
        |v: bool| ShipAttributesField::Automaton(v),
        dispatch(
            at_field(s, 2, "\"required crew\"".model()),
            spec_item(s, 2, "\"required crew\"".model(), u32_rule()),
            |v: u32| ShipAttributesField::RequiredCrew(v),
            dispatch(
                at_field(s, 2, "\"bunks\"".model()),
                spec_item(s, 2, "\"bunks\"".model(), u32_rule()),
                |v: u32| ShipAttributesField::Bunks(v),
                dispatch(
                    at_field(s, 2, "\"mass\"".model()),
                    spec_item(s, 2, "\"mass\"".model(), u32_rule()),
                    |v: u32| ShipAttributesField::Mass(v),
                    dispatch(
                        at_field(s, 2, "\"drag\"".model()),
                        spec_item(s, 2, "\"drag\"".model(), number_rule()),
                        |v: Seq<u8>| ShipAttributesField::Drag(v),
                        dispatch(
                            at_field(s, 2, "\"heat dissipation\"".model()),
                            spec_item(s, 2, "\"heat dissipation\"".model(), number_rule()),
                            |v: Seq<u8>| ShipAttributesField::HeatDissipation(v),
                            spec_ship_attributes_last_field(s, draft),
                        ),
                    ),
                ),
            ),
        ),
    )
}

/// Reads the next field of a ship's attributes into the draft, by the later entries of
/// the list.
fn ship_attributes_later_step<'a>(
    input: &'a str,
    draft: ShipAttributesBuilder<'a>,
) -> (step: Step<'a, ShipAttributesBuilder<'a>>)
    ensures
        step_follows(
            input,
            draft,
            step,
            spec_ship_attributes_later_field(input.model(), draft.model()),
            ship_attributes_apply(),
        ),
{
    let mut draft = draft;
    if peek_field(input, 2, "\"automaton\"") {
        match item(input, 2, "\"automaton\"", flag, Ghost(flag_rule())) {
            Ok((rest, v)) => {
                draft.automaton = Some(v);
                return Step::Advance(rest, draft);
            },
            Err(failure) => {
                return Step::Abort(failure.into_error());
            },
        }
    }
    if peek_field(input, 2, "\"required crew\"") {
        match item(input, 2, "\"required crew\"", integer_u32, Ghost(u32_rule())) {
            Ok((rest, v)) => {
                draft.required_crew = Some(v);
                return Step::Advance(rest, draft);
            },
            Err(failure) => {
                return Step::Abort(failure.into_error());
            },
        }
    }
    if peek_field(input, 2, "\"bunks\"") {
        match item(input, 2, "\"bunks\"", integer_u32, Ghost(u32_rule())) {
            Ok((rest, v)) => {
                draft.bunks = Some(v);
                return Step::Advance(rest, draft);
            },
            Err(failure) => {
                return Step::Abort(failure.into_error());
            },
        }
    }
    if peek_field(input, 2, "\"mass\"") {
        match item(input, 2, "\"mass\"", integer_u32, Ghost(u32_rule())) {
            Ok((rest, v)) => {
                draft.mass = Some(v);
                return Step::Advance(rest, draft);
            },
            Err(failure) => {
                return Step::Abort(failure.into_error());
            },
        }
    }
    if peek_field(input, 2, "\"drag\"") {
        match item(input, 2, "\"drag\"", number, Ghost(number_rule())) {
            Ok((rest, v)) => {
                draft.drag = Some(v);
                return Step::Advance(rest, draft);
            },
            Err(failure) => {
                return Step::Abort(failure.into_error());
            },
        }
    }
    if peek_field(input, 2, "\"heat dissipation\"") {
        match item(input, 2, "\"heat dissipation\"", number, Ghost(number_rule())) {
            Ok((rest, v)) => {
                draft.heat_dissipation = Some(v);
                return Step::Advance(rest, draft);
            },
            Err(failure) => {
                return Step::Abort(failure.into_error());
            },
        }
    }
    ship_attributes_last_step(input, draft)
}

/// The next field of a ship's attributes at the start of `s`: the first of
/// their keywords, in the order of this list, that stands at depth 2. The
/// cost has two keywords, one with quotes and one without.
pub open spec fn spec_ship_attributes_field(
    s: Seq<u8>,
    draft: ShipAttributesBuilderModel,
) -> Found<ShipAttributesField> {
    dispatch(
        at_field(s, 2, "licenses".model()),
        spec_item(s, 2, "licenses".model(), licenses_rule()),
        |v: Seq<Seq<u8>>| ShipAttributesField::Licenses(v),
        dispatch(
            at_field(s, 2, "category".model()),
            spec_item(s, 2, "category".model(), string_rule()),
            |v: Seq<u8>| ShipAttributesField::Category(v),
            dispatch(
                at_field(s, 2, "\"cost\"".model()),
                spec_item(s, 2, "\"cost\"".model(), u32_rule()),
                |v: u32| ShipAttributesField::Cost(v),
                dispatch(
                    at_field(s, 2, "cost".model()),
                    spec_item(s, 2, "cost".model(), u32_rule()),
                    |v: u32| ShipAttributesField::Cost(v),
                    dispatch(
                        at_field(s, 2, "\"shields\"".model()),
                        spec_item(s, 2, "\"shields\"".model(), u32_rule()),
                        |v: u32| ShipAttributesField::Shields(v),
                        dispatch(
                            at_field(s, 2, "\"hull\"".model()),
                            spec_item(s, 2, "\"hull\"".model(), u32_rule()),
                            |v: u32| ShipAttributesField::Hull(v),
                            spec_ship_attributes_later_field(s, draft),
                        ),
                    ),
                ),
            ),
        ),
    )
}

/// How a ship's attributes looks for its next field.
pub open spec fn ship_attributes_search() -> Search<
    ShipAttributesBuilderModel,
    ShipAttributesField,
> {
    |s: Seq<u8>, draft: ShipAttributesBuilderModel| spec_ship_attributes_field(s, draft)
}

/// How a ship's attributes takes a field into its draft.
pub open spec fn ship_attributes_apply() -> Apply<ShipAttributesBuilderModel, ShipAttributesField> {
    |draft: ShipAttributesBuilderModel, field: ShipAttributesField| draft.with(field)
}

/// Reads the next field of a ship's attributes into the draft.
pub fn ship_attributes_step<'a>(
    input: &'a str,
    draft: ShipAttributesBuilder<'a>,
) -> (step: Step<'a, ShipAttributesBuilder<'a>>)
    ensures
        step_follows(
            input,
            draft,
            step,
            spec_ship_attributes_field(input.model(), draft.model()),
            ship_attributes_apply(),
        ),
{
    let mut draft = draft;
    if peek_field(input, 2, "licenses") {
        match item(input, 2, "licenses", parse_licenses, Ghost(licenses_rule())) {
            Ok((rest, v)) => {
                draft.licenses = Some(v);
                return Step::Advance(rest, draft);
            },
            Err(failure) => {
                return Step::Abort(failure.into_error());
            },
        }
    }
    if peek_field(input, 2, "category") {
        match item(input, 2, "category", string, Ghost(string_rule())) {
            Ok((rest, v)) => {
                draft.category = Some(v);
                return Step::Advance(rest, draft);
            },
            Err(failure) => {
                return Step::Abort(failure.into_error());
            },
        }
    }
    if peek_field(input, 2, "\"cost\"") {
        match item(input, 2, "\"cost\"", integer_u32, Ghost(u32_rule())) {
            Ok((rest, v)) => {
                draft.cost = Some(v);
                return Step::Advance(rest, draft);
            },
            Err(failure) => {
                return Step::Abort(failure.into_error());
            },
        }
    }
    if peek_field(input, 2, "cost") {
        match item(input, 2, "cost", integer_u32, Ghost(u32_rule())) {
            Ok((rest, v)) => {
                draft.cost = Some(v);
                return Step::Advance(rest, draft);
            },
            Err(failure) => {
                return Step::Abort(failure.into_error());
            },
        }
    }
    if peek_field(input, 2, "\"shields\"") {
        match item(input, 2, "\"shields\"", integer_u32, Ghost(u32_rule())) {
            Ok((rest, v)) => {
                draft.shields = Some(v);
                return Step::Advance(rest, draft);
            },
            Err(failure) => {
                return Step::Abort(failure.into_error());
            },
        }
    }
    if peek_field(input, 2, "\"hull\"") {
        match item(input, 2, "\"hull\"", integer_u32, Ghost(u32_rule())) {
            Ok((rest, v)) => {
                draft.hull = Some(v);
                return Step::Advance(rest, draft);
            },
            Err(failure) => {
                return Step::Abort(failure.into_error());
            },
        }
    }
    ship_attributes_later_step(input, draft)
}

/// A ship's attributes behind their keyword: a line ending, then the fields
/// at depth 2 as they come.
pub open spec fn spec_parse_ship_attributes(s: Seq<u8>) -> Outcome<ShipAttributesModel> {
    match spec_line_ending(s) {
        Err(e) => Err(e),
        Ok((a, _)) => match spec_sweep(
            a,
            ShipAttributesBuilderModel::empty(),
            ship_attributes_search(),
            ship_attributes_apply(),
        ) {
            Err(e) => Err(FailureModel::Hard(e)),
            Ok((rest, draft)) => draft.finish(rest),
        },
    }
}

/// The rule of a ship's attributes.
pub open spec fn ship_attributes_rule() -> Rule<ShipAttributesModel> {
    |s: Seq<u8>| spec_parse_ship_attributes(s)
}

/// Reads a ship's attributes behind their keyword.
pub fn parse_ship_attributes<'a>(input: &'a str) -> (r: Parsed<'a, ShipAttributes<'a>>)
    ensures
        r.model() == spec_parse_ship_attributes(input.model()),
        advances(input, r),
{
    let (a, _) = line_ending(input)?;
    match sweep::<ShipAttributesBuilder<'a>, ShipAttributesField, _>(
        a,
        ShipAttributesBuilder::new(),
        ship_attributes_step,
        Ghost(ship_attributes_search()),
        Ghost(ship_attributes_apply()),
    ) {
        Err(e) => Err(Failure::Hard(e)),
        Ok((rest, full)) => full.finish(rest),
    }
}

/// The last entries of the list of [`spec_ship_field`].
pub open spec fn spec_ship_last_field(s: Seq<u8>, draft: ShipBuilderModel) -> Found<ShipField> {
    dispatch(
        at_field(s, 1, "leak".model()),
        spec_items(s, 1, "leak".model(), leak_rule()),
        |v: Seq<(Seq<u8>, u32, u32)>| ShipField::Leak(v),
        dispatch(
            at_field(s, 1, "explode".model()),
            spec_items(s, 1, "explode".model(), counted_rule()),
            |v: Seq<(Seq<u8>, u32)>| ShipField::Explode(v),
            dispatch(
                at_field(s, 1, "\"final explode\"".model()),
                spec_item(s, 1, "\"final explode\"".model(), string_rule()),
                |v: Seq<u8>| ShipField::FinalExplode(v),
                dispatch(
                    at_field(s, 1, "description".model()),
                    spec_items(s, 1, "description".model(), string_rule()),
                    |v: Seq<Seq<u8>>| ShipField::Description(v),
                    Found::Nothing,
                ),
            ),
        ),
    )
}

/// Reads the next field of a ship into the draft, by the last entries of
/// the list.
fn ship_last_step<'a>(input: &'a str, draft: ShipBuilder<'a>) -> (step: Step<'a, ShipBuilder<'a>>)
    ensures
        step_follows(
            input,
            draft,
            step,
            spec_ship_last_field(input.model(), draft.model()),
            ship_apply(),
        ),
{
    let mut draft = draft;
    if peek_field(input, 1, "leak") {
        match items(input, 1, "leak", leak, Ghost(leak_rule())) {
            Ok((rest, v)) => {
                draft.leak = Some(v);
                return Step::Advance(rest, draft);
            },
            Err(failure) => {
                return Step::Abort(failure.into_error());
            },
        }
    }
    if peek_field(input, 1, "explode") {
        match items(input, 1, "explode", counted, Ghost(counted_rule())) {
            Ok((rest, v)) => {
                draft.explode = Some(v);
                return Step::Advance(rest, draft);
            },
            Err(failure) => {
                return Step::Abort(failure.into_error());
            },
        }
    }
    if peek_field(input, 1, "\"final explode\"") {
        match item(input, 1, "\"final explode\"", string, Ghost(string_rule())) {
            Ok((rest, v)) => {
                draft.final_explode = Some(v);
                return Step::Advance(rest, draft);
            },
            Err(failure) => {
                return Step::Abort(failure.into_error());
            },
        }
    }
    if peek_field(input, 1, "description") {
        match items(input, 1, "description", string, Ghost(string_rule())) {
            Ok((rest, v)) => {
                draft.description = Some(v);
                return Step::Advance(rest, draft);
            },
            Err(failure) => {
                return Step::Abort(failure.into_error());
            },
        }
    }
    Step::Stay(draft)
}

/// The later entries of the list of [`spec_ship_field`].
pub open spec fn spec_ship_later_field(s: Seq<u8>, draft: ShipBuilderModel) -> Found<ShipField> {
    dispatch(
        at_field(s, 1, "engine".model()),
        spec_items(s, 1, "engine".model(), engine_rule()),
        |v: Seq<(Seq<u8>, Seq<u8>, Option<Seq<u8>>)>| ShipField::Engine(v),
        dispatch(
            at_field(s, 1, "gun".model()),
            spec_items(s, 1, "gun".model(), mount_rule()),
            |v: Seq<(Seq<u8>, Seq<u8>, Option<Seq<u8>>)>| ShipField::Gun(v),
            dispatch(
                at_field(s, 1, "turret".model()),
                spec_items(s, 1, "turret".model(), mount_rule()),
                |v: Seq<(Seq<u8>, Seq<u8>, Option<Seq<u8>>)>| ShipField::Turret(v),
                dispatch(
                    at_field(s, 1, "fighter".model()),
                    spec_items(s, 1, "fighter".model(), mount_rule()),
                    |v: Seq<(Seq<u8>, Seq<u8>, Option<Seq<u8>>)>| ShipField::Fighter(v),
                    dispatch(
                        at_field(s, 1, "drone".model()),
                        spec_items(s, 1, "drone".model(), mount_rule()),
                        |v: Seq<(Seq<u8>, Seq<u8>, Option<Seq<u8>>)>| ShipField::Drone(v),
                        spec_ship_last_field(s, draft),
                    ),
                ),
            ),
        ),
    )
}

/// Reads the next field of a ship into the draft, by the later entries of
/// the list.
fn ship_later_step<'a>(input: &'a str, draft: ShipBuilder<'a>) -> (step: Step<'a, ShipBuilder<'a>>)
    ensures
        step_follows(
            input,
            draft,
            step,
            spec_ship_later_field(input.model(), draft.model()),
            ship_apply(),
        ),
{
    let mut draft = draft;
    if peek_field(input, 1, "engine") {
        match items(input, 1, "engine", engine, Ghost(engine_rule())) {
            Ok((rest, v)) => {
                draft.engine = Some(v);
                return Step::Advance(rest, draft);
            },
            Err(failure) => {
                return Step::Abort(failure.into_error());
            },
        }
    }
    if peek_field(input, 1, "gun") {
        match items(input, 1, "gun", mount, Ghost(mount_rule())) {
            Ok((rest, v)) => {
                draft.gun = Some(v);
                return Step::Advance(rest, draft);
            },
            Err(failure) => {
                return Step::Abort(failure.into_error());
            },
        }
    }
    if peek_field(input, 1, "turret") {
        match items(input, 1, "turret", mount, Ghost(mount_rule())) {
            Ok((rest, v)) => {
                draft.turret = Some(v);
                return Step::Advance(rest, draft);
            },
            Err(failure) => {
                return Step::Abort(failure.into_error());
            },
        }
    }
    if peek_field(input, 1, "fighter") {
        match items(input, 1, "fighter", mount, Ghost(mount_rule())) {
            Ok((rest, v)) => {
                draft.fighter = Some(v);
                return Step::Advance(rest, draft);
            },
            Err(failure) => {
                return Step::Abort(failure.into_error());
            },
        }
    }
    if peek_field(input, 1, "drone") {
        match items(input, 1, "drone", mount, Ghost(mount_rule())) {
            Ok((rest, v)) => {
                draft.drone = Some(v);
                return Step::Advance(rest, draft);
            },
            Err(failure) => {
                return Step::Abort(failure.into_error());
            },
        }
    }
    ship_last_step(input, draft)
}

/// The next field of a ship at the start of `s`: the first of the ship's
/// keywords, in the order of this list, that stands at depth 1.
pub open spec fn spec_ship_field(s: Seq<u8>, draft: ShipBuilderModel) -> Found<ShipField> {
    dispatch(
        at_field(s, 1, "plural".model()),
        spec_item(s, 1, "plural".model(), string_rule()),
        |v: Seq<u8>| ShipField::Plural(v),
        dispatch(
            at_field(s, 1, "sprite".model()),
            spec_item(s, 1, "sprite".model(), sprite_rule()),
            |v: SpriteModel| ShipField::Sprite(v),
            dispatch(
                at_field(s, 1, "thumbnail".model()),
                spec_item(s, 1, "thumbnail".model(), path_rule()),
                |v: Seq<u8>| ShipField::Thumbnail(v),
                dispatch(
                    at_field(s, 1, "attributes".model()),
                    spec_item(s, 1, "attributes".model(), ship_attributes_rule()),
                    |v: ShipAttributesModel| ShipField::Attributes(v),
                    dispatch(
                        at_field(s, 1, "outfits".model()),
                        spec_item(s, 1, "outfits".model(), outfits_rule()),
                        |v: Seq<(Seq<u8>, u32)>| ShipField::Outfits(v),
                        spec_ship_later_field(s, draft),
                    ),
                ),
            ),
        ),
    )
}

/// How a ship looks for its next field.
pub open spec fn ship_search() -> Search<ShipBuilderModel, ShipField> {
    |s: Seq<u8>, draft: ShipBuilderModel| spec_ship_field(s, draft)
}

/// How a ship takes a field into its draft.
pub open spec fn ship_apply() -> Apply<ShipBuilderModel, ShipField> {
    |draft: ShipBuilderModel, field: ShipField| draft.with(field)
}

/// Reads the next field of a ship into the draft.
pub fn ship_step<'a>(input: &'a str, draft: ShipBuilder<'a>) -> (step: Step<'a, ShipBuilder<'a>>)
    ensures
        step_follows(
            input,
            draft,
            step,
            spec_ship_field(input.model(), draft.model()),
            ship_apply(),
        ),
{
    let mut draft = draft;
    if peek_field(input, 1, "plural") {
        match item(input, 1, "plural", string, Ghost(string_rule())) {
            Ok((rest, v)) => {
                draft.plural = Some(v);
                return Step::Advance(rest, draft);
            },
            Err(failure) => {
                return Step::Abort(failure.into_error());
            },
        }
    }
    if peek_field(input, 1, "sprite") {
        match item(input, 1, "sprite", parse_sprite, Ghost(sprite_rule())) {
            Ok((rest, v)) => {
                draft.sprite = Some(v);
                return Step::Advance(rest, draft);
            },
            Err(failure) => {
                return Step::Abort(failure.into_error());
            },
        }
    }
    if peek_field(input, 1, "thumbnail") {
        match item(input, 1, "thumbnail", resource_path, Ghost(path_rule())) {
            Ok((rest, v)) => {
                draft.thumbnail = Some(v);
                return Step::Advance(rest, draft);
            },
            Err(failure) => {
                return Step::Abort(failure.into_error());
            },
        }
    }
    if peek_field(input, 1, "attributes") {
        match item(input, 1, "attributes", parse_ship_attributes, Ghost(ship_attributes_rule())) {
            Ok((rest, v)) => {
                draft.attributes = Some(v);
                return Step::Advance(rest, draft);
            },
            Err(failure) => {
                return Step::Abort(failure.into_error());
            },
        }
    }
    if peek_field(input, 1, "outfits") {
        match item(input, 1, "outfits", parse_outfits, Ghost(outfits_rule())) {
            Ok((rest, v)) => {
                draft.outfits = Some(v);
                return Step::Advance(rest, draft);
            },
            Err(failure) => {
                return Step::Abort(failure.into_error());
            },
        }
    }
    ship_later_step(input, draft)
}

/// A ship behind its keyword: blanks, the name, an optional subclass, a line
/// ending, then the fields at depth 1 as they come. A field that comes again
/// replaces what came before.
pub open spec fn spec_ship_body(s: Seq<u8>) -> Outcome<ShipModel> {
    match spec_space1(s) {
        Err(e) => Err(e),
        Ok((a, _)) => match spec_string(a) {
            Err(e) => Err(e),
            Ok((b, name)) => match spec_optional(b, spec_spaced_string(b)) {
                Err(e) => Err(e),
                Ok((c, subclass)) => match spec_line_ending(c) {
                    Err(e) => Err(e),
                    Ok((d, _)) => match spec_sweep(
                        d,
                        ShipBuilderModel {
                            name: Some(name),
                            subclass,
                            ..ShipBuilderModel::empty()
                        },
                        ship_search(),
                        ship_apply(),
                    ) {
                        Err(e) => Err(FailureModel::Hard(e)),
                        Ok((rest, draft)) => draft.finish(rest),
                    },
                },
            },
        },
    }
}

/// Reads a ship behind its keyword.
fn ship_body<'a>(input: &'a str) -> (r: Parsed<'a, Ship<'a>>)
    ensures
        r.model() == spec_ship_body(input.model()),
        advances(input, r),
{
    let (a, _) = space1(input)?;
    let (b, name) = string(a)?;
    let (c, subclass) = optional(b, spaced_string(b))?;
    let (d, _) = line_ending(c)?;
    let mut draft = ShipBuilder::new();
    draft.name = Some(name);
    draft.subclass = subclass;
    match sweep::<ShipBuilder<'a>, ShipField, _>(
        d,
        draft,
        ship_step,
        Ghost(ship_search()),
        Ghost(ship_apply()),
    ) {
        Err(e) => Err(Failure::Hard(e)),
        Ok((rest, full)) => full.finish(rest),
    }
}

/// A ship at the start of `s`. A text that does not begin with the keyword
/// `ship` fails softly; behind the keyword every failure is hard.
pub open spec fn spec_parse_ship(s: Seq<u8>) -> Outcome<ShipModel> {
    match spec_tag(s, "ship".model(), Context::ShipTag) {
        Err(e) => Err(e),
        Ok((rest, _)) => spec_hardened(spec_ship_body(rest)),
    }
}

/// Reads a ship record.
pub fn parse_ship<'a>(input: &'a str) -> (r: Parsed<'a, Ship<'a>>)
    ensures
        r.model() == spec_parse_ship(input.model()),
        advances(input, r),
{
    let (rest, _) = tag(input, "ship", Context::ShipTag)?;
    hardened(ship_body(rest))
}

} // verus!
