//! The galaxy record: a name, a position and an optional sprite.

use crate::builders::{GalaxyBuilder, GalaxyBuilderModel, GalaxyField};
use crate::errors::{Context, Failure};
use crate::fields::{
    attempt, line, spec_line, spec_sweep, step_follows, sweep, Apply, Found, Search, Step,
};
use crate::helpers::{
    hardened, line_ending, position, resource_path, space1, spec_hardened, spec_line_ending,
    spec_space1, spec_string, spec_tag, string, tag,
};
use crate::model::{advances, Model, Outcome, Parsed};
use crate::types::{Galaxy, GalaxyModel, Position, PositionModel};
use crate::values::{path_rule, position_rule};
use vstd::prelude::*;
use vstd::string::*;

verus! {

/// The line that gives a galaxy's or a system's position.
pub open spec fn spec_pos_line(s: Seq<u8>) -> Outcome<PositionModel> {
    spec_line(s, 1, "pos".model(), position_rule())
}

/// Reads the line `pos`, with two decimal numbers.
pub fn pos_line<'a>(input: &'a str) -> (r: Parsed<'a, Position<'a>>)
    ensures
        r.model() == spec_pos_line(input.model()),
        advances(input, r),
{
    line(input, 1, "pos", position, Ghost(position_rule()))
}

/// The line that gives a galaxy's sprite.
pub open spec fn spec_sprite_line(s: Seq<u8>) -> Outcome<Seq<u8>> {
    spec_line(s, 1, "sprite".model(), path_rule())
}

/// Reads the line `sprite`, with a resource path.
pub fn sprite_line<'a>(input: &'a str) -> (r: Parsed<'a, &'a str>)
    ensures
        r.model() == spec_sprite_line(input.model()),
        advances(input, r),
{
    line(input, 1, "sprite", resource_path, Ghost(path_rule()))
}

/// The next field of a galaxy at the start of `s`: its position, then its
/// sprite, each as long as the draft lacks it.
pub open spec fn spec_galaxy_field(s: Seq<u8>, draft: GalaxyBuilderModel) -> Found<GalaxyField> {
    attempt(
        draft.pos is None,
        spec_pos_line(s),
        |v: PositionModel| GalaxyField::Pos(v),
        attempt(
            draft.sprite is None,
            spec_sprite_line(s),
            |v: Seq<u8>| GalaxyField::Sprite(v),
            Found::Nothing,
        ),
    )
}

/// How a galaxy looks for its next field.
pub open spec fn galaxy_search() -> Search<GalaxyBuilderModel, GalaxyField> {
    |s: Seq<u8>, draft: GalaxyBuilderModel| spec_galaxy_field(s, draft)
}

/// How a galaxy takes a field into its draft.
pub open spec fn galaxy_apply() -> Apply<GalaxyBuilderModel, GalaxyField> {
    |draft: GalaxyBuilderModel, field: GalaxyField| draft.with(field)
}

/// Reads the next field of a galaxy into the draft.
pub fn galaxy_step<'a>(input: &'a str, draft: GalaxyBuilder<'a>) -> (step: Step<
    'a,
    GalaxyBuilder<'a>,
>)
    ensures
        step_follows(
            input,
            draft,
            step,
            spec_galaxy_field(input.model(), draft.model()),
            galaxy_apply(),
        ),
{
    let mut draft = draft;
    if draft.pos.is_none() {
        match pos_line(input) {
            Ok((rest, v)) => {
                draft.pos = Some(v);
                return Step::Advance(rest, draft);
            },
            Err(Failure::Hard(e)) => {
                return Step::Abort(e);
            },
            Err(Failure::Soft(_)) => {},
        }
    }
    if draft.sprite.is_none() {
        match sprite_line(input) {
            Ok((rest, v)) => {
                draft.sprite = Some(v);
                return Step::Advance(rest, draft);
            },
            Err(Failure::Hard(e)) => {
                return Step::Abort(e);
            },
            Err(Failure::Soft(_)) => {},
        }
    }
    Step::Stay(draft)
}

/// A galaxy behind its keyword: blanks, the name, a line ending, then the
/// fields in any order, each at most once. The position is required.
pub open spec fn spec_galaxy_body(s: Seq<u8>) -> Outcome<GalaxyModel> {
    match spec_space1(s) {
        Err(e) => Err(e),
        Ok((a, _)) => match spec_string(a) {
            Err(e) => Err(e),
            Ok((b, name)) => match spec_line_ending(b) {
                Err(e) => Err(e),
                Ok((c, _)) => match spec_sweep(
                    c,
                    GalaxyBuilderModel { name: Some(name), ..GalaxyBuilderModel::empty() },
                    galaxy_search(),
                    galaxy_apply(),
                ) {
                    Err(e) => Err(crate::errors::FailureModel::Hard(e)),
                    Ok((rest, draft)) => draft.finish(rest),
                },
            },
        },
    }
}

/// Reads a galaxy behind its keyword.
fn galaxy_body<'a>(input: &'a str) -> (r: Parsed<'a, Galaxy<'a>>)
    ensures
        r.model() == spec_galaxy_body(input.model()),
        advances(input, r),
{
    let (a, _) = space1(input)?;
    let (b, name) = string(a)?;
    let (c, _) = line_ending(b)?;
    let mut draft = GalaxyBuilder::new();
    draft.name = Some(name);
    match sweep::<GalaxyBuilder<'a>, GalaxyField, _>(
        c,
        draft,
        galaxy_step,
        Ghost(galaxy_search()),
        Ghost(galaxy_apply()),
    ) {
        Err(e) => Err(Failure::Hard(e)),
        Ok((rest, full)) => full.finish(rest),
    }
}

/// A galaxy at the start of `s`. A text that does not begin with the keyword
/// `galaxy` fails softly; behind the keyword every failure is hard.
pub open spec fn spec_parse_galaxy(s: Seq<u8>) -> Outcome<GalaxyModel> {
    match spec_tag(s, "galaxy".model(), Context::GalaxyTag) {
        Err(e) => Err(e),
        Ok((rest, _)) => spec_hardened(spec_galaxy_body(rest)),
    }
}

/// Reads a galaxy record.
pub fn parse_galaxy<'a>(input: &'a str) -> (r: Parsed<'a, Galaxy<'a>>)
    ensures
        r.model() == spec_parse_galaxy(input.model()),
        advances(input, r),
{
    let (rest, _) = tag(input, "galaxy", Context::GalaxyTag)?;
    hardened(galaxy_body(rest))
}

} // verus!
