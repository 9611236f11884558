//! The planet record, and the tribute that a planet may pay.

use crate::builders::{
    PlanetBuilder, PlanetBuilderModel, PlanetField, TributeBuilder, TributeBuilderModel,
    TributeField,
};
use crate::errors::{Context, Failure, FailureModel};
use crate::fields::{
    at_field, attempt, dispatch, item, items, line, peek_field, spec_item, spec_items, spec_line,
    spec_sweep, step_follows, sweep, Apply, Found, Rule, Search, Step,
};
use crate::helpers::{
    hardened, line_ending, number, resource_path, space1, spec_hardened, spec_line_ending,
    spec_space1, spec_string, spec_tag, string, tag,
};
use crate::model::{advances, Model, Outcome, Parsed};
use crate::types::{FleetModel, Planet, PlanetModel, Tribute, TributeModel};
use crate::values::{
    fleet, fleet_rule, integer_u32, number_rule, path_rule, spec_u32, string_rule, texts,
    texts_rule, u32_rule,
};
use vstd::prelude::*;
use vstd::string::*;

verus! {

/// The next field of a tribute at the start of `s`: the threshold, the
/// fleet, each as long as the draft lacks it.
pub open spec fn spec_tribute_field(s: Seq<u8>, draft: TributeBuilderModel) -> Found<TributeField> {
    attempt(
        draft.threshold is None,
        spec_line(s, 2, "threshold".model(), u32_rule()),
        |v: u32| TributeField::Threshold(v),
        attempt(
            draft.fleet is None,
            spec_line(s, 2, "fleet".model(), fleet_rule()),
            |v: FleetModel| TributeField::Fleet(v),
            Found::Nothing,
        ),
    )
}

/// How a tribute looks for its next field.
pub open spec fn tribute_search() -> Search<TributeBuilderModel, TributeField> {
    |s: Seq<u8>, draft: TributeBuilderModel| spec_tribute_field(s, draft)
}

/// How a tribute takes a field into its draft.
pub open spec fn tribute_apply() -> Apply<TributeBuilderModel, TributeField> {
    |draft: TributeBuilderModel, field: TributeField| draft.with(field)
}

/// Reads the next field of a tribute into the draft.
pub fn tribute_step<'a>(
    input: &'a str,
    draft: TributeBuilder<'a>,
) -> (step: Step<'a, TributeBuilder<'a>>)
    ensures
        step_follows(
            input,
            draft,
            step,
            spec_tribute_field(input.model(), draft.model()),
            tribute_apply(),
        ),
{
    let mut draft = draft;
    if draft.threshold.is_none() {
        match line(input, 2, "threshold", integer_u32, Ghost(u32_rule())) {
            Ok((rest, v)) => {
                draft.threshold = Some(v);
                return Step::Advance(rest, draft);
            },
            Err(Failure::Hard(e)) => {
                return Step::Abort(e);
            },
            Err(Failure::Soft(_)) => {},
        }
    }
    if draft.fleet.is_none() {
        match line(input, 2, "fleet", fleet, Ghost(fleet_rule())) {
            Ok((rest, v)) => {
                draft.fleet = Some(v);
                return Step::Advance(rest, draft);
            },
            Err(Failure::Hard(e)) => {
                return Step::Abort(e);
            },
            Err(Failure::Soft(_)) => {},
        }
    }
    Step::Stay(draft)
}

/// A tribute at the start of `s`: the value and a line ending, then at depth
/// 2 the threshold and the fleet in either order. Both are required.
pub open spec fn spec_parse_tribute(s: Seq<u8>) -> Outcome<TributeModel> {
    match spec_u32(s) {
        Err(e) => Err(e),
        Ok((a, value)) => match spec_line_ending(a) {
            Err(e) => Err(e),
            Ok((b, _)) => match spec_sweep(
                b,
                TributeBuilderModel { value: Some(value), ..TributeBuilderModel::empty() },
                tribute_search(),
                tribute_apply(),
            ) {
                Err(e) => Err(FailureModel::Hard(e)),
                Ok((rest, draft)) => draft.finish(rest),
            },
        },
    }
}

/// The rule of a tribute.
pub open spec fn tribute_rule() -> Rule<TributeModel> {
    |s: Seq<u8>| spec_parse_tribute(s)
}

/// Reads a tribute behind its keyword.
pub fn parse_tribute<'a>(input: &'a str) -> (r: Parsed<'a, Tribute<'a>>)
    ensures
        r.model() == spec_parse_tribute(input.model()),
        advances(input, r),
{
    let (a, value) = integer_u32(input)?;
    let (b, _) = line_ending(a)?;
    let mut draft = TributeBuilder::new();
    draft.value = Some(value);
    match sweep::<TributeBuilder<'a>, TributeField, _>(
        b,
        draft,
        tribute_step,
        Ghost(tribute_search()),
        Ghost(tribute_apply()),
    ) {
        Err(e) => Err(Failure::Hard(e)),
        Ok((rest, full)) => full.finish(rest),
    }
}

/// The later entries of the list of [`spec_planet_field`].
pub open spec fn spec_planet_later_field(
    s: Seq<u8>,
    draft: PlanetBuilderModel,
) -> Found<PlanetField> {
    dispatch(
        at_field(s, 1, "shipyard".model()),
        spec_items(s, 1, "shipyard".model(), string_rule()),
        |v: Seq<Seq<u8>>| PlanetField::Shipyard(v),
        dispatch(
            at_field(s, 1, "outfitter".model()),
            spec_items(s, 1, "outfitter".model(), string_rule()),
            |v: Seq<Seq<u8>>| PlanetField::Outfitter(v),
            dispatch(
                at_field(s, 1, "bribe".model()),
                spec_item(s, 1, "bribe".model(), number_rule()),
                |v: Seq<u8>| PlanetField::Bribe(v),
                dispatch(
                    at_field(s, 1, "security".model()),
                    spec_item(s, 1, "security".model(), number_rule()),
                    |v: Seq<u8>| PlanetField::Security(v),
                    dispatch(
                        at_field(s, 1, "\"required reputation\"".model()),
                        spec_item(s, 1, "\"required reputation\"".model(), number_rule()),
                        |v: Seq<u8>| PlanetField::RequiredReputation(v),
                        dispatch(
                            at_field(s, 1, "tribute".model()),
                            spec_item(s, 1, "tribute".model(), tribute_rule()),
                            |v: TributeModel| PlanetField::Tribute(v),
                            Found::Nothing,
                        ),
                    ),
                ),
            ),
        ),
    )
}

/// Reads the next field of a planet into the draft, by the later entries of
/// the list.
fn planet_later_step<'a>(
    input: &'a str,
    draft: PlanetBuilder<'a>,
) -> (step: Step<'a, PlanetBuilder<'a>>)
    ensures
        step_follows(
            input,
            draft,
            step,
            spec_planet_later_field(input.model(), draft.model()),
            planet_apply(),
        ),
{
    let mut draft = draft;
    if peek_field(input, 1, "shipyard") {
        match items(input, 1, "shipyard", string, Ghost(string_rule())) {
            Ok((rest, v)) => {
                draft.shipyard = Some(v);
                return Step::Advance(rest, draft);
            },
            Err(failure) => {
                return Step::Abort(failure.into_error());
            },
        }
    }
    if peek_field(input, 1, "outfitter") {
        match items(input, 1, "outfitter", string, Ghost(string_rule())) {
            Ok((rest, v)) => {
                draft.outfitter = Some(v);
                return Step::Advance(rest, draft);
            },
            Err(failure) => {
                return Step::Abort(failure.into_error());
            },
        }
    }
    if peek_field(input, 1, "bribe") {
        match item(input, 1, "bribe", number, Ghost(number_rule())) {
            Ok((rest, v)) => {
                draft.bribe = Some(v);
                return Step::Advance(rest, draft);
            },
            Err(failure) => {
                return Step::Abort(failure.into_error());
            },
        }
    }
    if peek_field(input, 1, "security") {
        match item(input, 1, "security", number, Ghost(number_rule())) {
            Ok((rest, v)) => {
                draft.security = Some(v);
                return Step::Advance(rest, draft);
            },
            Err(failure) => {
                return Step::Abort(failure.into_error());
            },
        }
    }
    if peek_field(input, 1, "\"required reputation\"") {
        match item(input, 1, "\"required reputation\"", number, Ghost(number_rule())) {
            Ok((rest, v)) => {
                draft.required_reputation = Some(v);
                return Step::Advance(rest, draft);
            },
            Err(failure) => {
                return Step::Abort(failure.into_error());
            },
        }
    }
    if peek_field(input, 1, "tribute") {
        match item(input, 1, "tribute", parse_tribute, Ghost(tribute_rule())) {
            Ok((rest, v)) => {
                draft.tribute = Some(v);
                return Step::Advance(rest, draft);
            },
            Err(failure) => {
                return Step::Abort(failure.into_error());
            },
        }
    }
    Step::Stay(draft)
}

/// The next field of a planet at the start of `s`: the first of the
/// planet's keywords, in the order of this list, that stands at depth 1.
pub open spec fn spec_planet_field(s: Seq<u8>, draft: PlanetBuilderModel) -> Found<PlanetField> {
    dispatch(
        at_field(s, 1, "attributes".model()),
        spec_item(s, 1, "attributes".model(), texts_rule()),
        |v: Seq<Seq<u8>>| PlanetField::Attributes(v),
        dispatch(
            at_field(s, 1, "landscape".model()),
            spec_item(s, 1, "landscape".model(), path_rule()),
            |v: Seq<u8>| PlanetField::Landscape(v),
            dispatch(
                at_field(s, 1, "government".model()),
                spec_item(s, 1, "government".model(), string_rule()),
                |v: Seq<u8>| PlanetField::Government(v),
                dispatch(
                    at_field(s, 1, "description".model()),
                    spec_items(s, 1, "description".model(), string_rule()),
                    |v: Seq<Seq<u8>>| PlanetField::Description(v),
                    dispatch(
                        at_field(s, 1, "music".model()),
                        spec_item(s, 1, "music".model(), path_rule()),
                        |v: Seq<u8>| PlanetField::Music(v),
                        dispatch(
                            at_field(s, 1, "spaceport".model()),
                            spec_items(s, 1, "spaceport".model(), string_rule()),
                            |v: Seq<Seq<u8>>| PlanetField::Spaceport(v),
                            spec_planet_later_field(s, draft),
                        ),
                    ),
                ),
            ),
        ),
    )
}

/// How a planet looks for its next field.
pub open spec fn planet_search() -> Search<PlanetBuilderModel, PlanetField> {
    |s: Seq<u8>, draft: PlanetBuilderModel| spec_planet_field(s, draft)
}

/// How a planet takes a field into its draft.
pub open spec fn planet_apply() -> Apply<PlanetBuilderModel, PlanetField> {
    |draft: PlanetBuilderModel, field: PlanetField| draft.with(field)
}

/// Reads the next field of a planet into the draft.
pub fn planet_step<'a>(
    input: &'a str,
    draft: PlanetBuilder<'a>,
) -> (step: Step<'a, PlanetBuilder<'a>>)
    ensures
        step_follows(
            input,
            draft,
            step,
            spec_planet_field(input.model(), draft.model()),
            planet_apply(),
        ),
{
    let mut draft = draft;
    if peek_field(input, 1, "attributes") {
        match item(input, 1, "attributes", texts, Ghost(texts_rule())) {
            Ok((rest, v)) => {
                draft.attributes = Some(v);
                return Step::Advance(rest, draft);
            },
            Err(failure) => {
                return Step::Abort(failure.into_error());
            },
        }
    }
    if peek_field(input, 1, "landscape") {
        match item(input, 1, "landscape", resource_path, Ghost(path_rule())) {
            Ok((rest, v)) => {
                draft.landscape = Some(v);
                return Step::Advance(rest, draft);
            },
            Err(failure) => {
                return Step::Abort(failure.into_error());
            },
        }
    }
    if peek_field(input, 1, "government") {
        match item(input, 1, "government", string, Ghost(string_rule())) {
            Ok((rest, v)) => {
                draft.government = Some(v);
                return Step::Advance(rest, draft);
            },
            Err(failure) => {
                return Step::Abort(failure.into_error());
            },
        }
    }
    if peek_field(input, 1, "description") {
        match items(input, 1, "description", string, Ghost(string_rule())) {
            Ok((rest, v)) => {
                draft.description = Some(v);
                return Step::Advance(rest, draft);
            },
            Err(failure) => {
                return Step::Abort(failure.into_error());
            },
        }
    }
    if peek_field(input, 1, "music") {
        match item(input, 1, "music", resource_path, Ghost(path_rule())) {
            Ok((rest, v)) => {
                draft.music = Some(v);
                return Step::Advance(rest, draft);
            },
            Err(failure) => {
                return Step::Abort(failure.into_error());
            },
        }
    }
    if peek_field(input, 1, "spaceport") {
        match items(input, 1, "spaceport", string, Ghost(string_rule())) {
            Ok((rest, v)) => {
                draft.spaceport = Some(v);
                return Step::Advance(rest, draft);
            },
            Err(failure) => {
                return Step::Abort(failure.into_error());
            },
        }
    }
    planet_later_step(input, draft)
}

/// A planet behind its keyword: blanks, the name, a line ending, then the
/// fields as they come. A field that comes again replaces what came before.
/// The description is required.
pub open spec fn spec_planet_body(s: Seq<u8>) -> Outcome<PlanetModel> {
    match spec_space1(s) {
        Err(e) => Err(e),
        Ok((a, _)) => match spec_string(a) {
            Err(e) => Err(e),
            Ok((b, name)) => match spec_line_ending(b) {
                Err(e) => Err(e),
                Ok((c, _)) => match spec_sweep(
                    c,
                    PlanetBuilderModel { name: Some(name), ..PlanetBuilderModel::empty() },
                    planet_search(),
                    planet_apply(),
                ) {
                    Err(e) => Err(FailureModel::Hard(e)),
                    Ok((rest, draft)) => draft.finish(rest),
                },
            },
        },
    }
}

/// Reads a planet behind its keyword.
fn planet_body<'a>(input: &'a str) -> (r: Parsed<'a, Planet<'a>>)
    ensures
        r.model() == spec_planet_body(input.model()),
        advances(input, r),
{
    let (a, _) = space1(input)?;
    let (b, name) = string(a)?;
    let (c, _) = line_ending(b)?;
    let mut draft = PlanetBuilder::new();
    draft.name = Some(name);
    match sweep::<PlanetBuilder<'a>, PlanetField, _>(
        c,
        draft,
        planet_step,
        Ghost(planet_search()),
        Ghost(planet_apply()),
    ) {
        Err(e) => Err(Failure::Hard(e)),
        Ok((rest, full)) => full.finish(rest),
    }
}

/// A planet at the start of `s`. A text that does not begin with the keyword
/// `planet` fails softly; behind the keyword every failure is hard.
pub open spec fn spec_parse_planet(s: Seq<u8>) -> Outcome<PlanetModel> {
    match spec_tag(s, "planet".model(), Context::PlanetTag) {
        Err(e) => Err(e),
        Ok((rest, _)) => spec_hardened(spec_planet_body(rest)),
    }
}

/// Reads a planet record.
pub fn parse_planet<'a>(input: &'a str) -> (r: Parsed<'a, Planet<'a>>)
    ensures
        r.model() == spec_parse_planet(input.model()),
        advances(input, r),
{
    let (rest, _) = tag(input, "planet", Context::PlanetTag)?;
    hardened(planet_body(rest))
}

} // verus!
