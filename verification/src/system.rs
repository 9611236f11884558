//! The system record, and the tree of objects that a system holds.
//!
//! An object's children stand one level deeper than the object. Their depth
//! in the tree is bounded by the text alone: every level costs the text at
//! least one line, so reading an object of depth `n` nests `n` calls.

use crate::builders::{
    SystemBuilder, SystemBuilderModel, SystemField, SystemObjectBuilder, SystemObjectBuilderModel,
    SystemObjectField,
};
use crate::errors::{Context, DataError, ErrorModel, Failure, FailureModel};
use crate::fields::{
    attempt, line, repeat1, spec_line, spec_repeat0, spec_repeat1, spec_sweep, step_follows, sweep,
    Apply, Found, Search, Step,
};
use crate::helpers::{
    hardened, indents, line_ending, number, position, resource_path, soft, space1, spec_hardened,
    spec_indents, spec_line_ending, spec_space1, spec_string, spec_tag, string, tag,
};
use crate::model::{advances, lemma_model_empty, lemma_model_push, Model, Outcome, Parsed};
use crate::types::{
    Asteroids, AsteroidsModel, Fleet, FleetModel, Minables, MinablesModel, PositionModel, System,
    SystemModel, SystemObject, SystemObjectModel, Trade, TradeModel,
};
use crate::values::{
    asteroids, asteroids_rule, fleet, fleet_rule, integer_u32, minables, minables_rule,
    number_rule, optional, path_rule, position_rule, spaced_string, spec_optional,
    spec_spaced_string, string_rule, trade, trade_rule, u32_rule,
};
use vstd::prelude::*;
use vstd::string::*;

verus! {

/// The first line of an object at the start of `s`: `depth` units of
/// indentation, the keyword `object`, an optional name, a line ending.
pub open spec fn spec_object_header(s: Seq<u8>, depth: nat) -> Outcome<Option<Seq<u8>>> {
    match spec_indents(s, depth) {
        Err(e) => Err(e),
        Ok((a, _)) => match spec_tag(a, "object".model(), Context::Keyword) {
            Err(e) => Err(e),
            Ok((b, _)) => match spec_optional(b, spec_spaced_string(b)) {
                Err(e) => Err(e),
                Ok((c, name)) => match spec_line_ending(c) {
                    Err(e) => Err(e),
                    Ok((rest, _)) => Ok((rest, name)),
                },
            },
        },
    }
}

/// Reads the first line of an object.
fn object_header<'a>(input: &'a str, depth: usize) -> (r: Parsed<'a, Option<&'a str>>)
    ensures
        r.model() == spec_object_header(input.model(), depth as nat),
        advances(input, r),
        r is Ok ==> depth < usize::MAX,
{
    // The text bounds the depth: each unit of indentation is a byte of it.
    let _total = input.as_bytes().len();
    let (a, _) = indents(input, depth)?;
    let (b, _) = tag(a, "object", Context::Keyword)?;
    let (c, name) = optional(b, spaced_string(b))?;
    let (rest, _) = line_ending(c)?;
    assert(depth < _total);
    Ok((rest, name))
}

/// An object at the start of `s`, with its first line at `depth`: the first
/// line, then one level deeper the sprite, the distance, the period, the
/// offset and the run of its children, in any order and each at most once.
/// The period is required.
pub open spec fn spec_parse_object(s: Seq<u8>, depth: nat) -> Outcome<SystemObjectModel>
    decreases s.len(), 0nat,
{
    match spec_object_header(s, depth) {
        Err(e) => Err(e),
        Ok((a, name)) => if a.len() < s.len() {
            match spec_object_sweep(
                a,
                depth + 1,
                SystemObjectBuilderModel { name, ..SystemObjectBuilderModel::empty() },
            ) {
                Err(e) => Err(FailureModel::Hard(e)),
                Ok((rest, draft)) => draft.finish(rest),
            }
        } else {
            soft(s, Context::Keyword)
        },
    }
}

/// One or more objects at `depth`, one behind the other, in the order of the
/// text.
pub open spec fn spec_object_children(s: Seq<u8>, depth: nat) -> Outcome<Seq<SystemObjectModel>>
    decreases s.len(), 1nat,
{
    match spec_parse_object(s, depth) {
        Err(e) => Err(e),
        Ok((rest, first)) => if rest.len() < s.len() {
            match spec_more_objects(rest, depth) {
                Ok((end, more)) => Ok((end, seq![first] + more)),
                Err(e) => Err(e),
            }
        } else {
            Ok((rest, seq![first]))
        },
    }
}

/// The objects at `depth` that follow one another from the start of `s`, as
/// many as there are.
pub open spec fn spec_more_objects(s: Seq<u8>, depth: nat) -> Outcome<Seq<SystemObjectModel>>
    decreases s.len(), 1nat,
{
    match spec_parse_object(s, depth) {
        Ok((rest, object)) => if rest.len() < s.len() {
            match spec_more_objects(rest, depth) {
                Ok((end, more)) => Ok((end, seq![object] + more)),
                Err(e) => Err(e),
            }
        } else {
            Ok((s, Seq::empty()))
        },
        Err(FailureModel::Soft(_)) => Ok((s, Seq::empty())),
        Err(e) => Err(e),
    }
}

/// The next field of an object at the start of `s`, with the fields at
/// `depth`: the sprite, the distance, the period, the offset, the children,
/// each as long as the draft lacks it.
pub open spec fn spec_object_field(
    s: Seq<u8>,
    depth: nat,
    draft: SystemObjectBuilderModel,
) -> Found<SystemObjectField>
    decreases s.len(), 2nat,
{
    attempt(
        draft.sprite is None,
        spec_line(s, depth, "sprite".model(), path_rule()),
        |v: Seq<u8>| SystemObjectField::Sprite(v),
        attempt(
            draft.distance is None,
            spec_line(s, depth, "distance".model(), number_rule()),
            |v: Seq<u8>| SystemObjectField::Distance(v),
            attempt(
                draft.period is None,
                spec_line(s, depth, "period".model(), number_rule()),
                |v: Seq<u8>| SystemObjectField::Period(v),
                attempt(
                    draft.offset is None,
                    spec_line(s, depth, "offset".model(), number_rule()),
                    |v: Seq<u8>| SystemObjectField::Offset(v),
                    attempt(
                        draft.objects is None,
                        spec_object_children(s, depth),
                        |v: Seq<SystemObjectModel>| SystemObjectField::Objects(v),
                        Found::Nothing,
                    ),
                ),
            ),
        ),
    )
}

/// Reading the fields of an object, as [`spec_sweep`] reads those of other
/// records.
pub open spec fn spec_object_sweep(
    s: Seq<u8>,
    depth: nat,
    draft: SystemObjectBuilderModel,
) -> Result<(Seq<u8>, SystemObjectBuilderModel), ErrorModel>
    decreases s.len(), 3nat,
{
    match spec_object_field(s, depth, draft) {
        Found::Field(rest, field) => if rest.len() < s.len() {
            spec_object_sweep(rest, depth, draft.with(field))
        } else {
            Ok((s, draft))
        },
        Found::Nothing => Ok((s, draft)),
        Found::Broken(error) => Err(error),
    }
}

/// How an object with its fields at `depth` looks for its next field.
pub open spec fn object_search(depth: nat) -> Search<SystemObjectBuilderModel, SystemObjectField> {
    |s: Seq<u8>, draft: SystemObjectBuilderModel| spec_object_field(s, depth, draft)
}

/// How an object takes a field into its draft.
pub open spec fn object_apply() -> Apply<SystemObjectBuilderModel, SystemObjectField> {
    |draft: SystemObjectBuilderModel, field: SystemObjectField| draft.with(field)
}

/// The fields of an object are read as those of every other record.
pub proof fn lemma_object_sweep(s: Seq<u8>, depth: nat, draft: SystemObjectBuilderModel)
    ensures
        spec_object_sweep(s, depth, draft) == spec_sweep(
            s,
            draft,
            object_search(depth),
            object_apply(),
        ),
    decreases s.len(),
{
    match spec_object_field(s, depth, draft) {
        Found::Field(rest, field) => {
            if rest.len() < s.len() {
                lemma_object_sweep(rest, depth, draft.with(field));
            }
        },
        _ => {},
    }
}

/// The sweep over an object's fields leaves no more unread than it was
/// given.
pub proof fn lemma_object_sweep_fits(s: Seq<u8>, depth: nat, draft: SystemObjectBuilderModel)
    ensures
        spec_object_sweep(s, depth, draft) matches Ok((rest, _)) ==> rest.len() <= s.len(),
    decreases s.len(),
{
    match spec_object_field(s, depth, draft) {
        Found::Field(rest, field) => {
            if rest.len() < s.len() {
                lemma_object_sweep_fits(rest, depth, draft.with(field));
            }
        },
        _ => {},
    }
}

/// An object takes up part of the text.
pub proof fn lemma_object_advances(s: Seq<u8>, depth: nat)
    ensures
        spec_parse_object(s, depth) matches Ok((rest, _)) ==> rest.len() < s.len(),
{
    match spec_object_header(s, depth) {
        Ok((a, name)) => {
            lemma_object_sweep_fits(
                a,
                depth + 1,
                SystemObjectBuilderModel { name, ..SystemObjectBuilderModel::empty() },
            );
        },
        Err(_) => {},
    }
}

/// The children of an object are read as every other repeated field.
pub proof fn lemma_object_children_repeat(s: Seq<u8>, depth: nat)
    ensures
        spec_object_children(s, depth) == spec_repeat1(
            s,
            |t: Seq<u8>| spec_parse_object(t, depth),
        ),
        spec_more_objects(s, depth) == spec_repeat0(s, |t: Seq<u8>| spec_parse_object(t, depth)),
    decreases s.len(),
{
    lemma_object_advances(s, depth);
    match spec_parse_object(s, depth) {
        Ok((rest, _)) => {
            lemma_object_children_repeat(rest, depth);
        },
        Err(_) => {},
    }
}

/// Reads an object whose first line stands at `depth`, with all that it
/// holds.
pub fn parse_object<'a>(input: &'a str, depth: usize) -> (r: Parsed<'a, SystemObject<'a>>)
    ensures
        r.model() == spec_parse_object(input.model(), depth as nat),
        advances(input, r),
    decreases input.model().len(), 0nat,
{
    let (a, name) = object_header(input, depth)?;
    let mut draft = SystemObjectBuilder::new();
    draft.name = name;
    match object_sweep(a, depth + 1, draft) {
        Err(e) => Err(Failure::Hard(e)),
        Ok((rest, full)) => full.finish(rest),
    }
}

/// Reads objects at `depth` as often as they fit, after those in `found`.
fn more_objects<'a>(input: &'a str, depth: usize, found: Vec<SystemObject<'a>>) -> (r: Parsed<
    'a,
    Vec<SystemObject<'a>>,
>)
    ensures
        r.model() == (match spec_more_objects(input.model(), depth as nat) {
            Ok((end, more)) => Ok((end, found.model() + more)),
            Err(e) => Err(e),
        }),
        r matches Ok((rest, _)) ==> rest.model().len() <= input.model().len(),
    decreases input.model().len(), 1nat,
{
    let mut rest = input;
    let mut values = found;
    loop
        invariant
            rest.model().len() <= input.model().len(),
            (match spec_more_objects(rest.model(), depth as nat) {
                Ok((end, more)) => Ok((end, values.model() + more)),
                Err(e) => Err(e),
            }) == (match spec_more_objects(input.model(), depth as nat) {
                Ok((end, more)) => Ok::<(Seq<u8>, Seq<SystemObjectModel>), FailureModel>(
                    (end, found.model() + more),
                ),
                Err(e) => Err(e),
            }),
        decreases rest.model().len(),
    {
        match parse_object(rest, depth) {
            Ok((next, object)) => {
                let ghost before = values;
                let ghost om = object.model();
                values.push(object);
                proof {
                    lemma_model_push(before, values, object);
                    match spec_more_objects(next.model(), depth as nat) {
                        Ok((end, more)) => {
                            assert(before.model().push(om) + more =~= before.model() + (seq![om]
                                + more));
                        },
                        Err(_) => {},
                    }
                }
                rest = next;
            },
            Err(Failure::Soft(_)) => {
                proof {
                    assert(values.model() + Seq::<SystemObjectModel>::empty() =~= values.model());
                }
                return Ok((rest, values));
            },
            Err(e) => {
                return Err(e);
            },
        }
    }
}

/// Reads one or more objects at `depth`.
pub fn object_children<'a>(input: &'a str, depth: usize) -> (r: Parsed<
    'a,
    Vec<SystemObject<'a>>,
>)
    ensures
        r.model() == spec_object_children(input.model(), depth as nat),
        advances(input, r),
    decreases input.model().len(), 1nat,
{
    let (rest, first) = parse_object(input, depth)?;
    let mut found: Vec<SystemObject<'a>> = Vec::new();
    let ghost empty = found;
    found.push(first);
    proof {
        lemma_model_empty(empty);
        lemma_model_push(empty, found, first);
        assert(found.model() =~= seq![first.model()]);
    }
    more_objects(rest, depth, found)
}

/// Reads the next field of an object into the draft.
fn object_step<'a>(input: &'a str, depth: usize, draft: SystemObjectBuilder<'a>) -> (step: Step<
    'a,
    SystemObjectBuilder<'a>,
>)
    ensures
        step_follows(
            input,
            draft,
            step,
            spec_object_field(input.model(), depth as nat, draft.model()),
            |d: SystemObjectBuilderModel, f: SystemObjectField| d.with(f),
        ),
    decreases input.model().len(), 2nat,
{
    let mut draft = draft;
    if draft.sprite.is_none() {
        match line(input, depth, "sprite", resource_path, Ghost(path_rule())) {
            Ok((rest, v)) => {
                draft.sprite = Some(v);
                return Step::Advance(rest, draft);
            },
            Err(Failure::Hard(e)) => {
                return Step::Abort(e);
            },
            Err(Failure::Soft(_)) => {},
        }
    }
    if draft.distance.is_none() {
        match line(input, depth, "distance", number, Ghost(number_rule())) {
            Ok((rest, v)) => {
                draft.distance = Some(v);
                return Step::Advance(rest, draft);
            },
            Err(Failure::Hard(e)) => {
                return Step::Abort(e);
            },
            Err(Failure::Soft(_)) => {},
        }
    }
    if draft.period.is_none() {
        match line(input, depth, "period", number, Ghost(number_rule())) {
            Ok((rest, v)) => {
                draft.period = Some(v);
                return Step::Advance(rest, draft);
            },
            Err(Failure::Hard(e)) => {
                return Step::Abort(e);
            },
            Err(Failure::Soft(_)) => {},
        }
    }
    if draft.offset.is_none() {
        match line(input, depth, "offset", number, Ghost(number_rule())) {
            Ok((rest, v)) => {
                draft.offset = Some(v);
                return Step::Advance(rest, draft);
            },
            Err(Failure::Hard(e)) => {
                return Step::Abort(e);
            },
            Err(Failure::Soft(_)) => {},
        }
    }
    if draft.objects.is_none() {
        match object_children(input, depth) {
            Ok((rest, v)) => {
                draft.objects = Some(v);
                return Step::Advance(rest, draft);
            },
            Err(Failure::Hard(e)) => {
                return Step::Abort(e);
            },
            Err(Failure::Soft(_)) => {},
        }
    }
    Step::Stay(draft)
}

/// Reads the fields of an object into `draft` until none fits.
fn object_sweep<'a>(input: &'a str, depth: usize, draft: SystemObjectBuilder<'a>) -> (r: Result<
    (&'a str, SystemObjectBuilder<'a>),
    DataError,
>)
    ensures
        match spec_object_sweep(input.model(), depth as nat, draft.model()) {
            Ok((rest, end)) => r matches Ok((left, full)) && left.model() == rest && full.model()
                == end,
            Err(error) => r matches Err(e) && e@ == error,
        },
        r matches Ok((left, _)) ==> left.model().len() <= input.model().len(),
    decreases input.model().len(), 3nat,
{
    let mut rest = input;
    let mut current = draft;
    loop
        invariant
            rest.model().len() <= input.model().len(),
            spec_object_sweep(rest.model(), depth as nat, current.model()) == spec_object_sweep(
                input.model(),
                depth as nat,
                draft.model(),
            ),
        decreases rest.model().len(),
    {
        match object_step(rest, depth, current) {
            Step::Advance(left, next) => {
                rest = left;
                current = next;
            },
            Step::Stay(same) => {
                return Ok((rest, same));
            },
            Step::Abort(error) => {
                return Err(error);
            },
        }
    }
}

/// One line of a system's links at the start of `s`.
pub open spec fn spec_link_line(s: Seq<u8>) -> Outcome<Seq<u8>> {
    spec_line(s, 1, "link".model(), string_rule())
}

/// Reads one line of a system's links.
fn link_line<'a>(input: &'a str) -> (r: Parsed<'a, &'a str>)
    ensures
        r.model() == spec_link_line(input.model()),
        advances(input, r),
{
    line(input, 1, "link", string, Ghost(string_rule()))
}

/// One line of a system's asteroids at the start of `s`.
pub open spec fn spec_asteroids_line(s: Seq<u8>) -> Outcome<AsteroidsModel> {
    spec_line(s, 1, "asteroids".model(), asteroids_rule())
}

/// Reads one line of a system's asteroids.
fn asteroids_line<'a>(input: &'a str) -> (r: Parsed<'a, Asteroids<'a>>)
    ensures
        r.model() == spec_asteroids_line(input.model()),
        advances(input, r),
{
    line(input, 1, "asteroids", asteroids, Ghost(asteroids_rule()))
}

/// One line of a system's minables at the start of `s`.
pub open spec fn spec_minables_line(s: Seq<u8>) -> Outcome<MinablesModel> {
    spec_line(s, 1, "minables".model(), minables_rule())
}

/// Reads one line of a system's minables.
fn minables_line<'a>(input: &'a str) -> (r: Parsed<'a, Minables<'a>>)
    ensures
        r.model() == spec_minables_line(input.model()),
        advances(input, r),
{
    line(input, 1, "minables", minables, Ghost(minables_rule()))
}

/// One line of a system's trades at the start of `s`.
pub open spec fn spec_trade_line(s: Seq<u8>) -> Outcome<TradeModel> {
    spec_line(s, 1, "trade".model(), trade_rule())
}

/// Reads one line of a system's trades.
fn trade_line<'a>(input: &'a str) -> (r: Parsed<'a, Trade<'a>>)
    ensures
        r.model() == spec_trade_line(input.model()),
        advances(input, r),
{
    line(input, 1, "trade", trade, Ghost(trade_rule()))
}

/// One line of a system's fleets at the start of `s`.
pub open spec fn spec_fleet_line(s: Seq<u8>) -> Outcome<FleetModel> {
    spec_line(s, 1, "fleet".model(), fleet_rule())
}

/// Reads one line of a system's fleets.
fn fleet_line<'a>(input: &'a str) -> (r: Parsed<'a, Fleet<'a>>)
    ensures
        r.model() == spec_fleet_line(input.model()),
        advances(input, r),
{
    line(input, 1, "fleet", fleet, Ghost(fleet_rule()))
}

/// The last entries of the list of [`spec_system_field`].
pub open spec fn spec_system_last_field(
    s: Seq<u8>,
    draft: SystemBuilderModel,
) -> Found<SystemField> {
    attempt(
        draft.trades is None,
        spec_repeat1(s, |t: Seq<u8>| spec_trade_line(t)),
        |v: Seq<TradeModel>| SystemField::Trades(v),
        attempt(
            draft.fleets is None,
            spec_repeat1(s, |t: Seq<u8>| spec_fleet_line(t)),
            |v: Seq<FleetModel>| SystemField::Fleets(v),
            attempt(
                draft.objects is None,
                spec_object_children(s, 1),
                |v: Seq<SystemObjectModel>| SystemField::Objects(v),
                Found::Nothing,
            ),
        ),
    )
}

/// Reads the next field of a system into the draft, by the last entries of
/// the list.
fn system_last_step<'a>(
    input: &'a str,
    draft: SystemBuilder<'a>,
) -> (step: Step<'a, SystemBuilder<'a>>)
    ensures
        step_follows(
            input,
            draft,
            step,
            spec_system_last_field(input.model(), draft.model()),
            system_apply(),
        ),
{
    let mut draft = draft;
    if draft.trades.is_none() {
        match repeat1(input, trade_line, Ghost(|t: Seq<u8>| spec_trade_line(t))) {
            Ok((rest, v)) => {
                draft.trades = Some(v);
                return Step::Advance(rest, draft);
            },
            Err(Failure::Hard(e)) => {
                return Step::Abort(e);
            },
            Err(Failure::Soft(_)) => {},
        }
    }
    if draft.fleets.is_none() {
        match repeat1(input, fleet_line, Ghost(|t: Seq<u8>| spec_fleet_line(t))) {
            Ok((rest, v)) => {
                draft.fleets = Some(v);
                return Step::Advance(rest, draft);
            },
            Err(Failure::Hard(e)) => {
                return Step::Abort(e);
            },
            Err(Failure::Soft(_)) => {},
        }
    }
    if draft.objects.is_none() {
        match object_children(input, 1) {
            Ok((rest, v)) => {
                draft.objects = Some(v);
                return Step::Advance(rest, draft);
            },
            Err(Failure::Hard(e)) => {
                return Step::Abort(e);
            },
            Err(Failure::Soft(_)) => {},
        }
    }
    Step::Stay(draft)
}

/// The later entries of the list of [`spec_system_field`].
pub open spec fn spec_system_later_field(
    s: Seq<u8>,
    draft: SystemBuilderModel,
) -> Found<SystemField> {
    attempt(
        draft.haze is None,
        spec_line(s, 1, "haze".model(), path_rule()),
        |v: Seq<u8>| SystemField::Haze(v),
        attempt(
            draft.links is None,
            spec_repeat1(s, |t: Seq<u8>| spec_link_line(t)),
            |v: Seq<Seq<u8>>| SystemField::Links(v),
            attempt(
                draft.asteroids is None,
                spec_repeat1(s, |t: Seq<u8>| spec_asteroids_line(t)),
                |v: Seq<AsteroidsModel>| SystemField::Asteroids(v),
                attempt(
                    draft.minables is None,
                    spec_repeat1(s, |t: Seq<u8>| spec_minables_line(t)),
                    |v: Seq<MinablesModel>| SystemField::Minables(v),
                    spec_system_last_field(s, draft),
                ),
            ),
        ),
    )
}

/// Reads the next field of a system into the draft, by the later entries of
/// the list.
fn system_later_step<'a>(
    input: &'a str,
    draft: SystemBuilder<'a>,
) -> (step: Step<'a, SystemBuilder<'a>>)
    ensures
        step_follows(
            input,
            draft,
            step,
            spec_system_later_field(input.model(), draft.model()),
            system_apply(),
        ),
{
    let mut draft = draft;
    if draft.haze.is_none() {
        match line(input, 1, "haze", resource_path, Ghost(path_rule())) {
            Ok((rest, v)) => {
                draft.haze = Some(v);
                return Step::Advance(rest, draft);
            },
            Err(Failure::Hard(e)) => {
                return Step::Abort(e);
            },
            Err(Failure::Soft(_)) => {},
        }
    }
    if draft.links.is_none() {
        match repeat1(input, link_line, Ghost(|t: Seq<u8>| spec_link_line(t))) {
            Ok((rest, v)) => {
                draft.links = Some(v);
                return Step::Advance(rest, draft);
            },
            Err(Failure::Hard(e)) => {
                return Step::Abort(e);
            },
            Err(Failure::Soft(_)) => {},
        }
    }
    if draft.asteroids.is_none() {
        match repeat1(input, asteroids_line, Ghost(|t: Seq<u8>| spec_asteroids_line(t))) {
            Ok((rest, v)) => {
                draft.asteroids = Some(v);
                return Step::Advance(rest, draft);
            },
            Err(Failure::Hard(e)) => {
                return Step::Abort(e);
            },
            Err(Failure::Soft(_)) => {},
        }
    }
    if draft.minables.is_none() {
        match repeat1(input, minables_line, Ghost(|t: Seq<u8>| spec_minables_line(t))) {
            Ok((rest, v)) => {
                draft.minables = Some(v);
                return Step::Advance(rest, draft);
            },
            Err(Failure::Hard(e)) => {
                return Step::Abort(e);
            },
            Err(Failure::Soft(_)) => {},
        }
    }
    system_last_step(input, draft)
}

/// The next field of a system at the start of `s`, each as long as the
/// draft lacks it: the position, the government, the habitable zone, the
/// belt, the haze, and the lists of links, asteroids, minables, trades,
/// fleets and objects. A list is one run of lines of its kind.
pub open spec fn spec_system_field(s: Seq<u8>, draft: SystemBuilderModel) -> Found<SystemField> {
    attempt(
        draft.pos is None,
        spec_line(s, 1, "pos".model(), position_rule()),
        |v: PositionModel| SystemField::Pos(v),
        attempt(
            draft.government is None,
            spec_line(s, 1, "government".model(), string_rule()),
            |v: Seq<u8>| SystemField::Government(v),
            attempt(
                draft.habitable is None,
                spec_line(s, 1, "habitable".model(), number_rule()),
                |v: Seq<u8>| SystemField::Habitable(v),
                attempt(
                    draft.belt is None,
                    spec_line(s, 1, "belt".model(), u32_rule()),
                    |v: u32| SystemField::Belt(v),
                    spec_system_later_field(s, draft),
                ),
            ),
        ),
    )
}

/// How a system looks for its next field.
pub open spec fn system_search() -> Search<SystemBuilderModel, SystemField> {
    |s: Seq<u8>, draft: SystemBuilderModel| spec_system_field(s, draft)
}

/// How a system takes a field into its draft.
pub open spec fn system_apply() -> Apply<SystemBuilderModel, SystemField> {
    |draft: SystemBuilderModel, field: SystemField| draft.with(field)
}

/// Reads the next field of a system into the draft.
pub fn system_step<'a>(
    input: &'a str,
    draft: SystemBuilder<'a>,
) -> (step: Step<'a, SystemBuilder<'a>>)
    ensures
        step_follows(
            input,
            draft,
            step,
            spec_system_field(input.model(), draft.model()),
            system_apply(),
        ),
{
    let mut draft = draft;
    if draft.pos.is_none() {
        match line(input, 1, "pos", position, Ghost(position_rule())) {
            Ok((rest, v)) => {
                draft.pos = Some(v);
                return Step::Advance(rest, draft);
            },
            Err(Failure::Hard(e)) => {
                return Step::Abort(e);
            },
            Err(Failure::Soft(_)) => {},
        }
    }
    if draft.government.is_none() {
        match line(input, 1, "government", string, Ghost(string_rule())) {
            Ok((rest, v)) => {
                draft.government = Some(v);
                return Step::Advance(rest, draft);
            },
            Err(Failure::Hard(e)) => {
                return Step::Abort(e);
            },
            Err(Failure::Soft(_)) => {},
        }
    }
    if draft.habitable.is_none() {
        match line(input, 1, "habitable", number, Ghost(number_rule())) {
            Ok((rest, v)) => {
                draft.habitable = Some(v);
                return Step::Advance(rest, draft);
            },
            Err(Failure::Hard(e)) => {
                return Step::Abort(e);
            },
            Err(Failure::Soft(_)) => {},
        }
    }
    if draft.belt.is_none() {
        match line(input, 1, "belt", integer_u32, Ghost(u32_rule())) {
            Ok((rest, v)) => {
                draft.belt = Some(v);
                return Step::Advance(rest, draft);
            },
            Err(Failure::Hard(e)) => {
                return Step::Abort(e);
            },
            Err(Failure::Soft(_)) => {},
        }
    }
    system_later_step(input, draft)
}

/// A system behind its keyword: blanks, the name, a line ending, then the
/// fields in any order, each at most once. The position, the government and
/// the habitable zone are required.
pub open spec fn spec_system_body(s: Seq<u8>) -> Outcome<SystemModel> {
    match spec_space1(s) {
        Err(e) => Err(e),
        Ok((a, _)) => match spec_string(a) {
            Err(e) => Err(e),
            Ok((b, name)) => match spec_line_ending(b) {
                Err(e) => Err(e),
                Ok((c, _)) => match spec_sweep(
                    c,
                    SystemBuilderModel { name: Some(name), ..SystemBuilderModel::empty() },
                    system_search(),
                    system_apply(),
                ) {
                    Err(e) => Err(FailureModel::Hard(e)),
                    Ok((rest, draft)) => draft.finish(rest),
                },
            },
        },
    }
}

/// Reads a system behind its keyword.
fn system_body<'a>(input: &'a str) -> (r: Parsed<'a, System<'a>>)
    ensures
        r.model() == spec_system_body(input.model()),
        advances(input, r),
{
    let (a, _) = space1(input)?;
    let (b, name) = string(a)?;
    let (c, _) = line_ending(b)?;
    let mut draft = SystemBuilder::new();
    draft.name = Some(name);
    match sweep::<SystemBuilder<'a>, SystemField, _>(
        c,
        draft,
        system_step,
        Ghost(system_search()),
        Ghost(system_apply()),
    ) {
        Err(e) => Err(Failure::Hard(e)),
        Ok((rest, full)) => full.finish(rest),
    }
}

/// A system at the start of `s`. A text that does not begin with the keyword
/// `system` fails softly; behind the keyword every failure is hard.
pub open spec fn spec_parse_system(s: Seq<u8>) -> Outcome<SystemModel> {
    match spec_tag(s, "system".model(), Context::SystemTag) {
        Err(e) => Err(e),
        Ok((rest, _)) => spec_hardened(spec_system_body(rest)),
    }
}

/// Reads a system record.
pub fn parse_system<'a>(input: &'a str) -> (r: Parsed<'a, System<'a>>)
    ensures
        r.model() == spec_parse_system(input.model()),
        advances(input, r),
{
    let (rest, _) = tag(input, "system", Context::SystemTag)?;
    hardened(system_body(rest))
}

} // verus!
