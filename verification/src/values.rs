//! The values that fields hold: integers of each width, lists of texts, and
//! the small tuples of the ship and system fields.

use crate::errors::{Failure, FailureModel};
use crate::fields::{repeat0, spec_repeat0, Rule};
use crate::helpers::{
    date, integer, number, position, space1, spec_date, spec_integer, spec_number, spec_position,
    spec_resource_path, spec_space1, spec_string, string,
};
use crate::model::{advances, fits, Model, Outcome, Parsed};
use crate::types::{
    Asteroids, AsteroidsModel, Date, Fleet, FleetModel, Minables, MinablesModel, PositionModel,
    Trade, TradeModel,
};
use vstd::prelude::*;
use vstd::string::*;

verus! {

/// The rule of a text.
pub open spec fn string_rule() -> Rule<Seq<u8>> {
    |s: Seq<u8>| spec_string(s)
}

/// The rule of a resource path.
pub open spec fn path_rule() -> Rule<Seq<u8>> {
    |s: Seq<u8>| spec_resource_path(s)
}

/// The rule of a decimal number.
pub open spec fn number_rule() -> Rule<Seq<u8>> {
    |s: Seq<u8>| spec_number(s)
}

/// The rule of a date.
pub open spec fn date_rule() -> Rule<Date> {
    |s: Seq<u8>| spec_date(s)
}

/// The rule of a position.
pub open spec fn position_rule() -> Rule<PositionModel> {
    |s: Seq<u8>| spec_position(s)
}

/// An integer of 16 bits at the start of `s`.
pub open spec fn spec_u16(s: Seq<u8>) -> Outcome<u16> {
    match spec_integer(s, 0xffff) {
        Ok((rest, v)) => Ok((rest, v as u16)),
        Err(e) => Err(e),
    }
}

/// The rule of an integer of 16 bits.
pub open spec fn u16_rule() -> Rule<u16> {
    |s: Seq<u8>| spec_u16(s)
}

/// Reads an integer that fits 16 bits.
pub fn integer_u16<'a>(input: &'a str) -> (r: Parsed<'a, u16>)
    ensures
        r.model() == spec_u16(input.model()),
        advances(input, r),
{
    let (rest, v) = integer(input, 0xffff)?;
    Ok((rest, v as u16))
}

/// An integer of 32 bits at the start of `s`.
pub open spec fn spec_u32(s: Seq<u8>) -> Outcome<u32> {
    match spec_integer(s, 0xffff_ffff) {
        Ok((rest, v)) => Ok((rest, v as u32)),
        Err(e) => Err(e),
    }
}

/// The rule of an integer of 32 bits.
pub open spec fn u32_rule() -> Rule<u32> {
    |s: Seq<u8>| spec_u32(s)
}

/// Reads an integer that fits 32 bits.
pub fn integer_u32<'a>(input: &'a str) -> (r: Parsed<'a, u32>)
    ensures
        r.model() == spec_u32(input.model()),
        advances(input, r),
{
    let (rest, v) = integer(input, 0xffff_ffff)?;
    Ok((rest, v as u32))
}

/// An integer of 64 bits at the start of `s`.
pub open spec fn spec_u64(s: Seq<u8>) -> Outcome<u64> {
    spec_integer(s, 0xffff_ffff_ffff_ffff)
}

/// The rule of an integer of 64 bits.
pub open spec fn u64_rule() -> Rule<u64> {
    |s: Seq<u8>| spec_u64(s)
}

/// Reads an integer that fits 64 bits.
pub fn integer_u64<'a>(input: &'a str) -> (r: Parsed<'a, u64>)
    ensures
        r.model() == spec_u64(input.model()),
        advances(input, r),
{
    integer(input, 0xffff_ffff_ffff_ffff)
}

/// A flag at the start of `s`: an integer of 32 bits, true unless it is zero.
pub open spec fn spec_flag(s: Seq<u8>) -> Outcome<bool> {
    match spec_u32(s) {
        Ok((rest, v)) => Ok((rest, v != 0)),
        Err(e) => Err(e),
    }
}

/// The rule of a flag.
pub open spec fn flag_rule() -> Rule<bool> {
    |s: Seq<u8>| spec_flag(s)
}

/// Reads a flag: an integer, true unless it is zero.
pub fn flag<'a>(input: &'a str) -> (r: Parsed<'a, bool>)
    ensures
        r.model() == spec_flag(input.model()),
        advances(input, r),
{
    let (rest, v) = integer_u32(input)?;
    Ok((rest, v != 0))
}

/// A value that may be absent: where `outcome`, read from `s`, failed softly,
/// nothing is read and the value is absent.
pub open spec fn spec_optional<T>(s: Seq<u8>, outcome: Outcome<T>) -> Outcome<Option<T>> {
    match outcome {
        Ok((rest, v)) => Ok((rest, Some(v))),
        Err(FailureModel::Soft(_)) => Ok((s, None)),
        Err(e) => Err(e),
    }
}

/// Makes the value that `result` read from `input` one that may be absent.
pub fn optional<'a, T: Model>(input: &'a str, result: Parsed<'a, T>) -> (r: Parsed<'a, Option<T>>)
    requires
        fits(input, result),
    ensures
        r.model() == spec_optional(input.model(), result.model()),
        fits(input, r),
{
    match result {
        Ok((rest, v)) => Ok((rest, Some(v))),
        Err(Failure::Soft(_)) => Ok((input, None)),
        Err(e) => Err(e),
    }
}

/// Blanks and a text at the start of `s`.
pub open spec fn spec_spaced_string(s: Seq<u8>) -> Outcome<Seq<u8>> {
    match spec_space1(s) {
        Err(e) => Err(e),
        Ok((a, _)) => spec_string(a),
    }
}

/// Reads blanks and a text.
pub fn spaced_string<'a>(input: &'a str) -> (r: Parsed<'a, &'a str>)
    ensures
        r.model() == spec_spaced_string(input.model()),
        advances(input, r),
{
    let (a, _) = space1(input)?;
    string(a)
}

/// Blanks and a decimal number at the start of `s`.
pub open spec fn spec_spaced_number(s: Seq<u8>) -> Outcome<Seq<u8>> {
    match spec_space1(s) {
        Err(e) => Err(e),
        Ok((a, _)) => spec_number(a),
    }
}

/// Reads blanks and a decimal number.
pub fn spaced_number<'a>(input: &'a str) -> (r: Parsed<'a, &'a str>)
    ensures
        r.model() == spec_spaced_number(input.model()),
        advances(input, r),
{
    let (a, _) = space1(input)?;
    number(a)
}

/// Blanks and an integer of 32 bits at the start of `s`.
pub open spec fn spec_spaced_u32(s: Seq<u8>) -> Outcome<u32> {
    match spec_space1(s) {
        Err(e) => Err(e),
        Ok((a, _)) => spec_u32(a),
    }
}

/// Reads blanks and an integer that fits 32 bits.
pub fn spaced_u32<'a>(input: &'a str) -> (r: Parsed<'a, u32>)
    ensures
        r.model() == spec_spaced_u32(input.model()),
        advances(input, r),
{
    let (a, _) = space1(input)?;
    integer_u32(a)
}

/// A list of texts with blanks between at the start of `s`. The list may be
/// empty.
pub open spec fn spec_texts(s: Seq<u8>) -> Outcome<Seq<Seq<u8>>> {
    match spec_string(s) {
        Ok((rest, first)) => match spec_repeat0(rest, |t: Seq<u8>| spec_spaced_string(t)) {
            Ok((end, more)) => Ok((end, seq![first] + more)),
            Err(e) => Err(e),
        },
        Err(FailureModel::Soft(_)) => Ok((s, Seq::empty())),
        Err(e) => Err(e),
    }
}

/// The rule of a list of texts.
pub open spec fn texts_rule() -> Rule<Seq<Seq<u8>>> {
    |s: Seq<u8>| spec_texts(s)
}

/// Reads texts with blanks between, as many as there are.
pub fn texts<'a>(input: &'a str) -> (r: Parsed<'a, Vec<&'a str>>)
    ensures
        r.model() == spec_texts(input.model()),
        fits(input, r),
{
    match string(input) {
        Ok((rest, first)) => {
            let (end, more) = repeat0(
                rest,
                spaced_string,
                Ghost(|t: Seq<u8>| spec_spaced_string(t)),
            )?;
            let mut all: Vec<&'a str> = Vec::new();
            all.push(first);
            let mut more = more;
            let ghost tail_model = more.model();
            all.append(&mut more);
            assert(all.model() =~= seq![first.model()] + tail_model);
            Ok((end, all))
        },
        Err(Failure::Soft(_)) => {
            let none: Vec<&'a str> = Vec::new();
            assert(none.model() =~= Seq::<Seq<u8>>::empty());
            Ok((input, none))
        },
        Err(e) => Err(e),
    }
}

/// Where an engine stands: two decimal numbers, and an optional third.
pub open spec fn spec_engine(s: Seq<u8>) -> Outcome<(Seq<u8>, Seq<u8>, Option<Seq<u8>>)> {
    match spec_position(s) {
        Err(e) => Err(e),
        Ok((a, at)) => match spec_optional(a, spec_spaced_number(a)) {
            Err(e) => Err(e),
            Ok((rest, extra)) => Ok((rest, (at.x, at.y, extra))),
        },
    }
}

/// The rule of an engine.
pub open spec fn engine_rule() -> Rule<(Seq<u8>, Seq<u8>, Option<Seq<u8>>)> {
    |s: Seq<u8>| spec_engine(s)
}

/// Reads where an engine stands: two decimal numbers, and an optional third.
pub fn engine<'a>(input: &'a str) -> (r: Parsed<'a, (&'a str, &'a str, Option<&'a str>)>)
    ensures
        r.model() == spec_engine(input.model()),
        advances(input, r),
{
    let (a, at) = position(input)?;
    let (rest, extra) = optional(a, spaced_number(a))?;
    Ok((rest, (at.x, at.y, extra)))
}

/// A mount: two decimal numbers, and an optional text for what it holds.
pub open spec fn spec_mount(s: Seq<u8>) -> Outcome<(Seq<u8>, Seq<u8>, Option<Seq<u8>>)> {
    match spec_position(s) {
        Err(e) => Err(e),
        Ok((a, at)) => match spec_optional(a, spec_spaced_string(a)) {
            Err(e) => Err(e),
            Ok((rest, held)) => Ok((rest, (at.x, at.y, held))),
        },
    }
}

/// The rule of a mount.
pub open spec fn mount_rule() -> Rule<(Seq<u8>, Seq<u8>, Option<Seq<u8>>)> {
    |s: Seq<u8>| spec_mount(s)
}

/// Reads a mount: two decimal numbers, and an optional text.
pub fn mount<'a>(input: &'a str) -> (r: Parsed<'a, (&'a str, &'a str, Option<&'a str>)>)
    ensures
        r.model() == spec_mount(input.model()),
        advances(input, r),
{
    let (a, at) = position(input)?;
    let (rest, held) = optional(a, spaced_string(a))?;
    Ok((rest, (at.x, at.y, held)))
}

/// A text and an integer of 32 bits, with blanks between.
pub open spec fn spec_counted(s: Seq<u8>) -> Outcome<(Seq<u8>, u32)> {
    match spec_string(s) {
        Err(e) => Err(e),
        Ok((a, name)) => match spec_spaced_u32(a) {
            Err(e) => Err(e),
            Ok((rest, count)) => Ok((rest, (name, count))),
        },
    }
}

/// The rule of a text with a count.
pub open spec fn counted_rule() -> Rule<(Seq<u8>, u32)> {
    |s: Seq<u8>| spec_counted(s)
}

/// Reads a text and an integer.
pub fn counted<'a>(input: &'a str) -> (r: Parsed<'a, (&'a str, u32)>)
    ensures
        r.model() == spec_counted(input.model()),
        advances(input, r),
{
    let (a, name) = string(input)?;
    let (rest, count) = spaced_u32(a)?;
    Ok((rest, (name, count)))
}

/// A leak: a text and two integers of 32 bits, with blanks between.
pub open spec fn spec_leak(s: Seq<u8>) -> Outcome<(Seq<u8>, u32, u32)> {
    match spec_counted(s) {
        Err(e) => Err(e),
        Ok((a, named)) => match spec_spaced_u32(a) {
            Err(e) => Err(e),
            Ok((rest, second)) => Ok((rest, (named.0, named.1, second))),
        },
    }
}

/// The rule of a leak.
pub open spec fn leak_rule() -> Rule<(Seq<u8>, u32, u32)> {
    |s: Seq<u8>| spec_leak(s)
}

/// Reads a leak: a text and two integers.
pub fn leak<'a>(input: &'a str) -> (r: Parsed<'a, (&'a str, u32, u32)>)
    ensures
        r.model() == spec_leak(input.model()),
        advances(input, r),
{
    let (a, named) = counted(input)?;
    let (rest, second) = spaced_u32(a)?;
    Ok((rest, (named.0, named.1, second)))
}

/// A trade good: a name and a price.
pub open spec fn spec_trade(s: Seq<u8>) -> Outcome<TradeModel> {
    match spec_counted(s) {
        Err(e) => Err(e),
        Ok((rest, named)) => Ok((rest, TradeModel { name: named.0, price: named.1 })),
    }
}

/// The rule of a trade good.
pub open spec fn trade_rule() -> Rule<TradeModel> {
    |s: Seq<u8>| spec_trade(s)
}

/// Reads a trade good: its name and its price.
pub fn trade<'a>(input: &'a str) -> (r: Parsed<'a, Trade<'a>>)
    ensures
        r.model() == spec_trade(input.model()),
        advances(input, r),
{
    let (rest, named) = counted(input)?;
    Ok((rest, Trade { name: named.0, price: named.1 }))
}

/// A fleet: a kind and a count of 16 bits.
pub open spec fn spec_fleet(s: Seq<u8>) -> Outcome<FleetModel> {
    match spec_string(s) {
        Err(e) => Err(e),
        Ok((a, kind)) => match spec_space1(a) {
            Err(e) => Err(e),
            Ok((b, _)) => match spec_u16(b) {
                Err(e) => Err(e),
                Ok((rest, count)) => Ok((rest, FleetModel { kind, count })),
            },
        },
    }
}

/// The rule of a fleet.
pub open spec fn fleet_rule() -> Rule<FleetModel> {
    |s: Seq<u8>| spec_fleet(s)
}

/// Reads a fleet: its kind and how many ships it has.
pub fn fleet<'a>(input: &'a str) -> (r: Parsed<'a, Fleet<'a>>)
    ensures
        r.model() == spec_fleet(input.model()),
        advances(input, r),
{
    let (a, kind) = string(input)?;
    let (b, _) = space1(a)?;
    let (rest, count) = integer_u16(b)?;
    Ok((rest, Fleet { kind, count }))
}

/// Asteroids: a name, an integer of 32 bits and a decimal number.
pub open spec fn spec_asteroids(s: Seq<u8>) -> Outcome<AsteroidsModel> {
    match spec_counted(s) {
        Err(e) => Err(e),
        Ok((a, named)) => match spec_spaced_number(a) {
            Err(e) => Err(e),
            Ok((rest, second_value)) => Ok(
                (rest, AsteroidsModel { name: named.0, first_value: named.1, second_value }),
            ),
        },
    }
}

/// The rule of asteroids.
pub open spec fn asteroids_rule() -> Rule<AsteroidsModel> {
    |s: Seq<u8>| spec_asteroids(s)
}

/// Reads asteroids: a name, an integer and a decimal number.
pub fn asteroids<'a>(input: &'a str) -> (r: Parsed<'a, Asteroids<'a>>)
    ensures
        r.model() == spec_asteroids(input.model()),
        advances(input, r),
{
    let (a, named) = counted(input)?;
    let (rest, second_value) = spaced_number(a)?;
    Ok((rest, Asteroids { name: named.0, first_value: named.1, second_value }))
}

/// Minables: a name, an integer of 32 bits and a decimal number.
pub open spec fn spec_minables(s: Seq<u8>) -> Outcome<MinablesModel> {
    match spec_counted(s) {
        Err(e) => Err(e),
        Ok((a, named)) => match spec_spaced_number(a) {
            Err(e) => Err(e),
            Ok((rest, second_value)) => Ok(
                (rest, MinablesModel { name: named.0, first_value: named.1, second_value }),
            ),
        },
    }
}

/// The rule of minables.
pub open spec fn minables_rule() -> Rule<MinablesModel> {
    |s: Seq<u8>| spec_minables(s)
}

/// Reads minables: a name, an integer and a decimal number.
pub fn minables<'a>(input: &'a str) -> (r: Parsed<'a, Minables<'a>>)
    ensures
        r.model() == spec_minables(input.model()),
        advances(input, r),
{
    let (a, named) = counted(input)?;
    let (rest, second_value) = spaced_number(a)?;
    Ok((rest, Minables { name: named.0, first_value: named.1, second_value }))
}

} // verus!
