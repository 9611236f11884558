//! The document: records, blank lines and comments, one behind the other.

use crate::errors::{Context, DataError, ErrorModel, Failure, FailureModel, Mismatch};
use crate::galaxy::{parse_galaxy, spec_parse_galaxy};
use crate::helpers::{comment_hole, line_ending, or_else, spec_comment_hole, spec_line_ending};
use crate::model::{lemma_model_empty, lemma_model_push, Model, Outcome, Parsed};
use crate::planet::{parse_planet, spec_parse_planet};
use crate::ship::{parse_ship, spec_parse_ship};
use crate::start::{parse_start, spec_parse_start};
use crate::system::{parse_system, spec_parse_system};
use crate::types::{Object, ObjectModel};
use vstd::prelude::*;
use vstd::string::*;

verus! {

/// The mismatch of one alternative at the start of `s`.
pub open spec fn miss(s: Seq<u8>, context: Context) -> Mismatch {
    Mismatch { remaining: s.len() as usize, context }
}

/// The error of a place where nothing fits: the mismatches of all the
/// alternatives, in the order in which they are tried.
pub open spec fn nothing_fits(s: Seq<u8>) -> ErrorModel {
    ErrorModel::Aggregate(
        seq![
            miss(s, Context::StartTag),
            miss(s, Context::PlanetTag),
            miss(s, Context::GalaxyTag),
            miss(s, Context::SystemTag),
            miss(s, Context::ShipTag),
            miss(s, Context::LineEnding),
            miss(s, Context::Comment),
        ],
    )
}

/// A record as a piece of the document.
pub open spec fn as_piece<R>(outcome: Outcome<R>, wrap: spec_fn(R) -> ObjectModel) -> Outcome<
    Option<ObjectModel>,
> {
    match outcome {
        Ok((rest, record)) => Ok((rest, Some(wrap(record)))),
        Err(e) => Err(e),
    }
}

/// A blank line or a comment as a piece of the document: it gives no record.
pub open spec fn as_gap(outcome: Outcome<()>) -> Outcome<Option<ObjectModel>> {
    match outcome {
        Ok((rest, _)) => Ok((rest, None)),
        Err(e) => Err(e),
    }
}

/// One piece of the document at the start of `s`. The alternatives are tried
/// in this order: a start, a planet, a galaxy, a system, a ship, a line
/// ending, a comment. The first that does not fail softly decides. Where all
/// fail softly, the piece fails softly with the mismatches of them all.
#[verifier::opaque]
pub open spec fn spec_piece(s: Seq<u8>) -> Outcome<Option<ObjectModel>> {
    or_else(
        as_piece(spec_parse_start(s), |r| ObjectModel::Start(r)),
        or_else(
            as_piece(spec_parse_planet(s), |r| ObjectModel::Planet(r)),
            or_else(
                as_piece(spec_parse_galaxy(s), |r| ObjectModel::Galaxy(r)),
                or_else(
                    as_piece(spec_parse_system(s), |r| ObjectModel::System(r)),
                    or_else(
                        as_piece(spec_parse_ship(s), |r| ObjectModel::Ship(r)),
                        or_else(
                            as_gap(spec_line_ending(s)),
                            or_else(
                                as_gap(spec_comment_hole(s)),
                                Err(FailureModel::Soft(nothing_fits(s))),
                            ),
                        ),
                    ),
                ),
            ),
        ),
    )
}

/// Reads a start as a piece of the document.
fn start_piece<'a>(input: &'a str) -> (r: Parsed<'a, Option<Object<'a>>>)
    ensures
        r.model() == as_piece(spec_parse_start(input.model()), |r| ObjectModel::Start(r)),
        r matches Ok((rest, _)) ==> rest.model().len() < input.model().len(),
{
    let (rest, record) = parse_start(input)?;
    Ok((rest, Some(Object::Start(record))))
}

/// Reads a planet as a piece of the document.
fn planet_piece<'a>(input: &'a str) -> (r: Parsed<'a, Option<Object<'a>>>)
    ensures
        r.model() == as_piece(spec_parse_planet(input.model()), |r| ObjectModel::Planet(r)),
        r matches Ok((rest, _)) ==> rest.model().len() < input.model().len(),
{
    let (rest, record) = parse_planet(input)?;
    Ok((rest, Some(Object::Planet(record))))
}

/// Reads a galaxy as a piece of the document.
fn galaxy_piece<'a>(input: &'a str) -> (r: Parsed<'a, Option<Object<'a>>>)
    ensures
        r.model() == as_piece(spec_parse_galaxy(input.model()), |r| ObjectModel::Galaxy(r)),
        r matches Ok((rest, _)) ==> rest.model().len() < input.model().len(),
{
    let (rest, record) = parse_galaxy(input)?;
    Ok((rest, Some(Object::Galaxy(record))))
}

/// Reads a system as a piece of the document.
fn system_piece<'a>(input: &'a str) -> (r: Parsed<'a, Option<Object<'a>>>)
    ensures
        r.model() == as_piece(spec_parse_system(input.model()), |r| ObjectModel::System(r)),
        r matches Ok((rest, _)) ==> rest.model().len() < input.model().len(),
{
    let (rest, record) = parse_system(input)?;
    Ok((rest, Some(Object::System(record))))
}

/// Reads a ship as a piece of the document.
fn ship_piece<'a>(input: &'a str) -> (r: Parsed<'a, Option<Object<'a>>>)
    ensures
        r.model() == as_piece(spec_parse_ship(input.model()), |r| ObjectModel::Ship(r)),
        r matches Ok((rest, _)) ==> rest.model().len() < input.model().len(),
{
    let (rest, record) = parse_ship(input)?;
    Ok((rest, Some(Object::Ship(record))))
}

/// Reads a blank line or a comment as a piece of the document.
fn gap<'a>(input: &'a str) -> (r: Parsed<'a, Option<Object<'a>>>)
    ensures
        r.model() == or_else(
            as_gap(spec_line_ending(input.model())),
            or_else(
                as_gap(spec_comment_hole(input.model())),
                Err(FailureModel::Soft(nothing_fits(input.model()))),
            ),
        ),
        r matches Ok((rest, _)) ==> rest.model().len() < input.model().len(),
{
    match line_ending(input) {
        Ok((rest, _)) => {
            return Ok((rest, None));
        },
        Err(_) => {},
    }
    match comment_hole(input) {
        Ok((rest, _)) => {
            return Ok((rest, None));
        },
        Err(_) => {},
    }
    let here = input.as_bytes().len();
    let tried = DataError::from_error_kind(here, Context::StartTag);
    let tried = DataError::append(here, Context::PlanetTag, tried);
    let tried = DataError::append(here, Context::GalaxyTag, tried);
    let tried = DataError::append(here, Context::SystemTag, tried);
    let tried = DataError::append(here, Context::ShipTag, tried);
    let tried = DataError::append(here, Context::LineEnding, tried);
    let tried = DataError::append(here, Context::Comment, tried);
    proof {
        let list = tried@->Aggregate_0;
        let all = nothing_fits(input.model())->Aggregate_0;
        assert(list =~= all);
    }
    Err(Failure::Soft(tried))
}

/// Reads one piece of the document: a record, or a blank line or a comment,
/// which give none.
pub fn piece<'a>(input: &'a str) -> (r: Parsed<'a, Option<Object<'a>>>)
    ensures
        r.model() == spec_piece(input.model()),
        r matches Ok((rest, _)) ==> rest.model().len() < input.model().len(),
{
    proof {
        reveal(spec_piece);
    }
    match start_piece(input) {
        Err(Failure::Soft(_)) => {},
        decided => {
            return decided;
        },
    }
    match planet_piece(input) {
        Err(Failure::Soft(_)) => {},
        decided => {
            return decided;
        },
    }
    match galaxy_piece(input) {
        Err(Failure::Soft(_)) => {},
        decided => {
            return decided;
        },
    }
    match system_piece(input) {
        Err(Failure::Soft(_)) => {},
        decided => {
            return decided;
        },
    }
    match ship_piece(input) {
        Err(Failure::Soft(_)) => {},
        decided => {
            return decided;
        },
    }
    gap(input)
}

/// What reading a document gave: the records up to the first place where no
/// piece could be read, the bytes left unread from there, and why no piece
/// could be read there.
pub struct Reading {
    pub records: Seq<ObjectModel>,
    pub rest: Seq<u8>,
    pub failure: FailureModel,
}

/// The records that follow a piece.
pub open spec fn with_piece(found: Option<ObjectModel>, later: Seq<ObjectModel>) -> Seq<
    ObjectModel,
> {
    match found {
        Some(record) => seq![record] + later,
        None => later,
    }
}

/// Reading the document `s`: pieces are read one behind the other until one
/// fails. Reading always ends at a failure: at the end of the text it is the
/// failure to find a piece in no text at all.
pub open spec fn spec_read(s: Seq<u8>) -> Reading
    decreases s.len(),
{
    match spec_piece(s) {
        Ok((rest, found)) => if rest.len() < s.len() {
            let later = spec_read(rest);
            Reading { records: with_piece(found, later.records), ..later }
        } else {
            Reading { records: Seq::empty(), rest: s, failure: FailureModel::Soft(nothing_fits(s)) }
        },
        Err(failure) => Reading { records: Seq::empty(), rest: s, failure },
    }
}

/// Reads pieces until one fails.
fn read<'a>(input: &'a str) -> (r: (Vec<Object<'a>>, &'a str, Failure))
    ensures
        r.0.model() == spec_read(input.model()).records,
        r.1.model() == spec_read(input.model()).rest,
        r.2@ == spec_read(input.model()).failure,
{
    let mut rest = input;
    let mut records: Vec<Object<'a>> = Vec::new();
    proof {
        lemma_model_empty(records);
        assert(records.model() + spec_read(input.model()).records =~= spec_read(
            input.model(),
        ).records);
    }
    loop
        invariant
            records.model() + spec_read(rest.model()).records == spec_read(
                input.model(),
            ).records,
            spec_read(rest.model()).rest == spec_read(input.model()).rest,
            spec_read(rest.model()).failure == spec_read(input.model()).failure,
        decreases rest.model().len(),
    {
        match piece(rest) {
            Ok((next, found)) => {
                let ghost later = spec_read(next.model()).records;
                match found {
                    Some(record) => {
                        let ghost before = records;
                        let ghost rm = record.model();
                        records.push(record);
                        proof {
                            lemma_model_push(before, records, record);
                            assert(before.model().push(rm) + later =~= before.model() + (seq![rm]
                                + later));
                        }
                    },
                    None => {},
                }
                rest = next;
            },
            Err(failure) => {
                proof {
                    assert(records.model() + Seq::<ObjectModel>::empty() =~= records.model());
                }
                return (records, rest, failure);
            },
        }
    }
}

/// Strict parsing of the document `s`: the records of the whole text. It
/// fails where a record fails hard, where a place is reached at which no
/// piece fits, and where the text is empty.
pub open spec fn spec_validate(s: Seq<u8>) -> Outcome<Seq<ObjectModel>> {
    let reading = spec_read(s);
    if reading.failure is Soft && reading.rest.len() == 0 && s.len() > 0 {
        Ok((reading.rest, reading.records))
    } else {
        Err(reading.failure)
    }
}

/// Parses a whole document and fails unless all of it can be read. On
/// success nothing is left unread. The failure tells how much of the text was
/// unread where it arose.
pub fn validate<'a>(input: &'a str) -> (r: Parsed<'a, Vec<Object<'a>>>)
    ensures
        r.model() == spec_validate(input.model()),
        r matches Ok((rest, _)) ==> rest.model().len() == 0,
{
    let (records, rest, failure) = read(input);
    if !failure.is_hard() && rest.as_bytes().len() == 0 && input.as_bytes().len() > 0 {
        Ok((rest, records))
    } else {
        Err(failure)
    }
}

/// Best-effort parsing of the document `s`: the records that stand before
/// the first place where reading fails.
pub open spec fn spec_parse(s: Seq<u8>) -> Seq<ObjectModel> {
    spec_read(s).records
}

/// Parses as much of a document as can be read: the records up to the first
/// failure. What follows the failure is dropped without a word.
pub fn parse<'a>(input: &'a str) -> (records: Vec<Object<'a>>)
    ensures
        records.model() == spec_parse(input.model()),
{
    read(input).0
}

/// Where strict parsing succeeds, best-effort parsing gives the same records.
pub proof fn lemma_parse_agrees_with_validate(s: Seq<u8>)
    requires
        spec_validate(s) is Ok,
    ensures
        spec_validate(s) matches Ok((_, records)) && records == spec_parse(s),
{
}

/// The empty text fails strict parsing, and best-effort parsing finds no
/// record in it.
pub proof fn lemma_empty_text(s: Seq<u8>)
    requires
        s.len() == 0,
    ensures
        spec_validate(s) is Err,
        spec_parse(s) == Seq::<ObjectModel>::empty(),
{
}

} // verus!
