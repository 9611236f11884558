//! The field engine: reading one field of a record, reading a field that
//! repeats, and reading the fields of a record until none fits.

use crate::errors::{Context, DataError, ErrorModel, Failure, FailureModel};
use crate::helpers::{
    any_indents, indents, line_ending, line_endings, space0, space1, spec_any_indents,
    spec_indents, spec_line_ending, spec_line_endings, spec_space0, spec_space1, spec_tag,
    starts_with, tag,
};
use crate::model::{advances, fits, lemma_model_empty, lemma_model_push, Model, Outcome, Parsed};
use vstd::prelude::*;
use vstd::string::*;

verus! {

/// A parser in contracts: from the bytes to read to an outcome.
pub type Rule<T> = spec_fn(Seq<u8>) -> Outcome<T>;

/// True when `parser` may be called on every text, does what `rule` says and
/// leaves no more unread than it was given.
pub open spec fn follows<'a, T: Model, F: Fn(&'a str) -> Parsed<'a, T>>(
    parser: F,
    rule: Rule<T::M>,
) -> bool {
    &&& forall|input: &'a str| #[trigger] parser.requires((input,))
    &&& forall|input: &'a str, r: Parsed<'a, T>| #[trigger]
        parser.ensures((input,), r) ==> r.model() == rule(input.model()) && fits(input, r)
}

/// As [`follows`], for a parser that always reads something.
pub open spec fn follows_moving<'a, T: Model, F: Fn(&'a str) -> Parsed<'a, T>>(
    parser: F,
    rule: Rule<T::M>,
) -> bool {
    &&& forall|input: &'a str| #[trigger] parser.requires((input,))
    &&& forall|input: &'a str, r: Parsed<'a, T>| #[trigger]
        parser.ensures((input,), r) ==> r.model() == rule(input.model()) && advances(input, r)
}

/// A field on a line of its own at the start of `s`: `depth` units of
/// indentation, the keyword, blanks, the value, a line ending.
pub open spec fn spec_line<T>(s: Seq<u8>, depth: nat, keyword: Seq<u8>, value: Rule<T>) -> Outcome<
    T,
> {
    match spec_indents(s, depth) {
        Err(e) => Err(e),
        Ok((a, _)) => match spec_tag(a, keyword, Context::Keyword) {
            Err(e) => Err(e),
            Ok((b, _)) => match spec_space1(b) {
                Err(e) => Err(e),
                Ok((c, _)) => match value(c) {
                    Err(e) => Err(e),
                    Ok((d, v)) => match spec_line_ending(d) {
                        Err(e) => Err(e),
                        Ok((rest, _)) => Ok((rest, v)),
                    },
                },
            },
        },
    }
}

/// Reads a field that stands on a line of its own.
pub fn line<'a, T: Model, F: Fn(&'a str) -> Parsed<'a, T>>(
    input: &'a str,
    depth: usize,
    keyword: &str,
    value: F,
    Ghost(rule): Ghost<Rule<T::M>>,
) -> (r: Parsed<'a, T>)
    requires
        follows(value, rule),
    ensures
        r.model() == spec_line(input.model(), depth as nat, keyword.model(), rule),
        advances(input, r),
{
    let (a, _) = indents(input, depth)?;
    let (b, _) = tag(a, keyword, Context::Keyword)?;
    let (c, _) = space1(b)?;
    let (d, v) = value(c)?;
    let (rest, _) = line_ending(d)?;
    Ok((rest, v))
}

/// True when `s` begins with `depth` units of indentation and the keyword.
pub open spec fn at_field(s: Seq<u8>, depth: nat, keyword: Seq<u8>) -> bool {
    match spec_indents(s, depth) {
        Ok((rest, _)) => keyword.is_prefix_of(rest),
        Err(_) => false,
    }
}

/// Looks ahead for a keyword at a depth, and reads nothing.
pub fn peek_field<'a>(input: &'a str, depth: usize, keyword: &str) -> (found: bool)
    ensures
        found == at_field(input.model(), depth as nat, keyword.model()),
{
    match indents(input, depth) {
        Ok((rest, _)) => starts_with(rest.as_bytes(), keyword.as_bytes()),
        Err(_) => false,
    }
}

/// One occurrence of a field at the start of `s`: `depth` units of
/// indentation, the keyword, optional blanks and the value. What is left
/// starts behind the value.
pub open spec fn spec_occurrence<T>(
    s: Seq<u8>,
    depth: nat,
    keyword: Seq<u8>,
    value: Rule<T>,
) -> Outcome<T> {
    match spec_indents(s, depth) {
        Err(e) => Err(e),
        Ok((a, _)) => match spec_tag(a, keyword, Context::Keyword) {
            Err(e) => Err(e),
            Ok((b, _)) => value(spec_space0(b)),
        },
    }
}

/// Reads one occurrence of a field up to the end of its value.
pub fn occurrence<'a, T: Model, F: Fn(&'a str) -> Parsed<'a, T>>(
    input: &'a str,
    depth: usize,
    keyword: &str,
    value: &F,
    Ghost(rule): Ghost<Rule<T::M>>,
) -> (r: Parsed<'a, T>)
    requires
        follows(*value, rule),
    ensures
        r.model() == spec_occurrence(input.model(), depth as nat, keyword.model(), rule),
        fits(input, r),
        depth > 0 ==> advances(input, r),
{
    let (a, _) = indents(input, depth)?;
    let (b, _) = tag(a, keyword, Context::Keyword)?;
    value(space0(b))
}

/// A field that stands at most once: one occurrence and the line endings
/// behind it.
pub open spec fn spec_item<T>(s: Seq<u8>, depth: nat, keyword: Seq<u8>, value: Rule<T>) -> Outcome<
    T,
> {
    match spec_occurrence(s, depth, keyword, value) {
        Err(e) => Err(e),
        Ok((rest, v)) => Ok((spec_line_endings(rest), v)),
    }
}

/// Reads a field that stands at most once.
pub fn item<'a, T: Model, F: Fn(&'a str) -> Parsed<'a, T>>(
    input: &'a str,
    depth: usize,
    keyword: &str,
    value: F,
    Ghost(rule): Ghost<Rule<T::M>>,
) -> (r: Parsed<'a, T>)
    requires
        follows(value, rule),
    ensures
        r.model() == spec_item(input.model(), depth as nat, keyword.model(), rule),
        fits(input, r),
        depth > 0 ==> advances(input, r),
{
    let (rest, v) = occurrence(input, depth, keyword, &value, Ghost(rule))?;
    Ok((line_endings(rest), v))
}

/// One entry of a field that repeats: one occurrence, and the indentation
/// and the line endings behind it.
pub open spec fn spec_entry<T>(s: Seq<u8>, depth: nat, keyword: Seq<u8>, value: Rule<T>) -> Outcome<
    T,
> {
    match spec_occurrence(s, depth, keyword, value) {
        Err(e) => Err(e),
        Ok((rest, v)) => Ok((spec_line_endings(spec_any_indents(rest)), v)),
    }
}

/// Reads one entry of a field that repeats.
pub fn entry<'a, T: Model, F: Fn(&'a str) -> Parsed<'a, T>>(
    input: &'a str,
    depth: usize,
    keyword: &str,
    value: &F,
    Ghost(rule): Ghost<Rule<T::M>>,
) -> (r: Parsed<'a, T>)
    requires
        follows(*value, rule),
    ensures
        r.model() == spec_entry(input.model(), depth as nat, keyword.model(), rule),
        fits(input, r),
        depth > 0 ==> advances(input, r),
{
    let (rest, v) = occurrence(input, depth, keyword, value, Ghost(rule))?;
    Ok((line_endings(any_indents(rest)), v))
}

/// The values that `rule` reads one behind the other from the start of `s`,
/// in the order of the text, up to the first place where it fails softly or
/// reads nothing. A hard failure of `rule` fails the whole.
pub open spec fn spec_repeat0<T>(s: Seq<u8>, rule: Rule<T>) -> Outcome<Seq<T>>
    decreases s.len(),
{
    match rule(s) {
        Ok((rest, v)) => if rest.len() < s.len() {
            match spec_repeat0(rest, rule) {
                Ok((end, more)) => Ok((end, seq![v] + more)),
                Err(e) => Err(e),
            }
        } else {
            Ok((s, Seq::empty()))
        },
        Err(FailureModel::Soft(_)) => Ok((s, Seq::empty())),
        Err(e) => Err(e),
    }
}

/// As [`spec_repeat0`], but the first value is owed: where `rule` fails at
/// the start of `s`, so does the whole.
pub open spec fn spec_repeat1<T>(s: Seq<u8>, rule: Rule<T>) -> Outcome<Seq<T>> {
    match rule(s) {
        Ok((rest, v)) => match spec_repeat0(rest, rule) {
            Ok((end, more)) => Ok((end, seq![v] + more)),
            Err(e) => Err(e),
        },
        Err(e) => Err(e),
    }
}

/// Reads with `parser` as often as it fits, after the values in `found`.
fn repeat_into<'a, T: Model, F: Fn(&'a str) -> Parsed<'a, T>>(
    input: &'a str,
    parser: &F,
    Ghost(rule): Ghost<Rule<T::M>>,
    found: Vec<T>,
) -> (r: Parsed<'a, Vec<T>>)
    requires
        follows_moving(*parser, rule),
    ensures
        r.model() == (match spec_repeat0(input.model(), rule) {
            Ok((end, more)) => Ok((end, found.model() + more)),
            Err(e) => Err(e),
        }),
        fits(input, r),
{
    let mut rest = input;
    let mut values = found;
    loop
        invariant
            follows_moving(*parser, rule),
            rest.model().len() <= input.model().len(),
            (match spec_repeat0(rest.model(), rule) {
                Ok((end, more)) => Ok((end, values.model() + more)),
                Err(e) => Err(e),
            }) == (match spec_repeat0(input.model(), rule) {
                Ok((end, more)) => Ok::<(Seq<u8>, Seq<T::M>), FailureModel>(
                    (end, found.model() + more),
                ),
                Err(e) => Err(e),
            }),
        decreases rest.model().len(),
    {
        match parser(rest) {
            Ok((next, v)) => {
                let ghost before = values;
                let ghost vm = v.model();
                values.push(v);
                proof {
                    lemma_model_push(before, values, v);
                    match spec_repeat0(next.model(), rule) {
                        Ok((end, more)) => {
                            assert(before.model().push(vm) + more =~= before.model() + (seq![vm]
                                + more));
                        },
                        Err(_) => {},
                    }
                }
                rest = next;
            },
            Err(Failure::Soft(_)) => {
                proof {
                    assert(values.model() + Seq::<T::M>::empty() =~= values.model());
                }
                return Ok((rest, values));
            },
            Err(e) => {
                return Err(e);
            },
        }
    }
}

/// Reads with `parser` as often as it fits.
pub fn repeat0<'a, T: Model, F: Fn(&'a str) -> Parsed<'a, T>>(
    input: &'a str,
    parser: F,
    Ghost(rule): Ghost<Rule<T::M>>,
) -> (r: Parsed<'a, Vec<T>>)
    requires
        follows_moving(parser, rule),
    ensures
        r.model() == spec_repeat0(input.model(), rule),
        fits(input, r),
{
    let found: Vec<T> = Vec::new();
    proof {
        lemma_model_empty(found);
        match spec_repeat0(input.model(), rule) {
            Ok((end, more)) => {
                assert(found.model() + more =~= more);
            },
            Err(_) => {},
        }
    }
    repeat_into(input, &parser, Ghost(rule), found)
}

/// Reads with `parser` once, and then as often as it fits.
pub fn repeat1<'a, T: Model, F: Fn(&'a str) -> Parsed<'a, T>>(
    input: &'a str,
    parser: F,
    Ghost(rule): Ghost<Rule<T::M>>,
) -> (r: Parsed<'a, Vec<T>>)
    requires
        follows_moving(parser, rule),
    ensures
        r.model() == spec_repeat1(input.model(), rule),
        advances(input, r),
{
    let (rest, first) = parser(input)?;
    let mut found: Vec<T> = Vec::new();
    let ghost empty = found;
    found.push(first);
    proof {
        lemma_model_empty(empty);
        lemma_model_push(empty, found, first);
        assert(found.model() =~= seq![first.model()]);
    }
    repeat_into(rest, &parser, Ghost(rule), found)
}

/// The rule of one entry of a field that repeats.
pub open spec fn entry_rule<T>(depth: nat, keyword: Seq<u8>, value: Rule<T>) -> Rule<T> {
    |s: Seq<u8>| spec_entry(s, depth, keyword, value)
}

/// A field that stands at least once: its entries one behind the other, in
/// the order of the text.
pub open spec fn spec_items<T>(s: Seq<u8>, depth: nat, keyword: Seq<u8>, value: Rule<T>) -> Outcome<
    Seq<T>,
> {
    spec_repeat1(s, entry_rule(depth, keyword, value))
}

/// Reads entries of a field as often as they fit, after the values in
/// `found`.
fn entries_into<'a, T: Model, F: Fn(&'a str) -> Parsed<'a, T>>(
    input: &'a str,
    depth: usize,
    keyword: &str,
    value: &F,
    Ghost(rule): Ghost<Rule<T::M>>,
    found: Vec<T>,
) -> (r: Parsed<'a, Vec<T>>)
    requires
        follows(*value, rule),
        depth > 0,
    ensures
        r.model() == (match spec_repeat0(
            input.model(),
            entry_rule(depth as nat, keyword.model(), rule),
        ) {
            Ok((end, more)) => Ok((end, found.model() + more)),
            Err(e) => Err(e),
        }),
        fits(input, r),
{
    let ghost each = entry_rule(depth as nat, keyword.model(), rule);
    let mut values = found;
    let mut rest = input;
    loop
        invariant
            follows(*value, rule),
            depth > 0,
            each == entry_rule(depth as nat, keyword.model(), rule),
            rest.model().len() <= input.model().len(),
            (match spec_repeat0(rest.model(), each) {
                Ok((end, more)) => Ok((end, values.model() + more)),
                Err(e) => Err(e),
            }) == (match spec_repeat0(input.model(), each) {
                Ok((end, more)) => Ok::<(Seq<u8>, Seq<T::M>), FailureModel>(
                    (end, found.model() + more),
                ),
                Err(e) => Err(e),
            }),
        decreases rest.model().len(),
    {
        match entry(rest, depth, keyword, value, Ghost(rule)) {
            Ok((next, v)) => {
                let ghost before = values;
                let ghost vm = v.model();
                values.push(v);
                proof {
                    lemma_model_push(before, values, v);
                    match spec_repeat0(next.model(), each) {
                        Ok((end, more)) => {
                            assert(before.model().push(vm) + more =~= before.model() + (seq![vm]
                                + more));
                        },
                        Err(_) => {},
                    }
                }
                rest = next;
            },
            Err(Failure::Soft(_)) => {
                proof {
                    assert(values.model() + Seq::<T::M>::empty() =~= values.model());
                }
                return Ok((rest, values));
            },
            Err(e) => {
                return Err(e);
            },
        }
    }
}

/// Reads a field that stands at least once: one or more entries in a row.
pub fn items<'a, T: Model, F: Fn(&'a str) -> Parsed<'a, T>>(
    input: &'a str,
    depth: usize,
    keyword: &str,
    value: F,
    Ghost(rule): Ghost<Rule<T::M>>,
) -> (r: Parsed<'a, Vec<T>>)
    requires
        follows(value, rule),
        depth > 0,
    ensures
        r.model() == spec_items(input.model(), depth as nat, keyword.model(), rule),
        advances(input, r),
{
    let (rest, first) = entry(input, depth, keyword, &value, Ghost(rule))?;
    let mut found: Vec<T> = Vec::new();
    let ghost empty = found;
    found.push(first);
    proof {
        lemma_model_empty(empty);
        lemma_model_push(empty, found, first);
        assert(found.model() =~= seq![first.model()]);
    }
    entries_into(rest, depth, keyword, &value, Ghost(rule), found)
}

/// What looking for the next field of a record found, in contracts.
pub enum Found<F> {
    /// A field, and the bytes left unread behind it.
    Field(Seq<u8>, F),
    /// No field of the record starts here.
    Nothing,
    /// A field starts here and is malformed.
    Broken(ErrorModel),
}

/// How a record looks for its next field: from the bytes to read and the
/// draft so far.
pub type Search<D, F> = spec_fn(Seq<u8>, D) -> Found<F>;

/// How a record takes a field into its draft.
pub type Apply<D, F> = spec_fn(D, F) -> D;

/// What one step of reading a record's fields returns.
pub enum Step<'a, D> {
    /// A field was read and taken into the draft.
    Advance(&'a str, D),
    /// No field starts here: the draft is handed back as it was.
    Stay(D),
    /// A field starts here and is malformed.
    Abort(DataError),
}

/// True when a step did what `found` and `apply` say.
pub open spec fn step_follows<'a, D: Model, F>(
    input: &'a str,
    draft: D,
    step: Step<'a, D>,
    found: Found<F>,
    apply: Apply<D::M, F>,
) -> bool {
    match found {
        Found::Field(rest, field) => step matches Step::Advance(left, next) && left.model() == rest
            && next.model() == apply(draft.model(), field) && rest.len() < input.model().len(),
        Found::Nothing => step matches Step::Stay(same) && same.model() == draft.model(),
        Found::Broken(error) => step matches Step::Abort(e) && e@ == error,
    }
}

/// True when `stepper` may be called on every text and draft and does what
/// `search` and `apply` say.
pub open spec fn steps_by<'a, D: Model, F, S: Fn(&'a str, D) -> Step<'a, D>>(
    stepper: S,
    search: Search<D::M, F>,
    apply: Apply<D::M, F>,
) -> bool {
    &&& forall|input: &'a str, draft: D| #[trigger] stepper.requires((input, draft))
    &&& forall|input: &'a str, draft: D, step: Step<'a, D>| #[trigger]
        stepper.ensures((input, draft), step) ==> step_follows(
            input,
            draft,
            step,
            search(input.model(), draft.model()),
            apply,
        )
}

/// The field that the sweep takes at the start of `s`, and the bytes behind
/// it; `None` where the sweep ends here.
pub open spec fn taken<D, F>(s: Seq<u8>, draft: D, search: Search<D, F>) -> Option<(Seq<u8>, F)> {
    match search(s, draft) {
        Found::Field(rest, field) => if rest.len() < s.len() {
            Some((rest, field))
        } else {
            None
        },
        _ => None,
    }
}

/// Reading the fields of a record: as long as a field starts where the text
/// stands, take it into the draft and go on behind it. The sweep ends at the
/// first place where no field starts, with the draft as it then is, and fails
/// where a field is malformed.
pub open spec fn spec_sweep<D, F>(
    s: Seq<u8>,
    draft: D,
    search: Search<D, F>,
    apply: Apply<D, F>,
) -> Result<(Seq<u8>, D), ErrorModel>
    decreases s.len(),
{
    match search(s, draft) {
        Found::Field(rest, field) => if rest.len() < s.len() {
            spec_sweep(rest, apply(draft, field), search, apply)
        } else {
            Ok((s, draft))
        },
        Found::Nothing => Ok((s, draft)),
        Found::Broken(error) => Err(error),
    }
}

/// Reads the fields of a record into `draft` until none fits.
pub fn sweep<'a, D: Model, F, S: Fn(&'a str, D) -> Step<'a, D>>(
    input: &'a str,
    draft: D,
    stepper: S,
    Ghost(search): Ghost<Search<D::M, F>>,
    Ghost(apply): Ghost<Apply<D::M, F>>,
) -> (r: Result<(&'a str, D), DataError>)
    requires
        steps_by(stepper, search, apply),
    ensures
        match spec_sweep(input.model(), draft.model(), search, apply) {
            Ok((rest, end)) => r matches Ok((left, full)) && left.model() == rest && full.model()
                == end,
            Err(error) => r matches Err(e) && e@ == error,
        },
        r matches Ok((left, _)) ==> left.model().len() <= input.model().len(),
{
    let mut rest = input;
    let mut current = draft;
    loop
        invariant
            steps_by(stepper, search, apply),
            rest.model().len() <= input.model().len(),
            spec_sweep(rest.model(), current.model(), search, apply) == spec_sweep(
                input.model(),
                draft.model(),
                search,
                apply,
            ),
        decreases rest.model().len(),
    {
        match stepper(rest, current) {
            Step::Advance(left, next) => {
                rest = left;
                current = next;
            },
            Step::Stay(same) => {
                return Ok((rest, same));
            },
            Step::Abort(error) => {
                return Err(error);
            },
        }
    }
}

/// Where no field starts, the sweep ends and leaves the draft as it is: what
/// was read before stays read.
pub proof fn lemma_sweep_ends<D, F>(
    s: Seq<u8>,
    draft: D,
    search: Search<D, F>,
    apply: Apply<D, F>,
)
    requires
        search(s, draft) is Nothing,
    ensures
        spec_sweep(s, draft, search, apply) == Ok::<(Seq<u8>, D), ErrorModel>((s, draft)),
{
}

/// The draft after taking `fields` into it one after the other.
pub open spec fn fold_fields<D, F>(draft: D, fields: Seq<F>, apply: Apply<D, F>) -> D
    decreases fields.len(),
{
    if fields.len() == 0 {
        draft
    } else {
        fold_fields(apply(draft, fields[0]), fields.skip(1), apply)
    }
}

/// True when the sweep that starts at `s` with `draft` takes exactly
/// `fields`, in this order, and then stands before `rest`.
pub open spec fn takes_fields<D, F>(
    s: Seq<u8>,
    draft: D,
    search: Search<D, F>,
    apply: Apply<D, F>,
    fields: Seq<F>,
    rest: Seq<u8>,
) -> bool
    decreases fields.len(),
{
    if fields.len() == 0 {
        s == rest
    } else {
        match taken(s, draft, search) {
            Some((next, field)) => field == fields[0] && takes_fields(
                next,
                apply(draft, field),
                search,
                apply,
                fields.skip(1),
                rest,
            ),
            None => false,
        }
    }
}

/// `fields` with the neighbours at `i` and `i + 1` exchanged.
pub open spec fn exchanged<F>(fields: Seq<F>, i: int) -> Seq<F> {
    fields.update(i, fields[i + 1]).update(i + 1, fields[i])
}

/// A sweep that takes `fields` and then stands before `rest` ends as the
/// sweep does that starts at `rest` with the draft that holds `fields`.
pub proof fn lemma_sweep_by_fields<D, F>(
    s: Seq<u8>,
    draft: D,
    search: Search<D, F>,
    apply: Apply<D, F>,
    fields: Seq<F>,
    rest: Seq<u8>,
)
    requires
        takes_fields(s, draft, search, apply, fields, rest),
    ensures
        spec_sweep(s, draft, search, apply) == spec_sweep(
            rest,
            fold_fields(draft, fields, apply),
            search,
            apply,
        ),
    decreases fields.len(),
{
    if fields.len() > 0 {
        let (next, field) = taken(s, draft, search)->0;
        lemma_sweep_by_fields(next, apply(draft, field), search, apply, fields.skip(1), rest);
    }
}

/// Two neighbours that can be taken in either order can be exchanged in a
/// list of fields without changing the draft that the list gives.
pub proof fn lemma_fold_exchange<D, F>(draft: D, fields: Seq<F>, apply: Apply<D, F>, i: int)
    requires
        0 <= i < fields.len() - 1,
        forall|d: D| #[trigger]
            apply(apply(d, fields[i]), fields[i + 1]) == apply(apply(d, fields[i + 1]), fields[i]),
    ensures
        fold_fields(draft, exchanged(fields, i), apply) == fold_fields(draft, fields, apply),
    decreases fields.len(),
{
    let other = exchanged(fields, i);
    if i == 0 {
        reveal_with_fuel(fold_fields, 3);
        assert(other.skip(1).skip(1) =~= fields.skip(1).skip(1));
        assert(other.skip(1)[0] == fields[0]);
        assert(fields.skip(1)[0] == fields[1]);
        assert(apply(apply(draft, fields[0]), fields[1]) == apply(
            apply(draft, fields[1]),
            fields[0],
        ));
    } else {
        assert(other.skip(1) =~= exchanged(fields.skip(1), i - 1));
        assert(fields.skip(1)[i - 1] == fields[i]);
        assert(fields.skip(1)[i] == fields[i + 1]);
        lemma_fold_exchange(apply(draft, fields[0]), fields.skip(1), apply, i - 1);
    }
}

/// Order independence. Two texts whose sweeps take the same fields, but for
/// two neighbours that are exchanged, and then stand before the same rest,
/// sweep to the same end, provided that the two neighbours can be taken into
/// a draft in either order.
pub proof fn lemma_sweep_order<D, F>(
    s: Seq<u8>,
    t: Seq<u8>,
    draft: D,
    search: Search<D, F>,
    apply: Apply<D, F>,
    fields: Seq<F>,
    i: int,
    rest: Seq<u8>,
)
    requires
        0 <= i < fields.len() - 1,
        takes_fields(s, draft, search, apply, fields, rest),
        takes_fields(t, draft, search, apply, exchanged(fields, i), rest),
        forall|d: D| #[trigger]
            apply(apply(d, fields[i]), fields[i + 1]) == apply(apply(d, fields[i + 1]), fields[i]),
    ensures
        spec_sweep(s, draft, search, apply) == spec_sweep(t, draft, search, apply),
{
    lemma_sweep_by_fields(s, draft, search, apply, fields, rest);
    lemma_sweep_by_fields(t, draft, search, apply, exchanged(fields, i), rest);
    lemma_fold_exchange(draft, fields, apply, i);
}

/// A sweep that takes `fields` and then stands where no field starts ends
/// there, with the draft that holds `fields`: what was read stays read, and
/// what does not fit is left unread.
pub proof fn lemma_sweep_stops<D, F>(
    s: Seq<u8>,
    draft: D,
    search: Search<D, F>,
    apply: Apply<D, F>,
    fields: Seq<F>,
    rest: Seq<u8>,
)
    requires
        takes_fields(s, draft, search, apply, fields, rest),
        search(rest, fold_fields(draft, fields, apply)) is Nothing,
    ensures
        spec_sweep(s, draft, search, apply) == Ok::<(Seq<u8>, D), ErrorModel>(
            (rest, fold_fields(draft, fields, apply)),
        ),
{
    lemma_sweep_by_fields(s, draft, search, apply, fields, rest);
}

/// A slot that is empty stays empty while no field is taken that goes to
/// it. `slot` tells the slot of a field, `lacks` whether a slot of a draft is
/// empty.
pub proof fn lemma_fold_leaves_empty<D, F>(
    draft: D,
    fields: Seq<F>,
    apply: Apply<D, F>,
    slot: spec_fn(F) -> nat,
    lacks: spec_fn(D, nat) -> bool,
    k: nat,
)
    requires
        forall|d: D, f: F| slot(f) != k ==> #[trigger] lacks(apply(d, f), k) == lacks(d, k),
        forall|i: int| 0 <= i < fields.len() ==> slot(#[trigger] fields[i]) != k,
        lacks(draft, k),
    ensures
        lacks(fold_fields(draft, fields, apply), k),
    decreases fields.len(),
{
    if fields.len() > 0 {
        assert(slot(fields[0]) != k);
        assert forall|i: int| 0 <= i < fields.skip(1).len() implies slot(
            #[trigger] fields.skip(1)[i],
        ) != k by {
            assert(fields.skip(1)[i] == fields[i + 1]);
        }
        lemma_fold_leaves_empty(apply(draft, fields[0]), fields.skip(1), apply, slot, lacks, k);
    }
}

/// Order of a repeated field. Where `rule` reads `values[i]` from
/// `texts[i]` and leaves `texts[i + 1]`, for every `i`, and fails softly at
/// the last of `texts`, reading with `rule` as often as it fits gives
/// `values`, in this order, whatever their number.
pub proof fn lemma_repeat0_keeps_order<T>(rule: Rule<T>, texts: Seq<Seq<u8>>, values: Seq<T>)
    requires
        texts.len() == values.len() + 1,
        forall|i: int|
            0 <= i < values.len() ==> rule(#[trigger] texts[i]) == Ok::<
                (Seq<u8>, T),
                FailureModel,
            >((texts[i + 1], values[i])) && texts[i + 1].len() < texts[i].len(),
        rule(texts.last()) matches Err(FailureModel::Soft(_)),
    ensures
        spec_repeat0(texts[0], rule) == Ok::<(Seq<u8>, Seq<T>), FailureModel>(
            (texts.last(), values),
        ),
    decreases values.len(),
{
    if values.len() == 0 {
        assert(values =~= Seq::<T>::empty());
    } else {
        let later_texts = texts.skip(1);
        let later_values = values.skip(1);
        assert forall|i: int| 0 <= i < later_values.len() implies rule(#[trigger] later_texts[i])
            == Ok::<(Seq<u8>, T), FailureModel>((later_texts[i + 1], later_values[i]))
            && later_texts[i + 1].len() < later_texts[i].len() by {
            assert(later_texts[i] == texts[i + 1]);
            assert(later_texts[i + 1] == texts[i + 2]);
            assert(later_values[i] == values[i + 1]);
        }
        assert(later_texts.last() == texts.last());
        lemma_repeat0_keeps_order(rule, later_texts, later_values);
        assert(later_texts[0] == texts[1]);
        assert(rule(texts[0]) == Ok::<(Seq<u8>, T), FailureModel>((texts[1], values[0])));
        assert(seq![values[0]] + later_values =~= values);
    }
}

/// Order of a repeated field that stands at least once: as
/// [`lemma_repeat0_keeps_order`], for one value or more.
pub proof fn lemma_repeat1_keeps_order<T>(rule: Rule<T>, texts: Seq<Seq<u8>>, values: Seq<T>)
    requires
        values.len() >= 1,
        texts.len() == values.len() + 1,
        forall|i: int|
            0 <= i < values.len() ==> rule(#[trigger] texts[i]) == Ok::<
                (Seq<u8>, T),
                FailureModel,
            >((texts[i + 1], values[i])) && texts[i + 1].len() < texts[i].len(),
        rule(texts.last()) matches Err(FailureModel::Soft(_)),
    ensures
        spec_repeat1(texts[0], rule) == Ok::<(Seq<u8>, Seq<T>), FailureModel>(
            (texts.last(), values),
        ),
{
    let later_texts = texts.skip(1);
    let later_values = values.skip(1);
    assert forall|i: int| 0 <= i < later_values.len() implies rule(#[trigger] later_texts[i])
        == Ok::<(Seq<u8>, T), FailureModel>((later_texts[i + 1], later_values[i]))
        && later_texts[i + 1].len() < later_texts[i].len() by {
        assert(later_texts[i] == texts[i + 1]);
        assert(later_texts[i + 1] == texts[i + 2]);
        assert(later_values[i] == values[i + 1]);
    }
    assert(later_texts.last() == texts.last());
    lemma_repeat0_keeps_order(rule, later_texts, later_values);
    assert(later_texts[0] == texts[1]);
    assert(rule(texts[0]) == Ok::<(Seq<u8>, T), FailureModel>((texts[1], values[0])));
    assert(seq![values[0]] + later_values =~= values);
}

/// Order of a field that stands at least once. Where the entries of the
/// field give `values[i]` from `texts[i]` and leave `texts[i + 1]`, for every
/// `i`, and no entry of it starts at the last of `texts`, the field gives
/// `values`, in this order.
pub proof fn lemma_items_keep_order<T>(
    depth: nat,
    keyword: Seq<u8>,
    value: Rule<T>,
    texts: Seq<Seq<u8>>,
    values: Seq<T>,
)
    requires
        values.len() >= 1,
        texts.len() == values.len() + 1,
        forall|i: int|
            0 <= i < values.len() ==> spec_entry(#[trigger] texts[i], depth, keyword, value)
                == Ok::<(Seq<u8>, T), FailureModel>((texts[i + 1], values[i])) && texts[i
                + 1].len() < texts[i].len(),
        spec_entry(texts.last(), depth, keyword, value) matches Err(FailureModel::Soft(_)),
    ensures
        spec_items(texts[0], depth, keyword, value) == Ok::<(Seq<u8>, Seq<T>), FailureModel>(
            (texts.last(), values),
        ),
{
    let rule = entry_rule(depth, keyword, value);
    assert forall|i: int| 0 <= i < values.len() implies rule(#[trigger] texts[i]) == Ok::<
        (Seq<u8>, T),
        FailureModel,
    >((texts[i + 1], values[i])) && texts[i + 1].len() < texts[i].len() by {
        assert(rule(texts[i]) == spec_entry(texts[i], depth, keyword, value));
    }
    lemma_repeat1_keeps_order(rule, texts, values);
}

/// One entry of a record's list of fields, for a record that takes each
/// field once: where the field is still wanted and `outcome` read it, the
/// field is found; where `outcome` failed hard, the field is broken; else the
/// rest of the list decides.
pub open spec fn attempt<T, F>(
    wanted: bool,
    outcome: Outcome<T>,
    wrap: spec_fn(T) -> F,
    otherwise: Found<F>,
) -> Found<F> {
    if wanted {
        match outcome {
            Ok((rest, v)) => Found::Field(rest, wrap(v)),
            Err(FailureModel::Hard(e)) => Found::Broken(e),
            Err(FailureModel::Soft(_)) => otherwise,
        }
    } else {
        otherwise
    }
}

/// One entry of a record's list of fields, for a record that looks ahead
/// for keywords: where the keyword is present, `outcome` decides, and any
/// failure of it breaks the field; else the rest of the list decides.
pub open spec fn dispatch<T, F>(
    present: bool,
    outcome: Outcome<T>,
    wrap: spec_fn(T) -> F,
    otherwise: Found<F>,
) -> Found<F> {
    if present {
        match outcome {
            Ok((rest, v)) => Found::Field(rest, wrap(v)),
            Err(failure) => Found::Broken(failure.error()),
        }
    } else {
        otherwise
    }
}

} // verus!
