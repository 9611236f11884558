//! The start record: where and with what the player begins.

use crate::builders::{
    AccountBuilder, AccountBuilderModel, AccountField, MortgageBuilder, MortgageBuilderModel,
    MortgageField, StartBuilder, StartBuilderModel, StartField,
};
use crate::errors::{Context, Failure, FailureModel};
use crate::fields::{
    attempt, line, spec_line, spec_sweep, step_follows, sweep, Apply, Found, Search, Step,
};
use crate::helpers::{
    date, hardened, indents, line_ending, number, space1, spec_hardened, spec_indents,
    spec_line_ending, spec_space1, spec_tag, string, tag,
};
use crate::model::{advances, Model, Outcome, Parsed};
use crate::types::{Account, AccountModel, Date, Mortgage, MortgageModel, Start, StartModel};
use crate::values::{
    date_rule, integer_u16, integer_u32, integer_u64, number_rule, string_rule, u16_rule, u32_rule,
    u64_rule,
};
use vstd::prelude::*;
use vstd::string::*;

verus! {

/// The next field of a mortgage at the start of `s`: the principal, the
/// interest, the term, each as long as the draft lacks it.
pub open spec fn spec_mortgage_field(
    s: Seq<u8>,
    draft: MortgageBuilderModel,
) -> Found<MortgageField> {
    attempt(
        draft.principal is None,
        spec_line(s, 3, "principal".model(), u64_rule()),
        |v: u64| MortgageField::Principal(v),
        attempt(
            draft.interest is None,
            spec_line(s, 3, "interest".model(), number_rule()),
            |v: Seq<u8>| MortgageField::Interest(v),
            attempt(
                draft.term is None,
                spec_line(s, 3, "term".model(), u16_rule()),
                |v: u16| MortgageField::Term(v),
                Found::Nothing,
            ),
        ),
    )
}

/// How a mortgage looks for its next field.
pub open spec fn mortgage_search() -> Search<MortgageBuilderModel, MortgageField> {
    |s: Seq<u8>, draft: MortgageBuilderModel| spec_mortgage_field(s, draft)
}

/// How a mortgage takes a field into its draft.
pub open spec fn mortgage_apply() -> Apply<MortgageBuilderModel, MortgageField> {
    |draft: MortgageBuilderModel, field: MortgageField| draft.with(field)
}

/// Reads the next field of a mortgage into the draft.
pub fn mortgage_step<'a>(
    input: &'a str,
    draft: MortgageBuilder<'a>,
) -> (step: Step<'a, MortgageBuilder<'a>>)
    ensures
        step_follows(
            input,
            draft,
            step,
            spec_mortgage_field(input.model(), draft.model()),
            mortgage_apply(),
        ),
{
    let mut draft = draft;
    if draft.principal.is_none() {
        match line(input, 3, "principal", integer_u64, Ghost(u64_rule())) {
            Ok((rest, v)) => {
                draft.principal = Some(v);
                return Step::Advance(rest, draft);
            },
            Err(Failure::Hard(e)) => {
                return Step::Abort(e);
            },
            Err(Failure::Soft(_)) => {},
        }
    }
    if draft.interest.is_none() {
        match line(input, 3, "interest", number, Ghost(number_rule())) {
            Ok((rest, v)) => {
                draft.interest = Some(v);
                return Step::Advance(rest, draft);
            },
            Err(Failure::Hard(e)) => {
                return Step::Abort(e);
            },
            Err(Failure::Soft(_)) => {},
        }
    }
    if draft.term.is_none() {
        match line(input, 3, "term", integer_u16, Ghost(u16_rule())) {
            Ok((rest, v)) => {
                draft.term = Some(v);
                return Step::Advance(rest, draft);
            },
            Err(Failure::Hard(e)) => {
                return Step::Abort(e);
            },
            Err(Failure::Soft(_)) => {},
        }
    }
    Step::Stay(draft)
}

/// A mortgage at the start of `s`: at depth 2 the keyword `mortgage`, blanks
/// and the word `Mortgage` on a line, then at depth 3 the principal, the
/// interest and the term in any order. All three are required.
pub open spec fn spec_parse_mortgage(s: Seq<u8>) -> Outcome<MortgageModel> {
    match spec_indents(s, 2) {
        Err(e) => Err(e),
        Ok((a, _)) => match spec_tag(a, "mortgage".model(), Context::Keyword) {
            Err(e) => Err(e),
            Ok((b, _)) => match spec_space1(b) {
                Err(e) => Err(e),
                Ok((c, _)) => match spec_tag(c, "Mortgage".model(), Context::Keyword) {
                    Err(e) => Err(e),
                    Ok((d, _)) => match spec_line_ending(d) {
                        Err(e) => Err(e),
                        Ok((f, _)) => match spec_sweep(
                            f,
                            MortgageBuilderModel::empty(),
                            mortgage_search(),
                            mortgage_apply(),
                        ) {
                            Err(e) => Err(FailureModel::Hard(e)),
                            Ok((rest, draft)) => draft.finish(rest),
                        },
                    },
                },
            },
        },
    }
}

/// Reads a mortgage.
pub fn parse_mortgage<'a>(input: &'a str) -> (r: Parsed<'a, Mortgage<'a>>)
    ensures
        r.model() == spec_parse_mortgage(input.model()),
        advances(input, r),
{
    let (a, _) = indents(input, 2)?;
    let (b, _) = tag(a, "mortgage", Context::Keyword)?;
    let (c, _) = space1(b)?;
    let (d, _) = tag(c, "Mortgage", Context::Keyword)?;
    let (f, _) = line_ending(d)?;
    match sweep::<MortgageBuilder<'a>, MortgageField, _>(
        f,
        MortgageBuilder::new(),
        mortgage_step,
        Ghost(mortgage_search()),
        Ghost(mortgage_apply()),
    ) {
        Err(e) => Err(Failure::Hard(e)),
        Ok((rest, full)) => full.finish(rest),
    }
}

/// The next field of an account at the start of `s`: the credits, the
/// score, the mortgage, each as long as the draft lacks it.
pub open spec fn spec_account_field(s: Seq<u8>, draft: AccountBuilderModel) -> Found<AccountField> {
    attempt(
        draft.credits is None,
        spec_line(s, 2, "credits".model(), u64_rule()),
        |v: u64| AccountField::Credits(v),
        attempt(
            draft.score is None,
            spec_line(s, 2, "score".model(), u32_rule()),
            |v: u32| AccountField::Score(v),
            attempt(
                draft.mortgage is None,
                spec_parse_mortgage(s),
                |v: MortgageModel| AccountField::Mortgage(v),
                Found::Nothing,
            ),
        ),
    )
}

/// How an account looks for its next field.
pub open spec fn account_search() -> Search<AccountBuilderModel, AccountField> {
    |s: Seq<u8>, draft: AccountBuilderModel| spec_account_field(s, draft)
}

/// How an account takes a field into its draft.
pub open spec fn account_apply() -> Apply<AccountBuilderModel, AccountField> {
    |draft: AccountBuilderModel, field: AccountField| draft.with(field)
}

/// Reads the next field of an account into the draft.
pub fn account_step<'a>(
    input: &'a str,
    draft: AccountBuilder<'a>,
) -> (step: Step<'a, AccountBuilder<'a>>)
    ensures
        step_follows(
            input,
            draft,
            step,
            spec_account_field(input.model(), draft.model()),
            account_apply(),
        ),
{
    let mut draft = draft;
    if draft.credits.is_none() {
        match line(input, 2, "credits", integer_u64, Ghost(u64_rule())) {
            Ok((rest, v)) => {
                draft.credits = Some(v);
                return Step::Advance(rest, draft);
            },
            Err(Failure::Hard(e)) => {
                return Step::Abort(e);
            },
            Err(Failure::Soft(_)) => {},
        }
    }
    if draft.score.is_none() {
        match line(input, 2, "score", integer_u32, Ghost(u32_rule())) {
            Ok((rest, v)) => {
                draft.score = Some(v);
                return Step::Advance(rest, draft);
            },
            Err(Failure::Hard(e)) => {
                return Step::Abort(e);
            },
            Err(Failure::Soft(_)) => {},
        }
    }
    if draft.mortgage.is_none() {
        match parse_mortgage(input) {
            Ok((rest, v)) => {
                draft.mortgage = Some(v);
                return Step::Advance(rest, draft);
            },
            Err(Failure::Hard(e)) => {
                return Step::Abort(e);
            },
            Err(Failure::Soft(_)) => {},
        }
    }
    Step::Stay(draft)
}

/// An account at the start of `s`: at depth 1 the keyword `account` on a
/// line, then the credits and the score at depth 2 and the mortgage, in any
/// order. All three are required.
pub open spec fn spec_parse_account(s: Seq<u8>) -> Outcome<AccountModel> {
    match spec_indents(s, 1) {
        Err(e) => Err(e),
        Ok((a, _)) => match spec_tag(a, "account".model(), Context::Keyword) {
            Err(e) => Err(e),
            Ok((b, _)) => match spec_line_ending(b) {
                Err(e) => Err(e),
                Ok((c, _)) => match spec_sweep(
                    c,
                    AccountBuilderModel::empty(),
                    account_search(),
                    account_apply(),
                ) {
                    Err(e) => Err(FailureModel::Hard(e)),
                    Ok((rest, draft)) => draft.finish(rest),
                },
            },
        },
    }
}

/// Reads an account.
pub fn parse_account<'a>(input: &'a str) -> (r: Parsed<'a, Account<'a>>)
    ensures
        r.model() == spec_parse_account(input.model()),
        advances(input, r),
{
    let (a, _) = indents(input, 1)?;
    let (b, _) = tag(a, "account", Context::Keyword)?;
    let (c, _) = line_ending(b)?;
    match sweep::<AccountBuilder<'a>, AccountField, _>(
        c,
        AccountBuilder::new(),
        account_step,
        Ghost(account_search()),
        Ghost(account_apply()),
    ) {
        Err(e) => Err(Failure::Hard(e)),
        Ok((rest, full)) => full.finish(rest),
    }
}

/// The next field of a start at the start of `s`: the system, the planet,
/// the date, the set, the account, each as long as the draft lacks it.
pub open spec fn spec_start_field(s: Seq<u8>, draft: StartBuilderModel) -> Found<StartField> {
    attempt(
        draft.system is None,
        spec_line(s, 1, "system".model(), string_rule()),
        |v: Seq<u8>| StartField::System(v),
        attempt(
            draft.planet is None,
            spec_line(s, 1, "planet".model(), string_rule()),
            |v: Seq<u8>| StartField::Planet(v),
            attempt(
                draft.date is None,
                spec_line(s, 1, "date".model(), date_rule()),
                |v: Date| StartField::Date(v),
                attempt(
                    draft.set is None,
                    spec_line(s, 1, "set".model(), string_rule()),
                    |v: Seq<u8>| StartField::StartSet(v),
                    attempt(
                        draft.account is None,
                        spec_parse_account(s),
                        |v: AccountModel| StartField::Account(v),
                        Found::Nothing,
                    ),
                ),
            ),
        ),
    )
}

/// How a start looks for its next field.
pub open spec fn start_search() -> Search<StartBuilderModel, StartField> {
    |s: Seq<u8>, draft: StartBuilderModel| spec_start_field(s, draft)
}

/// How a start takes a field into its draft.
pub open spec fn start_apply() -> Apply<StartBuilderModel, StartField> {
    |draft: StartBuilderModel, field: StartField| draft.with(field)
}

/// Reads the next field of a start into the draft.
pub fn start_step<'a>(input: &'a str, draft: StartBuilder<'a>) -> (step: Step<'a, StartBuilder<'a>>)
    ensures
        step_follows(
            input,
            draft,
            step,
            spec_start_field(input.model(), draft.model()),
            start_apply(),
        ),
{
    let mut draft = draft;
    if draft.system.is_none() {
        match line(input, 1, "system", string, Ghost(string_rule())) {
            Ok((rest, v)) => {
                draft.system = Some(v);
                return Step::Advance(rest, draft);
            },
            Err(Failure::Hard(e)) => {
                return Step::Abort(e);
            },
            Err(Failure::Soft(_)) => {},
        }
    }
    if draft.planet.is_none() {
        match line(input, 1, "planet", string, Ghost(string_rule())) {
            Ok((rest, v)) => {
                draft.planet = Some(v);
                return Step::Advance(rest, draft);
            },
            Err(Failure::Hard(e)) => {
                return Step::Abort(e);
            },
            Err(Failure::Soft(_)) => {},
        }
    }
    if draft.date.is_none() {
        match line(input, 1, "date", date, Ghost(date_rule())) {
            Ok((rest, v)) => {
                draft.date = Some(v);
                return Step::Advance(rest, draft);
            },
            Err(Failure::Hard(e)) => {
                return Step::Abort(e);
            },
            Err(Failure::Soft(_)) => {},
        }
    }
    if draft.set.is_none() {
        match line(input, 1, "set", string, Ghost(string_rule())) {
            Ok((rest, v)) => {
                draft.set = Some(v);
                return Step::Advance(rest, draft);
            },
            Err(Failure::Hard(e)) => {
                return Step::Abort(e);
            },
            Err(Failure::Soft(_)) => {},
        }
    }
    if draft.account.is_none() {
        match parse_account(input) {
            Ok((rest, v)) => {
                draft.account = Some(v);
                return Step::Advance(rest, draft);
            },
            Err(Failure::Hard(e)) => {
                return Step::Abort(e);
            },
            Err(Failure::Soft(_)) => {},
        }
    }
    Step::Stay(draft)
}

/// A start behind its keyword: a line ending, then the system, the planet,
/// the date, the set and the account in any order. All five are required.
pub open spec fn spec_start_body(s: Seq<u8>) -> Outcome<StartModel> {
    match spec_line_ending(s) {
        Err(e) => Err(e),
        Ok((a, _)) => match spec_sweep(
            a,
            StartBuilderModel::empty(),
            start_search(),
            start_apply(),
        ) {
            Err(e) => Err(FailureModel::Hard(e)),
            Ok((rest, draft)) => draft.finish(rest),
        },
    }
}

/// Reads a start behind its keyword.
fn start_body<'a>(input: &'a str) -> (r: Parsed<'a, Start<'a>>)
    ensures
        r.model() == spec_start_body(input.model()),
        advances(input, r),
{
    let (a, _) = line_ending(input)?;
    match sweep::<StartBuilder<'a>, StartField, _>(
        a,
        StartBuilder::new(),
        start_step,
        Ghost(start_search()),
        Ghost(start_apply()),
    ) {
        Err(e) => Err(Failure::Hard(e)),
        Ok((rest, full)) => full.finish(rest),
    }
}

/// A start at the start of `s`. A text that does not begin with the keyword
/// `start` fails softly; behind the keyword every failure is hard.
pub open spec fn spec_parse_start(s: Seq<u8>) -> Outcome<StartModel> {
    match spec_tag(s, "start".model(), Context::StartTag) {
        Err(e) => Err(e),
        Ok((rest, _)) => spec_hardened(spec_start_body(rest)),
    }
}

/// Reads a start record.
pub fn parse_start<'a>(input: &'a str) -> (r: Parsed<'a, Start<'a>>)
    ensures
        r.model() == spec_parse_start(input.model()),
        advances(input, r),
{
    let (rest, _) = tag(input, "start", Context::StartTag)?;
    hardened(start_body(rest))
}

} // verus!
